//! The forwarding service: which backends there are, and in which order they are called.
use tonic::metadata::MetadataMap;
use vstd::prelude::*;

use crate::forwarding::response_stream::{
    backend_failure, initial_response_state, tell_backend_failure, BuildToolResponseStreamState,
    ResponseStateView,
};
use crate::forwarding::{
    client_of, has_secure_target, with_client, BackendView, BesBackend, ConnectError,
    ConnectErrorView, TlsOutcome,
};
use crate::metadata::{
    contents, copy_request_metadata, lemma_grouped_len, lemma_stopped_copying, merged,
    metadata_headers, metadata_new, values_of, HeaderValues, MAX_HEADER_NAMES,
};
use crate::path::{paths, FilePath};
use crate::status::{Status, StatusView};
use crate::text::texts;

verus! {

/// A service that forwards build events to each of its backends.
#[derive(Debug)]
pub struct BesForwardingService {
    backends: Vec<BesBackend>,
    tls_certificates: Vec<FilePath>,
}

#[verifier::ext_equal]
pub struct ServiceView {
    pub backends: Seq<BackendView>,
    /// Certificates that are trusted to sign those of backends added from now on.
    pub tls_certificates: Seq<Seq<u8>>,
}

/// The views of several backends.
pub open spec fn backend_views(backends: Seq<BesBackend>) -> Seq<BackendView> {
    backends.map_values(|b: BesBackend| b@)
}

impl View for BesForwardingService {
    type V = ServiceView;

    closed spec fn view(&self) -> ServiceView {
        ServiceView {
            backends: backend_views(self.backends@),
            tls_certificates: paths(self.tls_certificates@),
        }
    }
}

/// Every backend has a client.
pub open spec fn all_connected(backends: Seq<BackendView>) -> bool {
    forall|i: int| 0 <= i < backends.len() ==> (#[trigger] backends[i]).client is Some
}

/// A backend together with its client, or why there can be none.
pub open spec fn connected(b: BackendView, trusted: Seq<Seq<u8>>, tls: TlsOutcome) -> Result<
    BackendView,
    ConnectErrorView,
> {
    with_client(b, client_of(b, trusted, tls))
}

/// What is done next to start the event stream with the backends.
#[derive(Debug)]
pub enum StartStep {
    /// Start the stream with the backend at this position and keep its responses.
    Open(usize),
    /// Start the stream with the backend at this position, detached from the build tool.
    Detach(usize),
    /// Answer the build tool with a response stream in this state.
    Respond(BuildToolResponseStreamState),
    /// Answer the build tool with a failure.
    Fail(Status),
}

#[verifier::ext_equal]
pub enum StartStepView {
    Open(int),
    Detach(int),
    Respond(ResponseStateView),
    Fail(StatusView),
}

impl View for StartStep {
    type V = StartStepView;

    open spec fn view(&self) -> StartStepView {
        match self {
            StartStep::Open(i) => StartStepView::Open(*i as int),
            StartStep::Detach(i) => StartStepView::Detach(*i as int),
            StartStep::Respond(state) => StartStepView::Respond(state@),
            StartStep::Fail(status) => StartStepView::Fail(status@),
        }
    }
}

/// The names of the backends whose responses are waited for, in order.
pub open spec fn awaited(backends: Seq<BackendView>) -> Seq<Seq<char>>
    decreases backends.len(),
{
    if backends.len() == 0 {
        Seq::empty()
    } else {
        let before = awaited(backends.drop_last());
        if backends.last().asynchronous {
            before
        } else {
            before.push(backends.last().name)
        }
    }
}

/// What follows once the stream is started with the first `done` backends.
pub open spec fn start_step(backends: Seq<BackendView>, done: int) -> StartStepView {
    if done < backends.len() {
        if backends[done].asynchronous {
            StartStepView::Detach(done)
        } else {
            StartStepView::Open(done)
        }
    } else {
        StartStepView::Respond(initial_response_state(awaited(backends)))
    }
}

/// What is done next to pass a lifecycle event on.
#[derive(Debug)]
pub enum LifecycleStep {
    /// Send the event to the backend at this position.
    Send(usize),
    /// Answer the build tool that the event was taken.
    Acknowledge,
    /// Answer the build tool with a failure.
    Fail(Status),
}

#[verifier::ext_equal]
pub enum LifecycleStepView {
    Send(int),
    Acknowledge,
    Fail(StatusView),
}

impl View for LifecycleStep {
    type V = LifecycleStepView;

    open spec fn view(&self) -> LifecycleStepView {
        match self {
            LifecycleStep::Send(i) => LifecycleStepView::Send(*i as int),
            LifecycleStep::Acknowledge => LifecycleStepView::Acknowledge,
            LifecycleStep::Fail(status) => LifecycleStepView::Fail(status@),
        }
    }
}

/// How a backend took a lifecycle event.
#[derive(Debug)]
pub enum LifecycleReply {
    Accepted,
    /// The backend answered with a failure.
    Refused(Status),
    /// The request to the backend could not be made.
    NotSent(Status),
}

#[verifier::ext_equal]
pub enum LifecycleReplyView {
    Accepted,
    Refused(StatusView),
    NotSent(StatusView),
}

impl View for LifecycleReply {
    type V = LifecycleReplyView;

    open spec fn view(&self) -> LifecycleReplyView {
        match self {
            LifecycleReply::Accepted => LifecycleReplyView::Accepted,
            LifecycleReply::Refused(status) => LifecycleReplyView::Refused(status@),
            LifecycleReply::NotSent(status) => LifecycleReplyView::NotSent(status@),
        }
    }
}

/// What follows once the first `done` backends have taken the event.
pub open spec fn lifecycle_step(backends: Seq<BackendView>, done: int) -> LifecycleStepView {
    if done < backends.len() {
        LifecycleStepView::Send(done)
    } else {
        LifecycleStepView::Acknowledge
    }
}

/// What follows from the reply of the backend at position `i`.
pub open spec fn lifecycle_reply_step(
    backends: Seq<BackendView>,
    i: int,
    reply: LifecycleReplyView,
) -> LifecycleStepView {
    match reply {
        LifecycleReplyView::Accepted => lifecycle_step(backends, i + 1),
        LifecycleReplyView::Refused(status) => LifecycleStepView::Fail(
            backend_failure(backends[i].name, " failed lifecycle request: "@, status),
        ),
        LifecycleReplyView::NotSent(status) => LifecycleStepView::Fail(status),
    }
}

/// The headers of a request to a backend: those of the build tool's request, then those set for
/// the backend, then those read from files.
pub open spec fn outbound_headers(
    client: HeaderValues,
    backend: HeaderValues,
    files: HeaderValues,
) -> HeaderValues {
    merged(merged(client, backend), files)
}

/// The metadata of a request to a backend, made of that of the build tool's request, of that set
/// for the backend, and of that read from files; nothing where a map refuses to hold them all,
/// which takes more than [`MAX_HEADER_NAMES`] names.
pub fn outbound_metadata(client: &MetadataMap, backend: &MetadataMap, files: &MetadataMap) -> (r:
    Option<MetadataMap>)
    ensures
        r matches Some(metadata) ==> contents(metadata) == outbound_headers(
            contents(*client),
            contents(*backend),
            contents(*files),
        ),
        r is None ==> outbound_headers(
            contents(*client),
            contents(*backend),
            contents(*files),
        ).dom().len() > MAX_HEADER_NAMES,
{
    let mut metadata = metadata_new();
    let ghost c = contents(*client);
    let ghost b = contents(*backend);
    let ghost f = contents(*files);
    proof {
        assert(contents(metadata) =~= Map::empty());
        assert(merged(contents(metadata), c) =~= c) by {
            assert forall|name: Seq<char>| c.contains_key(name) implies merged(
                contents(metadata),
                c,
            )[name] == c[name] by {
                assert(values_of(contents(metadata), name) + values_of(c, name) =~= values_of(
                    c,
                    name,
                ));
            }
        }
        lemma_grouped_len(metadata_headers(*client));
        lemma_grouped_len(metadata_headers(*backend));
        lemma_grouped_len(metadata_headers(*files));
    }
    if !copy_request_metadata(client, &mut metadata) {
        proof {
            lemma_stopped_copying(Map::empty(), *client, contents(metadata));
            lemma_merged_names(c, b, f);
        }
        return None;
    }
    if !copy_request_metadata(backend, &mut metadata) {
        proof {
            lemma_stopped_copying(c, *backend, contents(metadata));
            lemma_merged_names(c, b, f);
        }
        return None;
    }
    if !copy_request_metadata(files, &mut metadata) {
        proof {
            lemma_merged_names(c, b, f);
            lemma_stopped_copying(merged(c, b), *files, contents(metadata));
        }
        return None;
    }
    Some(metadata)
}

/// Each of the three sources adds names.
proof fn lemma_merged_names(client: HeaderValues, backend: HeaderValues, files: HeaderValues)
    requires
        client.dom().finite(),
        backend.dom().finite(),
        files.dom().finite(),
    ensures
        merged(client, backend).dom().finite(),
        outbound_headers(client, backend, files).dom().finite(),
        client.dom().len() <= merged(client, backend).dom().len(),
        merged(client, backend).dom().len() <= outbound_headers(
            client,
            backend,
            files,
        ).dom().len(),
{
    let two = merged(client, backend).dom();
    let all = outbound_headers(client, backend, files).dom();
    assert(two =~= client.dom().union(backend.dom()));
    assert(all =~= two.union(files.dom()));
    vstd::set_lib::lemma_len_subset(client.dom(), two);
    vstd::set_lib::lemma_len_subset(two, all);
}

/// Every header of the build tool's request reaches the backend with all its values, before any
/// value that is added to it.
pub proof fn law_client_headers_are_kept(
    client: HeaderValues,
    backend: HeaderValues,
    files: HeaderValues,
    name: Seq<char>,
)
    requires
        client.contains_key(name),
    ensures
        outbound_headers(client, backend, files).contains_key(name),
        client[name].is_prefix_of(outbound_headers(client, backend, files)[name]),
        outbound_headers(client, backend, files)[name] == client[name] + values_of(backend, name)
            + values_of(files, name),
{
}

/// A header that only the backend's settings have is added as it is set there.
pub proof fn law_backend_headers_are_added(
    client: HeaderValues,
    backend: HeaderValues,
    files: HeaderValues,
    name: Seq<char>,
)
    requires
        backend.contains_key(name),
        !client.contains_key(name),
        !files.contains_key(name),
    ensures
        outbound_headers(client, backend, files).contains_key(name),
        outbound_headers(client, backend, files)[name] == backend[name],
{
    assert(outbound_headers(client, backend, files)[name] =~= backend[name]);
}

impl BesForwardingService {
    #[verifier::type_invariant]
    spec fn inv(self) -> bool {
        all_connected(backend_views(self.backends@))
    }

    /// A service without backends, which swallows every event.
    pub fn new() -> (r: Self)
        ensures
            r@ == (ServiceView { backends: Seq::empty(), tls_certificates: Seq::empty() }),
    {
        let r = BesForwardingService { backends: Vec::new(), tls_certificates: Vec::new() };
        assert(r@ =~= (ServiceView { backends: Seq::empty(), tls_certificates: Seq::empty() }));
        r
    }

    /// Adds a backend behind those that there are, with a client for it. `tls` is what came of
    /// preparing the TLS settings of the backend.
    pub fn add_backend(&mut self, backend: BesBackend, tls: &TlsOutcome) -> (r: Result<
        (),
        ConnectError,
    >)
        requires
            has_secure_target(backend@),
        ensures
            match connected(backend@, old(self)@.tls_certificates, *tls) {
                Ok(b) => r is Ok && final(self)@ == (ServiceView {
                    backends: old(self)@.backends.push(b),
                    ..old(self)@
                }),
                Err(error) => r is Err && r->Err_0@ == error && final(self)@ == old(self)@,
            },
    {
        proof {
            use_type_invariant(&*self);
        }
        let mut backend = backend;
        match backend.lazy_connect(&self.tls_certificates, tls) {
            Ok(()) => {
                let mut backends: Vec<BesBackend> = Vec::new();
                std::mem::swap(&mut backends, &mut self.backends);
                let ghost before = backends@;
                let ghost b = backend@;
                backends.push(backend);
                assert(backend_views(backends@) =~= backend_views(before).push(b));
                self.backends = backends;
                Ok(())
            },
            Err(error) => Err(error),
        }
    }

    /// Trusts a certificate to sign those of backends that are added later.
    pub fn add_tls_trusted_cert(&mut self, tls_certificate: FilePath)
        ensures
            final(self)@ == (ServiceView {
                tls_certificates: old(self)@.tls_certificates.push(tls_certificate@),
                ..old(self)@
            }),
    {
        proof {
            use_type_invariant(&*self);
        }
        let ghost added = tls_certificate@;
        let mut tls_certificates: Vec<FilePath> = Vec::new();
        std::mem::swap(&mut tls_certificates, &mut self.tls_certificates);
        let ghost before = tls_certificates@;
        tls_certificates.push(tls_certificate);
        assert(paths(tls_certificates@) =~= paths(before).push(added));
        self.tls_certificates = tls_certificates;
    }

    /// The backends, in the order in which they were added. Each has a client.
    pub fn backends(&self) -> (r: &Vec<BesBackend>)
        ensures
            backend_views(r@) == self@.backends,
            all_connected(self@.backends),
    {
        proof {
            use_type_invariant(self);
        }
        &self.backends
    }

    /// The certificates that are trusted.
    pub fn tls_certificates(&self) -> (r: &Vec<FilePath>)
        ensures
            paths(r@) == self@.tls_certificates,
    {
        &self.tls_certificates
    }

    /// What is done once the event stream is started with the first `done` backends. Backends
    /// are started in order; only those that are not asynchronous are waited for.
    pub fn next_start(&self, done: usize) -> (r: StartStep)
        ensures
            r@ == start_step(self@.backends, done as int),
    {
        if done < self.backends.len() {
            assert(self@.backends[done as int] == self.backends@[done as int]@);
            if self.backends[done].asynchronous {
                StartStep::Detach(done)
            } else {
                StartStep::Open(done)
            }
        } else {
            StartStep::Respond(BuildToolResponseStreamState::new(self.awaited_names()))
        }
    }

    /// What is done once the stream with the backend at position `i` was started, or could not
    /// be: the first failure is what the build tool is answered.
    pub fn on_started(&self, i: usize, outcome: Result<(), Status>) -> (r: StartStep)
        requires
            i < self@.backends.len(),
        ensures
            r@ == match outcome {
                Ok(_) => start_step(self@.backends, i + 1),
                Err(status) => StartStepView::Fail(status@),
            },
    {
        let n: usize = self.backends.len();
        assert(i < n);
        match outcome {
            Ok(()) => self.next_start(i + 1),
            Err(status) => StartStep::Fail(status),
        }
    }

    /// The names of the backends whose responses are waited for.
    fn awaited_names(&self) -> (r: Vec<String>)
        ensures
            texts(r@) == awaited(self@.backends),
    {
        let ghost views = self@.backends;
        let mut r: Vec<String> = Vec::new();
        let mut i: usize = 0;
        assert(texts(r@) =~= awaited(views.take(0)));
        while i < self.backends.len()
            invariant
                i <= self.backends@.len(),
                views == backend_views(self.backends@),
                texts(r@) == awaited(views.take(i as int)),
            decreases self.backends@.len() - i,
        {
            assert(views[i as int] == self.backends@[i as int]@);
            assert(views.take(i + 1).drop_last() =~= views.take(i as int));
            if !self.backends[i].asynchronous {
                let ghost before = r@;
                r.push(self.backends[i].name.clone());
                assert(texts(r@) =~= texts(before).push(views[i as int].name));
            }
            i = i + 1;
        }
        assert(views.take(views.len() as int) =~= views);
        r
    }

    /// What is done once the first `done` backends have taken a lifecycle event.
    pub fn next_lifecycle(&self, done: usize) -> (r: LifecycleStep)
        ensures
            r@ == lifecycle_step(self@.backends, done as int),
    {
        if done < self.backends.len() {
            LifecycleStep::Send(done)
        } else {
            LifecycleStep::Acknowledge
        }
    }

    /// What is done once the backend at position `i` has replied to a lifecycle event: the first
    /// failure is what the build tool is answered, and no further backend is sent the event.
    pub fn on_lifecycle_reply(&self, i: usize, reply: &LifecycleReply) -> (r: LifecycleStep)
        requires
            i < self@.backends.len(),
        ensures
            r@ == lifecycle_reply_step(self@.backends, i as int, reply@),
    {
        let n: usize = self.backends.len();
        assert(i < n);
        match reply {
            LifecycleReply::Accepted => self.next_lifecycle(i + 1),
            LifecycleReply::Refused(status) => {
                assert(self@.backends[i as int] == self.backends@[i as int]@);
                LifecycleStep::Fail(
                    tell_backend_failure(
                        self.backends[i].name.as_str(),
                        " failed lifecycle request: ",
                        status,
                    ),
                )
            },
            LifecycleReply::NotSent(status) => LifecycleStep::Fail(status.clone()),
        }
    }
}

/// What the build tool is answered to a lifecycle event, and how many backends are sent it, if
/// the backends reply like this.
pub open spec fn lifecycle_answer(
    backends: Seq<BackendView>,
    replies: Seq<LifecycleReplyView>,
    done: int,
) -> (int, LifecycleStepView)
    decreases backends.len() - done,
{
    match lifecycle_step(backends, done) {
        LifecycleStepView::Send(i) => match lifecycle_reply_step(backends, i, replies[i]) {
            LifecycleStepView::Send(next) => if next == done + 1 {
                lifecycle_answer(backends, replies, next)
            } else {
                (i, LifecycleStepView::Send(next))
            },
            answer => (i + 1, answer),
        },
        answer => (done, answer),
    }
}

/// A lifecycle event is acknowledged exactly if every backend accepts it.
pub proof fn law_lifecycle_acknowledged_by_all(
    backends: Seq<BackendView>,
    replies: Seq<LifecycleReplyView>,
)
    requires
        replies.len() == backends.len(),
    ensures
        lifecycle_answer(backends, replies, 0).1 is Acknowledge <==> forall|i: int|
            0 <= i < replies.len() ==> (#[trigger] replies[i]) is Accepted,
{
    lemma_lifecycle_answer(backends, replies, 0);
}

proof fn lemma_lifecycle_answer(
    backends: Seq<BackendView>,
    replies: Seq<LifecycleReplyView>,
    done: int,
)
    requires
        replies.len() == backends.len(),
        0 <= done <= backends.len(),
    ensures
        lifecycle_answer(backends, replies, done).1 is Acknowledge <==> forall|i: int|
            done <= i < replies.len() ==> (#[trigger] replies[i]) is Accepted,
    decreases backends.len() - done,
{
    if done < backends.len() {
        lemma_lifecycle_answer(backends, replies, done + 1);
        if replies[done] is Accepted && done + 1 == backends.len() {
            assert(lifecycle_answer(backends, replies, done).1 is Acknowledge);
        }
    }
}

/// If a backend does not accept a lifecycle event, the first one that does not decides the
/// answer: its own failure, told under its name, or the failure to send it the event. Backends
/// after it are not sent the event.
pub proof fn law_lifecycle_first_failure(
    backends: Seq<BackendView>,
    replies: Seq<LifecycleReplyView>,
    i: int,
)
    requires
        replies.len() == backends.len(),
        0 <= i < replies.len(),
        forall|j: int| 0 <= j < i ==> (#[trigger] replies[j]) is Accepted,
        !(replies[i] is Accepted),
    ensures
        lifecycle_answer(backends, replies, 0) == (
            i + 1,
            match replies[i] {
                LifecycleReplyView::Refused(status) => LifecycleStepView::Fail(
                    backend_failure(backends[i].name, " failed lifecycle request: "@, status),
                ),
                LifecycleReplyView::NotSent(status) => LifecycleStepView::Fail(status),
                LifecycleReplyView::Accepted => LifecycleStepView::Acknowledge,
            },
        ),
{
    lemma_lifecycle_failure(backends, replies, 0, i);
}

proof fn lemma_lifecycle_failure(
    backends: Seq<BackendView>,
    replies: Seq<LifecycleReplyView>,
    done: int,
    i: int,
)
    requires
        replies.len() == backends.len(),
        0 <= done <= i < replies.len(),
        forall|j: int| done <= j < i ==> (#[trigger] replies[j]) is Accepted,
        !(replies[i] is Accepted),
    ensures
        lifecycle_answer(backends, replies, done) == (
            i + 1,
            lifecycle_reply_step(backends, i, replies[i]),
        ),
    decreases i - done,
{
    if done < i {
        lemma_lifecycle_failure(backends, replies, done + 1, i);
    }
}

/// Asynchronous backends are never waited for: the response stream waits for the others alone,
/// each by its name.
pub proof fn law_asynchronous_backends_are_not_awaited(
    backends: Seq<BackendView>,
    name: Seq<char>,
)
    ensures
        awaited(backends).contains(name) <==> exists|i: int|
            0 <= i < backends.len() && !(#[trigger] backends[i]).asynchronous && backends[i].name
                == name,
    decreases backends.len(),
{
    if backends.len() > 0 {
        let rest = backends.drop_last();
        let last = backends.last();
        law_asynchronous_backends_are_not_awaited(rest, name);
        if awaited(rest).contains(name) {
            let i = choose|i: int|
                0 <= i < rest.len() && !(#[trigger] rest[i]).asynchronous && rest[i].name == name;
            assert(backends[i] == rest[i]);
            let k = choose|k: int| 0 <= k < awaited(rest).len() && awaited(rest)[k] == name;
            assert(awaited(backends)[k] == name);
        }
        if !last.asynchronous && last.name == name {
            assert(awaited(backends).last() == name);
            assert(backends[backends.len() - 1] == last);
        }
        if exists|i: int|
            0 <= i < backends.len() && !(#[trigger] backends[i]).asynchronous && backends[i].name
                == name {
            let i = choose|i: int|
                0 <= i < backends.len() && !(#[trigger] backends[i]).asynchronous
                    && backends[i].name == name;
            if i < rest.len() {
                assert(rest[i] == backends[i]);
            }
        }
        if awaited(backends).contains(name) && !awaited(rest).contains(name) {
            let k = choose|k: int| 0 <= k < awaited(backends).len() && awaited(backends)[k] == name;
            assert(k == awaited(backends).len() - 1 || awaited(rest)[k] == name);
        }
    }
}

/// Of a service its backends and the certificates that it trusts are seen, in order, and what is
/// asked of it is what it holds.
pub proof fn law_service_is_seen(
    service: &BesForwardingService,
    backends: &Vec<BesBackend>,
    certificates: &Vec<FilePath>,
)
    requires
        call_ensures(BesForwardingService::backends, (service,), backends),
        call_ensures(BesForwardingService::tls_certificates, (service,), certificates),
    ensures
        backend_views(backends@) == service@.backends,
        paths(certificates@) == service@.tls_certificates,
        forall|i: int|
            0 <= i < service@.backends.len() ==> (#[trigger] service@.backends[i]).client is Some,
{
}

} // verus!
