//! A service that forwards each event in lockstep: the next request is read once every backend
//! has responded to the one before.
use vstd::prelude::*;

use crate::backend::Backend;
use crate::event::{
    EventView, PublishBuildToolEventStreamRequest, PublishBuildToolEventStreamResponse,
    ResponseView,
};
use crate::forwarding::response_stream::{ack, replies_view, BackendReply, ReplyView};
use crate::forwarding::service::{LifecycleStep, LifecycleStepView};
use crate::forwarding::ConnectError;
use crate::status::{plain_status, Code, Status, StatusView};
use crate::text::texts;

pub mod laws;

verus! {

/// A client and the name of its backend.
pub struct NamedClient<C> {
    pub name: String,
    pub client: C,
}

/// A service that forwards build events to each of its backends.
pub struct NBesService<B: Backend> {
    clients: Vec<NamedClient<B::Client>>,
}

/// The clients by the names of their backends.
pub open spec fn client_views<C>(clients: Seq<NamedClient<C>>) -> Seq<(Seq<char>, C)> {
    clients.map_values(|c: NamedClient<C>| (c.name@, c.client))
}

impl<B: Backend> View for NBesService<B> {
    type V = Seq<(Seq<char>, B::Client)>;

    closed spec fn view(&self) -> Seq<(Seq<char>, B::Client)> {
        client_views(self.clients@)
    }
}

/// The position of the client of this name at or after `from`, or the number of clients.
pub open spec fn client_position<C>(
    clients: Seq<(Seq<char>, C)>,
    name: Seq<char>,
    from: int,
) -> int
    decreases clients.len() - from,
{
    if from < 0 || from >= clients.len() {
        clients.len() as int
    } else if clients[from].0 == name {
        from
    } else {
        client_position(clients, name, from + 1)
    }
}

/// The clients with one more, which replaces one of the same name.
pub open spec fn with_client<C>(clients: Seq<(Seq<char>, C)>, name: Seq<char>, client: C) -> Seq<
    (Seq<char>, C),
> {
    let i = client_position(clients, name, 0);
    if 0 <= i < clients.len() {
        clients.update(i, (name, client))
    } else {
        clients.push((name, client))
    }
}

proof fn lemma_client_position_is<C>(
    clients: Seq<(Seq<char>, C)>,
    name: Seq<char>,
    from: int,
    i: int,
)
    requires
        0 <= from <= i <= clients.len(),
        forall|j: int| from <= j < i ==> (#[trigger] clients[j]).0 != name,
        i < clients.len() ==> clients[i].0 == name,
    ensures
        client_position(clients, name, from) == i,
    decreases i - from,
{
    if from < i {
        lemma_client_position_is(clients, name, from + 1, i);
    }
}

/// No two clients have the same name.
pub open spec fn client_names_unique<C>(clients: Seq<(Seq<char>, C)>) -> bool {
    forall|i: int, j: int|
        0 <= i < j < clients.len() ==> (#[trigger] clients[i]).0 != (#[trigger] clients[j]).0
}

/// Adding a client keeps the names of clients different: there is one client for each name.
pub proof fn law_client_names_stay_unique<C>(
    clients: Seq<(Seq<char>, C)>,
    name: Seq<char>,
    client: C,
)
    requires
        client_names_unique(clients),
    ensures
        client_names_unique(with_client(clients, name, client)),
        with_client(clients, name, client).contains((name, client)),
{
    lemma_client_position(clients, name, 0);
    let i = client_position(clients, name, 0);
    let r = with_client(clients, name, client);
    if i < clients.len() {
        assert(r[i] == (name, client));
    } else {
        assert(r[clients.len() as int] == (name, client));
    }
}

proof fn lemma_client_position<C>(clients: Seq<(Seq<char>, C)>, name: Seq<char>, from: int)
    requires
        0 <= from <= clients.len(),
    ensures
        from <= client_position(clients, name, from) <= clients.len(),
        forall|j: int|
            from <= j < client_position(clients, name, from) ==> (#[trigger] clients[j]).0 != name,
        client_position(clients, name, from) < clients.len() ==> clients[client_position(
            clients,
            name,
            from,
        )].0 == name,
    decreases clients.len() - from,
{
    if from < clients.len() && clients[from].0 != name {
        lemma_client_position(clients, name, from + 1);
    }
}

impl<B: Backend> NBesService<B> {
    #[verifier::type_invariant]
    spec fn inv(self) -> bool {
        client_names_unique(client_views(self.clients@))
    }

    /// A service without backends, which swallows every event.
    pub fn new() -> (r: Self)
        ensures
            r@ == Seq::<(Seq<char>, B::Client)>::empty(),
    {
        let r = NBesService { clients: Vec::new() };
        assert(r@ =~= Seq::<(Seq<char>, B::Client)>::empty());
        r
    }

    /// Adds a backend with the client that is created for it. A backend of the same name is
    /// replaced. Where creating the client fails, that error is returned and nothing changes.
    pub fn add_backend(&mut self, backend: B) -> (r: Result<(), ConnectError>)
        ensures
            exists|created: Result<B::Client, ConnectError>|
                #[trigger] call_ensures(B::create_client, (&backend,), created) && match created {
                    Ok(client) => r is Ok && final(self)@ == with_client(
                        old(self)@,
                        backend.spec_name(),
                        client,
                    ),
                    Err(error) => r == Err::<(), ConnectError>(error) && final(self)@
                        == old(self)@,
                },
    {
        match backend.create_client() {
            Ok(client) => {
                self.add_client(backend.name().to_owned(), client);
                Ok(())
            },
            Err(error) => Err(error),
        }
    }

    /// Adds the client of the backend of this name. The one that it has is replaced.
    pub fn add_client(&mut self, name: String, client: B::Client)
        ensures
            final(self)@ == with_client(old(self)@, name@, client),
    {
        proof {
            use_type_invariant(&*self);
        }
        let ghost before = self@;
        let mut clients: Vec<NamedClient<B::Client>> = Vec::new();
        std::mem::swap(&mut clients, &mut self.clients);
        let mut i: usize = 0;
        while i < clients.len() && clients[i].name != name
            invariant
                i <= clients@.len(),
                before == client_views(clients@),
                forall|j: int| 0 <= j < i ==> (#[trigger] before[j]).0 != name@,
            decreases clients@.len() - i,
        {
            assert(before[i as int].0 == clients@[i as int].name@);
            i = i + 1;
        }
        proof {
            if i < clients@.len() {
                assert(before[i as int].0 == clients@[i as int].name@);
            }
            lemma_client_position_is(before, name@, 0, i as int);
            law_client_names_stay_unique(before, name@, client);
        }
        let ghost added = (name@, client);
        let named = NamedClient { name, client };
        if i < clients.len() {
            clients.set(i, named);
            assert(client_views(clients@) =~= before.update(i as int, added));
        } else {
            clients.push(named);
            assert(client_views(clients@) =~= before.push(added));
        }
        self.clients = clients;
    }

    /// The clients, each with the name of its backend. There is one for each name.
    pub fn clients(&self) -> (r: &Vec<NamedClient<B::Client>>)
        ensures
            client_views(r@) == self@,
            client_names_unique(self@),
    {
        proof {
            use_type_invariant(self);
        }
        &self.clients
    }
}

/// What is done next in the event stream.
#[derive(Debug)]
pub enum LockstepStep {
    /// Send the request to every backend, and wait for one reply of each.
    Forward,
    /// Send a response to the build tool.
    Respond(PublishBuildToolEventStreamResponse),
    /// Answer the build tool with a failure.
    Fail(Status),
    /// End the stream.
    End,
}

#[verifier::ext_equal]
pub enum LockstepStepView {
    Forward,
    Respond(ResponseView),
    Fail(StatusView),
    End,
}

impl View for LockstepStep {
    type V = LockstepStepView;

    open spec fn view(&self) -> LockstepStepView {
        match self {
            LockstepStep::Forward => LockstepStepView::Forward,
            LockstepStep::Respond(response) => LockstepStepView::Respond(response@),
            LockstepStep::Fail(status) => LockstepStepView::Fail(status@),
            LockstepStep::End => LockstepStepView::End,
        }
    }
}

/// What becomes of the next request, none if the build tool has closed the stream.
pub open spec fn lockstep_request(request: Option<Option<EventView>>) -> LockstepStepView {
    match request {
        None => LockstepStepView::End,
        Some(None) => LockstepStepView::Fail(
            plain_status(Code::InvalidArgument, "ordered_build_event field(s) are missing"@),
        ),
        Some(Some(_)) => LockstepStepView::Forward,
    }
}

/// How a backend's reply ends the stream; none if it acknowledges the event.
pub open spec fn lockstep_reply(backend: Seq<char>, event: EventView, reply: ReplyView) -> Option<
    LockstepStepView,
> {
    match reply {
        ReplyView::Message(response) => match response.stream_id {
            None => Some(
                LockstepStepView::Fail(
                    plain_status(
                        Code::Internal,
                        "response from bes backend "@ + backend + " is missing stream_id"@,
                    ),
                ),
            ),
            Some(id) => if id != event.stream_id || response.sequence_number
                != event.sequence_number {
                Some(
                    LockstepStepView::Fail(
                        plain_status(
                            Code::Internal,
                            "bes backend "@ + backend
                                + " responded with unexpected stream/sequence"@,
                        ),
                    ),
                )
            } else {
                None
            },
        },
        _ => Some(LockstepStepView::End),
    }
}

/// What the first backend at or after `i` that does not acknowledge the event makes of it, and
/// the acknowledgement of the event if there is none.
pub open spec fn lockstep_replies(
    backends: Seq<Seq<char>>,
    event: EventView,
    replies: Seq<ReplyView>,
    i: int,
) -> LockstepStepView
    decreases replies.len() - i,
{
    if i < 0 || i >= replies.len() {
        LockstepStepView::Respond(ack(event.stream_id, event.sequence_number))
    } else {
        match lockstep_reply(backends[i], event, replies[i]) {
            Some(step) => step,
            None => lockstep_replies(backends, event, replies, i + 1),
        }
    }
}

/// The event is acknowledged exactly if every backend acknowledges it.
pub proof fn law_lockstep_acknowledged_by_all(
    backends: Seq<Seq<char>>,
    event: EventView,
    replies: Seq<ReplyView>,
)
    ensures
        lockstep_replies(backends, event, replies, 0) is Respond <==> forall|i: int|
            0 <= i < replies.len() ==> #[trigger] replies[i] == ReplyView::Message(
                ack(event.stream_id, event.sequence_number),
            ),
        lockstep_replies(backends, event, replies, 0) is Respond ==> lockstep_replies(
            backends,
            event,
            replies,
            0,
        ) == LockstepStepView::Respond(ack(event.stream_id, event.sequence_number)),
{
    lemma_lockstep_replies(backends, event, replies, 0);
}

proof fn lemma_lockstep_replies(
    backends: Seq<Seq<char>>,
    event: EventView,
    replies: Seq<ReplyView>,
    from: int,
)
    requires
        0 <= from <= replies.len(),
    ensures
        lockstep_replies(backends, event, replies, from) is Respond <==> forall|i: int|
            from <= i < replies.len() ==> #[trigger] replies[i] == ReplyView::Message(
                ack(event.stream_id, event.sequence_number),
            ),
        lockstep_replies(backends, event, replies, from) is Respond ==> lockstep_replies(
            backends,
            event,
            replies,
            from,
        ) == LockstepStepView::Respond(ack(event.stream_id, event.sequence_number)),
    decreases replies.len() - from,
{
    if from < replies.len() {
        lemma_lockstep_replies(backends, event, replies, from + 1);
        assert(lockstep_reply(backends[from], event, replies[from]) is None <==> replies[from]
            == ReplyView::Message(ack(event.stream_id, event.sequence_number)));
    }
}

/// What becomes of the next request, none if the build tool has closed the stream.
pub fn on_request(request: &Option<PublishBuildToolEventStreamRequest>) -> (r: LockstepStep)
    ensures
        r@ == lockstep_request(
            match request {
                Some(request) => Some(request@),
                None => None,
            },
        ),
{
    match request {
        Some(request) => match &request.ordered_build_event {
            Some(event) => if event.stream_id.is_some() {
                LockstepStep::Forward
            } else {
                missing_fields()
            },
            None => missing_fields(),
        },
        None => LockstepStep::End,
    }
}

/// The answer to a request that lacks its event or the event's stream id.
fn missing_fields() -> (r: LockstepStep)
    ensures
        r@ == lockstep_request(Some(None)),
{
    LockstepStep::Fail(
        Status::invalid_argument("ordered_build_event field(s) are missing".to_owned()),
    )
}

/// What follows from the replies of the backends to a request that was sent to them.
pub fn on_replies(
    backends: &Vec<String>,
    request: &PublishBuildToolEventStreamRequest,
    replies: &Vec<BackendReply>,
) -> (r: LockstepStep)
    requires
        request@ is Some,
        backends@.len() == replies@.len(),
        forall|i: int| 0 <= i < replies@.len() ==> !((#[trigger] replies@[i]) is Failed),
    ensures
        r@ == lockstep_replies(texts(backends@), request@->0, replies_view(replies@), 0),
{
    let ghost names = texts(backends@);
    let ghost views = replies_view(replies@);
    let ghost event = request@->0;
    let (stream_id, sequence_number) = match &request.ordered_build_event {
        Some(event) => match &event.stream_id {
            Some(stream_id) => (stream_id, event.sequence_number),
            None => {
                return LockstepStep::End;
            },
        },
        None => {
            return LockstepStep::End;
        },
    };
    let mut i: usize = 0;
    while i < replies.len()
        invariant
            i <= replies@.len(),
            backends@.len() == replies@.len(),
            names == texts(backends@),
            views == replies_view(replies@),
            event == request@->0,
            event.stream_id == stream_id@,
            event.sequence_number == sequence_number,
            forall|i: int| 0 <= i < replies@.len() ==> !((#[trigger] replies@[i]) is Failed),
            lockstep_replies(names, event, views, 0) == lockstep_replies(
                names,
                event,
                views,
                i as int,
            ),
        decreases replies@.len() - i,
    {
        assert(names[i as int] == backends@[i as int]@);
        assert(views[i as int] == replies@[i as int]@);
        match &replies[i] {
            BackendReply::Message(response) => match &response.stream_id {
                Some(response_stream_id) => {
                    if *response_stream_id != *stream_id || response.sequence_number
                        != sequence_number {
                        let message = "bes backend ".to_owned().concat(
                            backends[i].as_str(),
                        ).concat(" responded with unexpected stream/sequence");
                        return LockstepStep::Fail(Status::internal(message));
                    }
                },
                None => {
                    let message = "response from bes backend ".to_owned().concat(
                        backends[i].as_str(),
                    ).concat(" is missing stream_id");
                    return LockstepStep::Fail(Status::internal(message));
                },
            },
            _ => {
                return LockstepStep::End;
            },
        }
        i = i + 1;
    }
    LockstepStep::Respond(
        PublishBuildToolEventStreamResponse {
            stream_id: Some(stream_id.clone()),
            sequence_number,
        },
    )
}

// ---------------------------------------------------------------------------
// Lifecycle events
// ---------------------------------------------------------------------------

/// What follows once the first `done` of `n` backends have taken a lifecycle event.
pub open spec fn lifecycle_step(n: int, done: int) -> LifecycleStepView {
    if done < n {
        LifecycleStepView::Send(done)
    } else {
        LifecycleStepView::Acknowledge
    }
}

/// What follows once the backend at position `i` has failed, or has taken the event.
pub open spec fn lifecycle_reply_step(n: int, i: int, failure: Option<StatusView>) ->
    LifecycleStepView {
    match failure {
        Some(status) => LifecycleStepView::Fail(status),
        None => lifecycle_step(n, i + 1),
    }
}

impl<B: Backend> NBesService<B> {
    /// What is done once the first `done` backends have taken a lifecycle event.
    pub fn next_lifecycle(&self, done: usize) -> (r: LifecycleStep)
        ensures
            r@ == lifecycle_step(self@.len() as int, done as int),
    {
        if done < self.clients.len() {
            LifecycleStep::Send(done)
        } else {
            LifecycleStep::Acknowledge
        }
    }

    /// What is done once the backend at position `i` has failed, or has taken the event. The first
    /// failure is what the build tool is answered, as it is.
    pub fn on_lifecycle_reply(&self, i: usize, reply: Result<(), Status>) -> (r: LifecycleStep)
        requires
            i < self@.len(),
        ensures
            r@ == lifecycle_reply_step(
                self@.len() as int,
                i as int,
                match reply {
                    Ok(_) => None,
                    Err(status) => Some(status@),
                },
            ),
    {
        let n: usize = self.clients.len();
        assert(i < n);
        match reply {
            Ok(()) => self.next_lifecycle(i + 1),
            Err(status) => LifecycleStep::Fail(status),
        }
    }
}

/// What the build tool is answered to a lifecycle event if the backends fail, or do not, like this.
pub open spec fn lifecycle_answer(failures: Seq<Option<StatusView>>, done: int) -> LifecycleStepView
    decreases failures.len() - done,
{
    match lifecycle_step(failures.len() as int, done) {
        LifecycleStepView::Send(i) => match lifecycle_reply_step(
            failures.len() as int,
            i,
            failures[i],
        ) {
            LifecycleStepView::Fail(status) => LifecycleStepView::Fail(status),
            _ => if done < failures.len() {
                lifecycle_answer(failures, done + 1)
            } else {
                LifecycleStepView::Acknowledge
            },
        },
        step => step,
    }
}

/// A lifecycle event is acknowledged exactly if no backend fails, and otherwise answered with the
/// failure of the first that does.
pub proof fn law_lifecycle_answer(failures: Seq<Option<StatusView>>, i: int)
    requires
        0 <= i <= failures.len(),
        forall|j: int| 0 <= j < i ==> (#[trigger] failures[j]) is None,
        i < failures.len() ==> failures[i] is Some,
    ensures
        lifecycle_answer(failures, 0) == if i < failures.len() {
            LifecycleStepView::Fail(failures[i]->0)
        } else {
            LifecycleStepView::Acknowledge
        },
{
    lemma_lifecycle_answer(failures, 0, i);
}

proof fn lemma_lifecycle_answer(failures: Seq<Option<StatusView>>, done: int, i: int)
    requires
        0 <= done <= i <= failures.len(),
        forall|j: int| done <= j < i ==> (#[trigger] failures[j]) is None,
        i < failures.len() ==> failures[i] is Some,
    ensures
        lifecycle_answer(failures, done) == if i < failures.len() {
            LifecycleStepView::Fail(failures[i]->0)
        } else {
            LifecycleStepView::Acknowledge
        },
    decreases i - done,
{
    if done < i {
        lemma_lifecycle_answer(failures, done + 1, i);
    }
}

} // verus!
