//! What the steps of the lockstep service are for, said of the calls themselves.
use vstd::prelude::*;

use crate::backend::{Backend, BesBackend, LazyChannel};
use crate::event::{EventView, PublishBuildToolEventStreamRequest, ResponseView};
use crate::forwarding::response_stream::{ack, replies_view, BackendReply, ReplyView};
use crate::forwarding::service::{LifecycleStep, LifecycleStepView};
use crate::forwarding::{channel_result, ConnectError, ConnectErrorView};
use crate::nbes::{
    client_names_unique, client_position, client_views, law_client_names_stay_unique,
    law_lockstep_acknowledged_by_all, lockstep_replies, lockstep_reply, on_replies, on_request,
    with_client, LockstepStep, LockstepStepView, NBesService, NamedClient,
};
use crate::status::{Code, Status};
use crate::text::texts;

verus! {

/// A request that has its fields is forwarded, one that lacks them is answered with a failure, and
/// where no request comes the stream ends.
pub proof fn law_lockstep_requests(
    request: &Option<PublishBuildToolEventStreamRequest>,
    r: LockstepStep,
)
    requires
        call_ensures(on_request, (request,), r),
    ensures
        r is End <==> request is None,
        r is Forward <==> (request matches Some(request) && request@ is Some),
        r is Fail <==> (request matches Some(request) && request@ is None),
        r matches LockstepStep::Fail(status) ==> status@.code == Code::InvalidArgument
            && status@.message == "ordered_build_event field(s) are missing"@
            && status@.details.len() == 0,
        !(r is Respond),
{
}

/// An event is acknowledged exactly if every backend acknowledged it, and the acknowledgement
/// names its stream and its number.
pub proof fn law_lockstep_acknowledges_together(
    backends: &Vec<String>,
    request: &PublishBuildToolEventStreamRequest,
    event: EventView,
    replies: &Vec<BackendReply>,
    r: LockstepStep,
)
    requires
        request@ == Some(event),
        call_ensures(on_replies, (backends, request, replies), r),
    ensures
        r is Respond <==> forall|i: int|
            0 <= i < replies@.len() ==> (#[trigger] replies@[i])@ == ReplyView::Message(
                ResponseView {
                    stream_id: Some(event.stream_id),
                    sequence_number: event.sequence_number,
                },
            ),
        r matches LockstepStep::Respond(response) ==> response@.stream_id == Some(event.stream_id)
            && response@.sequence_number == event.sequence_number,
{
    let views = replies_view(replies@);
    law_lockstep_acknowledged_by_all(texts(backends@), event, views);
    assert forall|i: int| 0 <= i < replies@.len() implies views[i] == (#[trigger] replies@[i])@ by {
    }
    if r is Respond {
        assert forall|i: int| 0 <= i < replies@.len() implies (#[trigger] replies@[i])@
            == ReplyView::Message(ack(event.stream_id, event.sequence_number)) by {
            assert(views[i] == replies@[i]@);
        }
    } else if forall|i: int|
        0 <= i < replies@.len() ==> (#[trigger] replies@[i])@ == ReplyView::Message(
            ResponseView {
                stream_id: Some(event.stream_id),
                sequence_number: event.sequence_number,
            },
        ) {
        assert forall|i: int| 0 <= i < views.len() implies #[trigger] views[i]
            == ReplyView::Message(ack(event.stream_id, event.sequence_number)) by {
            assert(views[i] == replies@[i]@);
        }
    }
}

/// The first backend that does not acknowledge an event decides: the stream ends where its own
/// did, and a response that is another one is told under its name.
pub proof fn law_lockstep_first_refusal(
    backends: &Vec<String>,
    request: &PublishBuildToolEventStreamRequest,
    event: EventView,
    replies: &Vec<BackendReply>,
    k: int,
    r: LockstepStep,
)
    requires
        request@ == Some(event),
        backends@.len() == replies@.len(),
        call_ensures(on_replies, (backends, request, replies), r),
        0 <= k < replies@.len(),
        forall|i: int|
            0 <= i < k ==> (#[trigger] replies@[i])@ == ReplyView::Message(
                ResponseView {
                    stream_id: Some(event.stream_id),
                    sequence_number: event.sequence_number,
                },
            ),
        replies@[k]@ != ReplyView::Message(
            ResponseView {
                stream_id: Some(event.stream_id),
                sequence_number: event.sequence_number,
            },
        ),
    ensures
        !(replies@[k] is Message) ==> r is End,
        replies@[k]@ matches ReplyView::Message(response) ==> {
            &&& r@ matches LockstepStepView::Fail(status)
            &&& status.code == Code::Internal
            &&& status.details.len() == 0
            &&& status.message == match response.stream_id {
                None => "response from bes backend "@ + backends@[k]@ + " is missing stream_id"@,
                Some(_) => "bes backend "@ + backends@[k]@
                    + " responded with unexpected stream/sequence"@,
            }
        },
{
    let views = replies_view(replies@);
    let names = texts(backends@);
    assert(names[k] == backends@[k]@);
    assert forall|i: int| 0 <= i < replies@.len() implies #[trigger] views[i] == replies@[i]@ by {
    }
    assert forall|i: int| 0 <= i < k implies #[trigger] views[i] == ReplyView::Message(
        ack(event.stream_id, event.sequence_number),
    ) by {
        assert(views[i] == replies@[i]@);
    }
    lemma_first_lockstep(names, event, views, 0, k);
}

proof fn lemma_first_lockstep(
    backends: Seq<Seq<char>>,
    event: EventView,
    replies: Seq<ReplyView>,
    from: int,
    k: int,
)
    requires
        0 <= from <= k < replies.len(),
        forall|i: int|
            from <= i < k ==> #[trigger] replies[i] == ReplyView::Message(
                ack(event.stream_id, event.sequence_number),
            ),
        replies[k] != ReplyView::Message(ack(event.stream_id, event.sequence_number)),
    ensures
        Some(lockstep_replies(backends, event, replies, from)) == lockstep_reply(
            backends[k],
            event,
            replies[k],
        ),
    decreases k - from,
{
    if from < k {
        assert(replies[from] == ReplyView::Message(ack(event.stream_id, event.sequence_number)));
        lemma_first_lockstep(backends, event, replies, from + 1, k);
    } else {
        assert(lockstep_reply(backends[k], event, replies[k]) is Some);
    }
}

/// A lifecycle event goes to each backend in turn and is acknowledged after the last; the first
/// failure is what the build tool is answered, as it is.
pub proof fn law_lockstep_lifecycle<B: Backend>(
    service: &NBesService<B>,
    done: usize,
    next: LifecycleStep,
    i: usize,
    reply: Result<(), Status>,
    r: LifecycleStep,
)
    requires
        i < service@.len(),
        call_ensures(NBesService::<B>::next_lifecycle, (service, done), next),
        call_ensures(NBesService::<B>::on_lifecycle_reply, (service, i, reply), r),
    ensures
        done < service@.len() ==> next@ == LifecycleStepView::Send(done as int),
        done >= service@.len() ==> next is Acknowledge,
        reply matches Err(status) ==> r@ == LifecycleStepView::Fail(status@),
        reply is Ok && i + 1 < service@.len() ==> r@ == LifecycleStepView::Send(i + 1),
        reply is Ok && i + 1 == service@.len() ==> r is Acknowledge,
{
}

/// A client that is added is there under its name and replaces one of that name; clients of other
/// names stay.
pub proof fn law_client_is_added<B: Backend>(
    service: &mut NBesService<B>,
    name: String,
    client: B::Client,
    other: Seq<char>,
    another: B::Client,
)
    requires
        call_ensures(NBesService::<B>::add_client, (service, name, client), ()),
        client_names_unique(old(service)@),
    ensures
        final(service)@.contains((name@, client)),
        client_names_unique(final(service)@),
        other != name@ ==> (final(service)@.contains((other, another)) <==> old(
            service,
        )@.contains((other, another))),
        final(service)@.contains((name@, another)) ==> another == client,
{
    let clients = old(service)@;
    law_client_names_stay_unique(clients, name@, client);
    lemma_place(clients, name@, 0);
    let i = client_position(clients, name@, 0);
    let r = with_client(clients, name@, client);
    if other != name@ && clients.contains((other, another)) {
        let k = choose|k: int| 0 <= k < clients.len() && clients[k] == (other, another);
        assert(r[k] == (other, another));
    }
    if other != name@ && r.contains((other, another)) {
        let k = choose|k: int| 0 <= k < r.len() && r[k] == (other, another);
        assert(clients[k] == (other, another));
    }
    if r.contains((name@, another)) {
        let k = choose|k: int| 0 <= k < r.len() && r[k] == (name@, another);
        let j = choose|j: int| 0 <= j < r.len() && r[j] == (name@, client);
        assert(r[k].0 == r[j].0);
        assert(k == j);
    }
}

proof fn lemma_place<C>(clients: Seq<(Seq<char>, C)>, name: Seq<char>, from: int)
    requires
        0 <= from <= clients.len(),
    ensures
        ({
            let i = client_position(clients, name, from);
            &&& from <= i <= clients.len()
            &&& i < clients.len() ==> clients[i].0 == name
            &&& forall|j: int| from <= j < i ==> (#[trigger] clients[j]).0 != name
        }),
    decreases clients.len() - from,
{
    if from < clients.len() && clients[from].0 != name {
        lemma_place(clients, name, from + 1);
    }
}

/// Two clients are of different names exactly if no two positions hold one name.
pub proof fn law_client_names_differ<C>(clients: Seq<(Seq<char>, C)>)
    ensures
        client_names_unique(clients) <==> forall|i: int, j: int|
            0 <= i < clients.len() && 0 <= j < clients.len() && (#[trigger] clients[i]).0
                == (#[trigger] clients[j]).0 ==> i == j,
{
    if client_names_unique(clients) {
        assert forall|i: int, j: int|
            0 <= i < clients.len() && 0 <= j < clients.len() && (#[trigger] clients[i]).0
                == (#[trigger] clients[j]).0 implies i == j by {
            if i < j {
                assert(clients[i].0 != clients[j].0);
            } else if j < i {
                assert(clients[j].0 != clients[i].0);
            }
        }
    }
}

/// A backend gives its own name and endpoint, and its client goes to the URL of the endpoint if
/// that is the address of a channel.
pub proof fn law_client_is_created(
    backend: &BesBackend,
    r: Result<LazyChannel, ConnectError>,
)
    requires
        call_ensures(BesBackend::create_client, (backend,), r),
    ensures
        r is Ok <==> channel_result(backend.endpoint@.text) is Ok,
        r matches Ok(client) ==> client.uri@ == backend.endpoint@.text,
        r matches Err(error) ==> error@ == ConnectErrorView::NoEndpoint(backend.name@),
        backend.spec_name() == backend.name@,
        backend.spec_endpoint() == backend.endpoint@,
{
}

/// Of the service its clients are seen under the names of their backends, in order; at first there
/// are none.
pub proof fn law_clients_are_seen<B: Backend>(
    service: &NBesService<B>,
    clients: &Vec<NamedClient<B::Client>>,
    fresh: NBesService<B>,
    i: int,
)
    requires
        call_ensures(NBesService::<B>::clients, (service,), clients),
        call_ensures(NBesService::<B>::new, (), fresh),
    ensures
        clients@.len() == service@.len(),
        0 <= i < service@.len() ==> service@[i] == (clients@[i].name@, clients@[i].client),
        client_names_unique(service@),
        fresh@.len() == 0,
{
    let views = client_views(clients@);
    assert(views.len() == clients@.len());
    if 0 <= i < clients@.len() {
        assert(views[i] == (clients@[i].name@, clients@[i].client));
    }
}

/// A backend is added with a client that was created for it, or its failure is returned and nothing
/// changes.
pub proof fn law_backend_is_added<B: Backend>(
    service: &mut NBesService<B>,
    backend: B,
    r: Result<(), ConnectError>,
)
    requires
        call_ensures(NBesService::<B>::add_backend, (service, backend), r),
        client_names_unique(old(service)@),
    ensures
        r is Err ==> final(service)@ == old(service)@ && call_ensures(
            B::create_client,
            (&backend,),
            Err::<B::Client, ConnectError>(r->Err_0),
        ),
        r is Ok ==> exists|client: B::Client|
            #[trigger] final(service)@.contains((backend.spec_name(), client)) && call_ensures(
                B::create_client,
                (&backend,),
                Ok::<B::Client, ConnectError>(client),
            ),
{
    let created = choose|created: Result<B::Client, ConnectError>|
        #[trigger] call_ensures(B::create_client, (&backend,), created) && match created {
            Ok(client) => r is Ok && final(service)@ == with_client(
                old(service)@,
                backend.spec_name(),
                client,
            ),
            Err(error) => r == Err::<(), ConnectError>(error) && final(service)@
                == old(service)@,
        };
    if created is Ok {
        law_client_names_stay_unique(old(service)@, backend.spec_name(), created->Ok_0);
    }
}

} // verus!
