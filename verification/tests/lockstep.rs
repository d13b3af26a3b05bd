use nbes::backend::{Backend, BesBackend};
use nbes::endpoint::EndpointUrl;
use nbes::event::{
    OrderedBuildEvent, PublishBuildToolEventStreamRequest, PublishBuildToolEventStreamResponse,
    StreamId,
};
use nbes::forwarding::response_stream::BackendReply;
use nbes::forwarding::service::LifecycleStep;
use nbes::forwarding::ConnectError;
use nbes::nbes::{on_replies, on_request, LockstepStep, NBesService};
use nbes::status::{Code, Status};

fn backend(name: &str, url: &str) -> BesBackend {
    BesBackend { name: name.to_string(), endpoint: EndpointUrl::parse(url).unwrap() }
}

fn stream_id(invocation: &str) -> StreamId {
    StreamId { build_id: "b".to_string(), invocation_id: invocation.to_string(), component: 3 }
}

fn event(id: &StreamId, seq: i64) -> PublishBuildToolEventStreamRequest {
    PublishBuildToolEventStreamRequest {
        ordered_build_event: Some(OrderedBuildEvent {
            stream_id: Some(id.clone()),
            sequence_number: seq,
        }),
    }
}

fn ack(id: &StreamId, seq: i64) -> BackendReply {
    BackendReply::Message(PublishBuildToolEventStreamResponse {
        stream_id: Some(id.clone()),
        sequence_number: seq,
    })
}

fn names(names: &[&str]) -> Vec<String> {
    names.iter().map(|n| n.to_string()).collect()
}

#[test]
fn receives_lifecycle_events() {
    let service = NBesService::<BesBackend>::new();

    assert!(matches!(service.next_lifecycle(0), LifecycleStep::Acknowledge));
}

#[test]
fn lifecycle_events_go_to_every_backend() {
    let mut service = NBesService::new();
    service.add_backend(backend("a", "http://a")).unwrap();
    service.add_backend(backend("b", "http://b")).unwrap();

    assert!(matches!(service.next_lifecycle(0), LifecycleStep::Send(0)));
    assert!(matches!(service.on_lifecycle_reply(0, Ok(())), LifecycleStep::Send(1)));
    assert!(matches!(service.on_lifecycle_reply(1, Ok(())), LifecycleStep::Acknowledge));
    let LifecycleStep::Fail(status) =
        service.on_lifecycle_reply(0, Err(Status::internal("oops".to_string())))
    else {
        panic!("expected a failure");
    };
    assert_eq!("oops", status.message);
}

#[test]
fn a_backend_of_the_same_name_is_replaced() {
    let mut service = NBesService::new();
    service.add_backend(backend("a", "http://a1")).unwrap();
    service.add_backend(backend("b", "http://b")).unwrap();
    service.add_backend(backend("a", "http://a2")).unwrap();

    let clients = service.clients();
    assert_eq!(2, clients.len());
    let a = clients.iter().find(|c| c.name == "a").unwrap();
    assert_eq!("http://a2/", a.client.uri);
}

#[test]
fn a_backend_without_a_channel_is_not_added() {
    let bad = backend("a", "data:a b");
    assert_eq!("a", bad.name());
    assert_eq!("data", bad.endpoint().scheme());
    let mut service = NBesService::new();
    let error = service.add_backend(bad).unwrap_err();
    assert!(matches!(error, ConnectError::NoEndpoint(_)));
    assert!(service.clients().is_empty());
}

#[test]
fn requests_are_forwarded_refused_or_at_an_end() {
    let id = stream_id("i");
    assert!(matches!(on_request(&None), LockstepStep::End));
    assert!(matches!(on_request(&Some(event(&id, 1))), LockstepStep::Forward));
    let missing = PublishBuildToolEventStreamRequest { ordered_build_event: None };
    let LockstepStep::Fail(status) = on_request(&Some(missing)) else {
        panic!("expected a failure");
    };
    assert_eq!(Code::InvalidArgument, status.code);
    assert_eq!("ordered_build_event field(s) are missing", status.message);
}

#[test]
fn an_event_is_acknowledged_once_every_backend_does() {
    let id = stream_id("i");
    let step = on_replies(&names(&["a", "b"]), &event(&id, 4), &vec![ack(&id, 4), ack(&id, 4)]);
    let LockstepStep::Respond(response) = step else {
        panic!("expected a response");
    };
    assert_eq!(4, response.sequence_number);
    assert_eq!(Some(id.clone()), response.stream_id);
    assert!(matches!(
        on_replies(&vec![], &event(&id, 4), &vec![]),
        LockstepStep::Respond(_)
    ));
}

#[test]
fn the_first_backend_that_does_not_acknowledge_ends_the_stream() {
    let id = stream_id("i");
    let other = stream_id("j");
    let fails = |replies: Vec<BackendReply>| {
        let LockstepStep::Fail(status) =
            on_replies(&names(&["a", "b"]), &event(&id, 4), &replies)
        else {
            panic!("expected a failure");
        };
        assert_eq!(Code::Internal, status.code);
        status.message
    };
    assert_eq!(
        "bes backend b responded with unexpected stream/sequence",
        fails(vec![ack(&id, 4), ack(&other, 4)])
    );
    assert_eq!(
        "bes backend a responded with unexpected stream/sequence",
        fails(vec![ack(&id, 5), BackendReply::Ended])
    );
    let unidentified = BackendReply::Message(PublishBuildToolEventStreamResponse {
        stream_id: None,
        sequence_number: 4,
    });
    assert_eq!(
        "response from bes backend b is missing stream_id",
        fails(vec![ack(&id, 4), unidentified])
    );
    let step = on_replies(
        &names(&["a", "b"]),
        &event(&id, 4),
        &vec![BackendReply::Ended, ack(&other, 4)],
    );
    assert!(matches!(step, LockstepStep::End));
}
