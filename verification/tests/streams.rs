use nbes::event::{
    OrderedBuildEvent, PublishBuildToolEventStreamRequest, PublishBuildToolEventStreamResponse,
    StreamId,
};
use nbes::forwarding::request_stream::{
    fanned_out, BuildToolRequestStreamState, Delivery, RequestStep, RequestStream,
};
use nbes::forwarding::response_stream::{
    validate_build_event_ack_response, BackendReply, BuildToolResponseStreamState, ResponseStep,
};
use nbes::forwarding::service::{LifecycleReply, LifecycleStep, StartStep};
use nbes::forwarding::upload::{AsyncUpload, UploadEnd};
use nbes::forwarding::{BesBackend, BesForwardingService, TlsOutcome};
use nbes::status::{Code, Status};

fn stream_id(invocation: &str) -> StreamId {
    StreamId { build_id: "b".to_string(), invocation_id: invocation.to_string(), component: 3 }
}

fn event(id: &StreamId, seq: i64) -> PublishBuildToolEventStreamRequest {
    PublishBuildToolEventStreamRequest {
        ordered_build_event: Some(OrderedBuildEvent {
            stream_id: Some(id.clone()),
            sequence_number: seq,
        }),
    }
}

fn ack(id: &StreamId, seq: i64) -> BackendReply {
    BackendReply::Message(PublishBuildToolEventStreamResponse {
        stream_id: Some(id.clone()),
        sequence_number: seq,
    })
}

/// The statuses that are reported for requests that all reach the backends.
fn reported(
    requests: &Vec<PublishBuildToolEventStreamRequest>,
) -> Vec<BuildToolRequestStreamState> {
    let mut stream = RequestStream::new();
    let mut statuses = vec![];
    for request in requests {
        match stream.process_request(request) {
            RequestStep::Forward(status) => statuses.push(status),
            RequestStep::Halt(status) => {
                statuses.push(status);
                break;
            }
        }
    }
    statuses
}

/// What the build tool is sent: the numbers of acknowledged events, and the end.
#[derive(Debug)]
struct Sent {
    acks: Vec<i64>,
    end: Option<Status>,
    controlled: bool,
}

/// Runs a response stream. At first nothing but the status at `first` is seen; the last one is
/// seen next. `reply` gives the reply of each backend to each event.
fn run(
    backends: &[&str],
    requests: &Vec<PublishBuildToolEventStreamRequest>,
    first: usize,
    reply: impl Fn(&str, i64) -> BackendReply,
) -> Sent {
    let statuses = reported(requests);
    let names = backends.iter().map(|name| name.to_string()).collect();
    let mut state = BuildToolResponseStreamState::new(names);
    assert_eq!("unknown", state.iid());
    let mut looks = 0;
    let mut acks = vec![];
    loop {
        match state.poll_next() {
            ResponseStep::AwaitRequestStatus => {
                if looks == 0 && first + 1 < statuses.len() {
                    state.on_request_status(false, &statuses[first]);
                } else {
                    state.on_request_status(true, &statuses[statuses.len() - 1]);
                }
                looks += 1;
            }
            ResponseStep::AwaitBackends => {
                assert!(state.is_open());
                let replies = backends.iter().map(|name| reply(name, state.next_seq())).collect();
                match state.on_backend_replies(&replies) {
                    ResponseStep::Respond(response) => acks.push(response.sequence_number),
                    ResponseStep::Fail(status) => {
                        return Sent {
                            acks,
                            end: Some(status),
                            controlled: state.controlled_exit(),
                        }
                    }
                    ResponseStep::End => {
                        return Sent { acks, end: None, controlled: state.controlled_exit() }
                    }
                    _ => unreachable!(),
                }
            }
            ResponseStep::Fail(status) => {
                return Sent { acks, end: Some(status), controlled: state.controlled_exit() }
            }
            ResponseStep::End => {
                return Sent { acks, end: None, controlled: state.controlled_exit() }
            }
            ResponseStep::Respond(_) => unreachable!(),
        }
    }
}

fn connected_backend(name: &str, asynchronous: bool) -> BesBackend {
    let mut backend = BesBackend::builder(&format!("unix:/tmp/{name}")).unwrap().name(name).build();
    backend.set_async(asynchronous);
    backend
}

fn service(backends: Vec<BesBackend>) -> BesForwardingService {
    let mut service = BesForwardingService::new();
    for backend in backends {
        service.add_backend(backend, &TlsOutcome::Prepared).unwrap();
    }
    service
}

#[test]
fn test_stream_responds_in_sequence() {
    let id = stream_id("i");
    let requests = (1..=5).map(|seq| event(&id, seq)).collect();
    for first in 0..5 {
        let sent = run(&["b1"], &requests, first, |_, seq| ack(&id, seq));
        assert_eq!(vec![1, 2, 3, 4, 5], sent.acks);
        assert!(sent.end.is_none());
        assert!(sent.controlled);
    }
}

#[test]
fn test_blackhole_acks_stream_events() {
    let id = stream_id("i");
    let requests = (1..=5).map(|seq| event(&id, seq)).collect();
    let sent = run(&[], &requests, 0, |_, _| unreachable!());
    assert_eq!(vec![1, 2, 3, 4, 5], sent.acks);
    assert!(sent.end.is_none());
}

#[test]
fn test_request_stream_starts_with_larger_sequence_number() {
    let id = stream_id("i");
    let requests = vec![event(&id, 20), event(&id, 21)];
    let sent = run(&["b1"], &requests, 0, |_, seq| ack(&id, seq));
    assert_eq!(vec![20, 21], sent.acks);
    assert!(sent.end.is_none());
}

#[test]
fn test_stream_client_sends_inconsistent_stream_id() {
    let id = stream_id("i");
    let other = stream_id("j");
    let requests = vec![event(&id, 1), event(&other, 2)];
    let sent = run(&[], &requests, 0, |_, _| unreachable!());
    assert_eq!(vec![1], sent.acks);
    let status = sent.end.unwrap();
    assert_eq!(Code::Internal, status.code);
    assert_eq!("received inconsistent stream id from client", status.message);
}

#[test]
fn test_stream_backend_responds_with_wrong_stream_id() {
    let id = stream_id("i");
    let wrong = stream_id("j");
    let sent = run(&["b1"], &vec![event(&id, 1)], 0, |_, seq| ack(&wrong, seq));
    assert!(sent.acks.is_empty());
    let status = sent.end.unwrap();
    assert_eq!(Code::Internal, status.code);
    assert_eq!("bes backend b1 responded with unexpected stream id", status.message);
    assert!(sent.controlled);
}

#[test]
fn test_stream_request_fails_when_one_backend_fails() {
    let id = stream_id("i");
    let requests = vec![event(&id, 1), event(&id, 2)];
    let sent = run(&["b1", "b2"], &requests, 0, |name, seq| {
        if name == "b2" && seq == 2 {
            BackendReply::Failed(Status::internal("oops".to_string()))
        } else {
            ack(&id, seq)
        }
    });
    assert_eq!(vec![1], sent.acks);
    let status = sent.end.unwrap();
    assert_eq!(Code::Internal, status.code);
    assert_eq!("b2 failed event stream request: oops", status.message);
}

#[test]
fn a_failure_keeps_its_code_details_and_metadata() {
    let id = stream_id("i");
    let mut failure = Status::new(Code::Unavailable, "gone".to_string());
    failure.details = vec![1, 2, 3];
    failure.metadata.insert("foo", "bar".parse().unwrap());
    let sent = run(&["b1"], &vec![event(&id, 1)], 0, |_, _| {
        BackendReply::Failed(failure.clone())
    });
    let status = sent.end.unwrap();
    assert_eq!(Code::Unavailable, status.code);
    assert_eq!("b1 failed event stream request: gone", status.message);
    assert_eq!(vec![1, 2, 3], status.details);
    assert_eq!("bar", status.metadata.get("foo").unwrap());
}

#[test]
fn a_gap_in_the_sequence_is_refused() {
    let id = stream_id("i");
    let requests = vec![event(&id, 7), event(&id, 8), event(&id, 10), event(&id, 11)];
    for first in 0..3 {
        let sent = run(&["b1"], &requests, first, |_, seq| ack(&id, seq));
        assert_eq!(vec![7, 8], sent.acks);
        let status = sent.end.unwrap();
        assert_eq!(Code::InvalidArgument, status.code);
        assert_eq!("expected seq 9 but received 10", status.message);
    }
}

#[test]
fn negative_numbers_are_sequence_numbers_too() {
    let id = stream_id("i");
    let requests = vec![event(&id, -2), event(&id, -1), event(&id, i64::MIN)];
    let sent = run(&["b1"], &requests, 1, |_, seq| ack(&id, seq));
    assert_eq!(vec![-2, -1], sent.acks);
    assert_eq!(
        "expected seq 0 but received -9223372036854775808",
        sent.end.unwrap().message
    );
}

#[test]
fn a_first_request_without_fields_is_answered() {
    let requests = vec![PublishBuildToolEventStreamRequest { ordered_build_event: None }];
    let sent = run(&["b1"], &requests, 0, |_, _| unreachable!());
    assert!(sent.acks.is_empty());
    let status = sent.end.unwrap();
    assert_eq!(Code::Internal, status.code);
    assert_eq!("ordered_build_event field(s) are missing", status.message);
}

#[test]
fn a_later_request_without_fields_is_answered() {
    let id = stream_id("i");
    let requests = vec![
        event(&id, 1),
        event(&id, 2),
        PublishBuildToolEventStreamRequest {
            ordered_build_event: Some(OrderedBuildEvent { stream_id: None, sequence_number: 3 }),
        },
    ];
    let sent = run(&["b1"], &requests, 0, |_, seq| ack(&id, seq));
    assert_eq!(vec![1], sent.acks);
    assert_eq!("ordered_build_event field(s) are missing", sent.end.unwrap().message);
    // Had every request before it been acknowledged already, that would stay so.
    let sent = run(&["b1"], &requests, 1, |_, seq| ack(&id, seq));
    assert_eq!(vec![1, 2], sent.acks);
    assert_eq!("ordered_build_event field(s) are missing", sent.end.unwrap().message);
}

#[test]
fn each_way_a_backend_can_end_the_stream() {
    let id = stream_id("i");
    let requests = vec![event(&id, 1)];
    let sent = run(&["b1"], &requests, 0, |_, seq| ack(&id, seq + 1));
    assert_eq!("bes backend b1 responded with unexpected sequence", sent.end.unwrap().message);
    let sent = run(&["b1"], &requests, 0, |_, seq| {
        BackendReply::Message(PublishBuildToolEventStreamResponse {
            stream_id: None,
            sequence_number: seq,
        })
    });
    assert_eq!("response from bes backend b1 is missing stream_id", sent.end.unwrap().message);
    let sent = run(&["b1"], &requests, 0, |_, _| BackendReply::Ended);
    assert!(sent.acks.is_empty());
    assert!(sent.end.is_none());
    assert!(sent.controlled);
}

#[test]
fn the_first_backend_that_does_not_acknowledge_decides() {
    let id = stream_id("i");
    let sent = run(&["b1", "b2", "b3"], &vec![event(&id, 1)], 0, |name, seq| match name {
        "b1" => ack(&id, seq),
        "b2" => ack(&id, 9),
        _ => BackendReply::Ended,
    });
    assert_eq!("bes backend b2 responded with unexpected sequence", sent.end.unwrap().message);
}

#[test]
fn acknowledgements_are_checked() {
    let id = stream_id("i");
    assert!(validate_build_event_ack_response("b", &id, 4, &id, 4).is_ok());
    let mut other = stream_id("i");
    other.component = 4;
    let status = validate_build_event_ack_response("b", &id, 4, &other, 5).unwrap_err();
    assert_eq!("bes backend b responded with unexpected stream id", status.message);
}

#[test]
fn statuses_tell_the_progress_of_the_stream() {
    let id = stream_id("i");
    let statuses = reported(&vec![event(&id, 3), event(&id, 4)]);
    assert_eq!(2, statuses.len());
    for (k, status) in statuses.iter().enumerate() {
        assert_eq!(Some(id.clone()), status.stream_id);
        assert_eq!(Some(3), status.starting_sequence);
        assert_eq!(3 + k as i64, status.latest_sequence);
        assert!(status.error.is_none());
    }
    let initial = BuildToolRequestStreamState::initial();
    assert!(initial.stream_id.is_none());
    assert_eq!(0, initial.latest_sequence);
}

#[test]
fn the_invocation_is_known_once_the_stream_is() {
    let id = stream_id("invocation");
    let mut state = BuildToolResponseStreamState::new(vec![]);
    assert!(!state.is_open());
    state.on_request_status(false, &reported(&vec![event(&id, 1)])[0]);
    assert_eq!("invocation", state.iid());
    assert!(!state.controlled_exit());
    state.mark_controlled_exit();
    assert!(state.controlled_exit());
}

#[test]
fn a_closed_asynchronous_backend_does_not_stop_requests() {
    let open = Delivery { asynchronous: false, delivered: true };
    let closed = Delivery { asynchronous: false, delivered: false };
    let closed_async = Delivery { asynchronous: true, delivered: false };
    assert!(fanned_out(&vec![]));
    assert!(fanned_out(&vec![open, closed_async]));
    assert!(!fanned_out(&vec![open, closed, open]));
}

#[test]
fn test_async_backend_does_not_block_on_responses() {
    let service = service(vec![connected_backend("b1", false), connected_backend("b2", true)]);
    assert!(matches!(service.next_start(0), StartStep::Open(0)));
    assert!(matches!(service.on_started(0, Ok(())), StartStep::Detach(1)));
    let StartStep::Respond(mut state) = service.on_started(1, Ok(())) else {
        panic!("expected a response stream");
    };
    let id = stream_id("i");
    let events = vec![
        event(&id, 1),
        event(&id, 2),
        event(&id, 3),
        event(&id, 4),
        event(&id, 5),
    ];
    let statuses = reported(&events);
    assert_eq!(5, statuses.len());

    // Of b2 only the first reply comes, and nothing but its upload looks at it.
    let mut upload = AsyncUpload::new();
    assert!(upload.on_reply(&ack(&id, 1)).is_none());

    // The replies of b1 are enough for all five responses.
    for (i, status) in statuses.iter().enumerate() {
        let seq = i as i64 + 1;
        assert!(matches!(state.poll_next(), ResponseStep::AwaitRequestStatus));
        state.on_request_status(seq == 5, status);
        assert!(matches!(state.poll_next(), ResponseStep::AwaitBackends));
        let ResponseStep::Respond(response) = state.on_backend_replies(&vec![ack(&id, seq)]) else {
            panic!("expected a response");
        };
        assert_eq!(seq, response.sequence_number);
        assert_eq!(Some(&id), response.stream_id.as_ref());
    }
    assert!(matches!(state.poll_next(), ResponseStep::End));
}

#[test]
fn a_stream_that_cannot_be_started_is_answered_with_the_failure() {
    let service = service(vec![connected_backend("b1", false), connected_backend("b2", false)]);
    let StartStep::Fail(status) = service.on_started(0, Err(Status::internal("no".to_string())))
    else {
        panic!("expected a failure");
    };
    assert_eq!("no", status.message);
}

#[test]
fn test_acks_lifecycle_events() {
    let service = service(vec![connected_backend("b1", false)]);
    assert!(matches!(service.next_lifecycle(0), LifecycleStep::Send(0)));
    let step = service.on_lifecycle_reply(0, &LifecycleReply::Accepted);
    assert!(matches!(step, LifecycleStep::Acknowledge));
}

#[test]
fn blackhole_test_blackhole_acks_lifecycle_events() {
    let service = BesForwardingService::new();
    assert!(matches!(service.next_lifecycle(0), LifecycleStep::Acknowledge));
}

#[test]
fn test_lifecycle_fails_when_one_backend_fails() {
    let service = service(vec![connected_backend("b1", false), connected_backend("b2", false)]);
    let step = service.on_lifecycle_reply(0, &LifecycleReply::Accepted);
    assert!(matches!(step, LifecycleStep::Send(1)));
    let refused = LifecycleReply::Refused(Status::internal("oops".to_string()));
    let LifecycleStep::Fail(status) = service.on_lifecycle_reply(1, &refused) else {
        panic!("expected a failure");
    };
    assert_eq!(Code::Internal, status.code);
    assert_eq!("b2 failed lifecycle request: oops", status.message);
}

#[test]
fn a_lifecycle_event_that_cannot_be_sent_is_answered_with_the_failure() {
    let service = service(vec![connected_backend("b1", false)]);
    let not_sent = LifecycleReply::NotSent(Status::internal("no header".to_string()));
    let LifecycleStep::Fail(status) = service.on_lifecycle_reply(0, &not_sent) else {
        panic!("expected a failure");
    };
    assert_eq!("no header", status.message);
}

#[test]
fn backends_are_kept_in_order_and_connected() {
    let mut service = service(vec![connected_backend("b1", false), connected_backend("b2", true)]);
    assert_eq!(2, service.backends().len());
    assert_eq!("b2", service.backends()[1].name);
    assert!(service.backends()[0].client().is_some());
    service.add_tls_trusted_cert(nbes::path::FilePath::new("/ca"));
    let secure = BesBackend::builder("grpcs://foo.bar").unwrap().build();
    service.add_backend(secure, &TlsOutcome::Prepared).unwrap();
    let tls = service.backends()[2].client().unwrap().tls.as_ref().unwrap();
    assert_eq!("/ca", tls.trusted[0].to_string_lossy());
    assert_eq!(1, service.tls_certificates().len());

    let bad = BesBackend::builder("unix://foo/bar").unwrap().build();
    assert!(service.add_backend(bad, &TlsOutcome::Prepared).is_err());
    assert_eq!(3, service.backends().len());
}

#[test]
fn asynchronous_uploads_come_to_an_end() {
    let id = stream_id("i");
    let mut upload = AsyncUpload::new();
    assert!(upload.on_reply(&ack(&id, 1)).is_none());
    let end = upload.on_reply(&BackendReply::Ended).unwrap();
    assert!(matches!(end, UploadEnd::Uploaded(_)));
    assert_eq!(
        "[invocation_id=i] asynchronously uploaded build tool event stream to backend b1",
        end.message("b1")
    );
    let failed = BackendReply::Failed(Status::internal("oops".to_string()));
    assert_eq!(
        "[invocation_id=i] failed to upload asynchronous event stream to backend b1: oops",
        upload.on_reply(&failed).unwrap().message("b1")
    );

    let mut upload = AsyncUpload::new();
    assert_eq!(
        "asynchronous build tool event stream unexpectedly closed by backend b1",
        upload.on_reply(&BackendReply::Ended).unwrap().message("b1")
    );
    assert_eq!(
        "asynchronous build tool event stream failed on first response from backend b1",
        upload.on_reply(&failed).unwrap().message("b1")
    );
    let unidentified = BackendReply::Message(PublishBuildToolEventStreamResponse {
        stream_id: None,
        sequence_number: 1,
    });
    let end = upload.on_reply(&unidentified).unwrap();
    assert!(matches!(end, UploadEnd::Unidentified));
    assert_eq!("", end.message("b1"));
}
