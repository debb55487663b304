use flat_playground_runner::config::{Config, Image, Profile, Resource, RootProfile};
use flat_playground_runner::endpoint::{api_address_text, connection_url, InvalidApiUrl};
use flat_playground_runner::request::Request;
use flat_playground_runner::worker::{
    find_profile, ApiMessage, ApiPhase, ClientTask, ResultMessage, WaitForResult, WorkAction,
    WorkEvent, Worker, WorkerAction, WorkerEvent, WorkerRemark, WorkerStep,
};
use std::sync::Arc;

fn config() -> Config {
    Config {
        working_directory: "/srv".to_string(),
        api_token: "secret".to_string(),
        api_url: None,
        num_workers: 1,
        concurrency_per_worker: 4,
        public_url: "wss://runner.example".to_string(),
        port: 7000,
        vm_max_inactive_secs: 60,
    }
}

fn worker() -> Worker {
    Worker::new(Arc::new(config()))
}

fn root() -> Option<Arc<RootProfile>> {
    let profile = |id: &str, name: &str| Profile {
        id: id.to_string(),
        name: name.to_string(),
        image: Image::Iso(Resource { url: "u".to_string(), sha256: "aa".to_string() }),
    };
    Some(Arc::new(RootProfile {
        profiles: vec![profile("a", "A"), profile("b", "first"), profile("b", "second")],
    }))
}

fn message(message: ApiMessage) -> WorkerEvent {
    WorkerEvent::Message { message }
}

fn result(status: i32) -> WorkerEvent {
    message(ApiMessage::Result(ResultMessage { status, message: "m".to_string() }))
}

fn task(profile: &str) -> WorkerEvent {
    message(ApiMessage::ClientTask(ClientTask {
        id: "t".to_string(),
        profile: profile.to_string(),
    }))
}

/// A worker that has connected and reported its capacity.
fn listening() -> (Worker, WorkerStep) {
    let mut worker = worker();
    let session = worker.begin_session();
    let step = worker.run_once(session, WorkerEvent::Connected, &root());
    let step = worker.run_once(step.session, WorkerEvent::Sent, &root());
    (worker, step)
}

fn sent_text(step: &WorkerStep) -> String {
    match &step.action {
        WorkerAction::Send { request } => request.text(),
        _ => panic!("nothing is sent"),
    }
}

fn error(step: WorkerStep) -> String {
    match step.action {
        WorkerAction::Finish { result } => result.unwrap_err(),
        _ => panic!("the session goes on"),
    }
}

fn listens(step: &WorkerStep) -> bool {
    matches!(step.session.phase, ApiPhase::Listening)
        && matches!(step.action, WorkerAction::Listen { timeout_secs: 60 })
}

#[test]
fn requests_are_sent_as_json() {
    assert_eq!(
        Request::UpdateCapacity { diff: -3 }.text(),
        r#"{"diff":-3,"type":"update_capacity"}"#
    );
    assert_eq!(
        Request::DropClient { client_id: "a\"b\\c\n".to_string() }.text(),
        r#"{"clientId":"a\"b\\c\n","type":"drop_client"}"#
    );
    assert_eq!(
        Request::ConfirmClient { client_id: "t".to_string(), url: "wss://x/ü".to_string() }.text(),
        r#"{"clientId":"t","type":"confirm_client","url":"wss://x/ü"}"#
    );
    assert_eq!(Request::Ping.text(), r#"{"type":"ping"}"#);
}

#[test]
fn different_requests_are_sent_differently() {
    assert_ne!(
        Request::DropClient { client_id: "a".to_string() }.text(),
        Request::DropClient { client_id: "b".to_string() }.text()
    );
    assert_ne!(
        Request::UpdateCapacity { diff: i64::MIN }.text(),
        Request::UpdateCapacity { diff: i64::MAX }.text()
    );
}

#[test]
fn the_address_bears_the_token() {
    assert_eq!(
        api_address_text(&config()),
        "wss://eu-1.runners.playground.flat.rs/v1?token=secret"
    );
    assert_eq!(
        connection_url(&config()),
        Ok("wss://eu-1.runners.playground.flat.rs/v1?token=secret".to_string())
    );
    let mut other = config();
    other.api_url = Some("WSS://Api.Example".to_string());
    other.api_token = "a b".to_string();
    assert_eq!(api_address_text(&other), "WSS://Api.Example?token=a b");
    assert_eq!(connection_url(&other), Ok("wss://api.example/?token=a%20b".to_string()));
    other.api_url = Some("api".to_string());
    assert_eq!(connection_url(&other), Err(InvalidApiUrl));
}

#[test]
fn the_first_profile_is_taken() {
    let root = root().unwrap();
    assert_eq!(find_profile(&root, &"a".to_string()), Some(0));
    assert_eq!(find_profile(&root, &"b".to_string()), Some(1));
    assert_eq!(find_profile(&root, &"c".to_string()), None);
}

#[test]
fn requests_say_what_they_ask() {
    let worker = worker();
    assert!(matches!(worker.update_capacity(7), Request::UpdateCapacity { diff: 7 }));
    assert!(matches!(worker.drop_client("t"), Request::DropClient { client_id } if client_id == "t"));
    assert!(matches!(
        worker.confirm_client("t"),
        Request::ConfirmClient { client_id, url } if client_id == "t" && url == "wss://runner.example/t"
    ));
    assert!(matches!(worker.send_ping(), Request::Ping));
}

#[test]
fn a_session_opens_with_the_capacity() {
    let mut worker = worker();
    let session = worker.begin_session();
    assert!(!session.ping_sent);
    let step = worker.run_once(session, WorkerEvent::Connected, &None);
    assert_eq!(sent_text(&step), r#"{"diff":4,"type":"update_capacity"}"#);
    assert!(matches!(step.remark, Some(WorkerRemark::Connected)));
    let step = worker.run_once(step.session, WorkerEvent::Sent, &None);
    assert!(listens(&step));
}

#[test]
fn errors_end_the_session() {
    let mut worker = worker();
    let session = worker.begin_session();
    let step = worker.run_once(session, WorkerEvent::ConnectFailed { error: "e".to_string() }, &None);
    assert!(matches!(step.session.phase, ApiPhase::Ended));
    assert_eq!(error(step), "Cannot connect to server: e");
    let (mut worker, step) = listening();
    assert_eq!(
        error(worker.run_once(step.session, WorkerEvent::Binary, &None)),
        "unexpected binary message"
    );
    let (mut worker, step) = listening();
    let event = WorkerEvent::ReadFailed { error: "e".to_string() };
    assert_eq!(error(worker.run_once(step.session, event, &None)), "cannot read from websocket: e");
    let (mut worker, step) = listening();
    let event = WorkerEvent::Undecodable { error: "e".to_string() };
    assert_eq!(
        error(worker.run_once(step.session, event, &None)),
        "Cannot deserialize API message: e"
    );
}

#[test]
fn a_closed_connection_ends_the_session_well() {
    let (mut worker, step) = listening();
    let step = worker.run_once(step.session, WorkerEvent::Closed, &None);
    assert!(matches!(step.action, WorkerAction::Finish { result: Ok(()) }));
}

#[test]
fn other_frames_are_passed_over() {
    let (mut worker, step) = listening();
    assert!(listens(&worker.run_once(step.session, WorkerEvent::OtherFrame, &None)));
}

#[test]
fn a_failed_request_is_named() {
    let send_failed = || WorkerEvent::SendFailed { error: "e".to_string() };
    let mut worker = worker();
    let session = worker.begin_session();
    let step = worker.run_once(session, WorkerEvent::Connected, &None);
    let step = worker.run_once(step.session, send_failed(), &None);
    assert_eq!(error(step), "update_capacity: cannot send message: e");
    let (mut worker, step) = listening();
    let step = worker.run_once(step.session, WorkerEvent::Quiet, &None);
    let step = worker.run_once(step.session, send_failed(), &None);
    assert_eq!(error(step), "send_ping: cannot send message: e");
    let (mut worker, step) = listening();
    let step = worker.run_once(step.session, task("c"), &root());
    let step = worker.run_once(step.session, send_failed(), &None);
    assert_eq!(error(step), "drop_client: cannot send message: e");
    let (mut worker, step) = listening();
    let step = worker.run_once(step.session, task("b"), &root());
    let step = worker.run_once(step.session, WorkerEvent::Started, &None);
    let step = worker.run_once(step.session, send_failed(), &None);
    assert_eq!(error(step), "confirm_client: cannot send message: e");
}

#[test]
fn a_client_with_a_known_profile_gets_a_machine() {
    let (mut worker, step) = listening();
    let step = worker.run_once(step.session, task("b"), &root());
    assert!(matches!(
        &step.action,
        WorkerAction::StartInstance { id, profile: 1 } if id == "t"
    ));
    let step = worker.run_once(step.session, WorkerEvent::Started, &root());
    assert_eq!(
        sent_text(&step),
        r#"{"clientId":"t","type":"confirm_client","url":"wss://runner.example/t"}"#
    );
}

#[test]
fn a_client_without_a_machine_is_dropped() {
    let (mut worker, step) = listening();
    let step = worker.run_once(step.session, task("c"), &root());
    assert!(matches!(&step.remark, Some(WorkerRemark::ProfileNotFound { profile }) if profile == "c"));
    assert_eq!(sent_text(&step), r#"{"clientId":"t","type":"drop_client"}"#);
    let step = worker.run_once(step.session, WorkerEvent::Sent, &root());
    let step = worker.run_once(step.session, task("a"), &root());
    let event = WorkerEvent::StartFailed { error: "e".to_string() };
    let step = worker.run_once(step.session, event, &root());
    assert!(matches!(&step.remark, Some(WorkerRemark::CannotStart { error }) if error == "e"));
    assert_eq!(sent_text(&step), r#"{"clientId":"t","type":"drop_client"}"#);
}

#[test]
fn results_answer_requests_in_order() {
    let (mut worker, step) = listening();
    let step = worker.run_once(step.session, task("c"), &root());
    let step = worker.run_once(step.session, WorkerEvent::Sent, &root());
    let step = worker.run_once(step.session, task("a"), &root());
    let step = worker.run_once(step.session, WorkerEvent::Started, &root());
    let mut step = worker.run_once(step.session, WorkerEvent::Sent, &root());
    let expected = [
        WaitForResult::UpdateCapacity,
        WaitForResult::DropClient,
        WaitForResult::ConfirmClient,
    ];
    for kind in expected.iter() {
        step = worker.run_once(step.session, result(1), &root());
        assert!(listens(&step));
        assert!(matches!(
            &step.remark,
            Some(WorkerRemark::RequestFailed { request, message }) if request == kind && message == "m"
        ));
    }
    let step = worker.run_once(step.session, result(0), &root());
    assert!(matches!(step.remark, Some(WorkerRemark::ResultWithoutRequest)));
}

#[test]
fn a_good_result_needs_no_remark() {
    let (mut worker, step) = listening();
    let step = worker.run_once(step.session, result(0), &root());
    assert!(step.remark.is_none());
    let step = worker.run_once(step.session, result(0), &root());
    assert!(matches!(step.remark, Some(WorkerRemark::ResultWithoutRequest)));
}

#[test]
fn requests_wait_beyond_a_session() {
    let (mut worker, step) = listening();
    worker.run_once(step.session, WorkerEvent::Closed, &None);
    let session = worker.begin_session();
    let step = worker.run_once(session, WorkerEvent::Connected, &None);
    let step = worker.run_once(step.session, WorkerEvent::Sent, &None);
    let step = worker.run_once(step.session, result(0), &None);
    assert!(step.remark.is_none());
    let step = worker.run_once(step.session, result(0), &None);
    assert!(step.remark.is_none());
    let step = worker.run_once(step.session, result(0), &None);
    assert!(step.remark.is_some());
}

#[test]
fn silence_after_a_ping_ends_the_session() {
    let (mut worker, step) = listening();
    let step = worker.run_once(step.session, WorkerEvent::Quiet, &None);
    assert_eq!(sent_text(&step), r#"{"type":"ping"}"#);
    assert!(step.session.ping_sent);
    let step = worker.run_once(step.session, WorkerEvent::Sent, &None);
    let step = worker.run_once(step.session, result(0), &None);
    let step = worker.run_once(step.session, WorkerEvent::Quiet, &None);
    assert_eq!(error(step), "Ping timeout");
}

#[test]
fn a_pong_answers_the_ping() {
    let (mut worker, step) = listening();
    let step = worker.run_once(step.session, WorkerEvent::Quiet, &None);
    let step = worker.run_once(step.session, WorkerEvent::Sent, &None);
    let step = worker.run_once(step.session, message(ApiMessage::Pong), &None);
    assert!(listens(&step));
    assert!(step.remark.is_none());
    assert!(!step.session.ping_sent);
    let step = worker.run_once(step.session, message(ApiMessage::Pong), &None);
    assert!(matches!(step.remark, Some(WorkerRemark::PongWithoutPing)));
    let step = worker.run_once(step.session, WorkerEvent::Quiet, &None);
    assert_eq!(sent_text(&step), r#"{"type":"ping"}"#);
}

#[test]
fn an_ended_instance_gives_capacity_back() {
    let (mut worker, step) = listening();
    let step = worker.run_once(step.session, WorkerEvent::InstanceEnded, &None);
    assert_eq!(sent_text(&step), r#"{"diff":1,"type":"update_capacity"}"#);
}

#[test]
fn a_failed_session_is_followed_by_a_pause() {
    let worker = worker();
    let failed = WorkEvent::SessionEnded { result: Err("e".to_string()) };
    match worker.run(failed) {
        WorkAction::Pause { error, secs } => {
            assert_eq!(error, "e");
            assert_eq!(secs, 1);
        }
        _ => panic!("no pause"),
    }
    assert!(matches!(worker.run(WorkEvent::Woken), WorkAction::RunSession));
}

#[test]
fn a_worker_takes_the_channel_and_then_has_sessions() {
    let worker = worker();
    assert!(matches!(worker.run(WorkEvent::Begun), WorkAction::TakeChannel));
    assert!(matches!(worker.run(WorkEvent::ChannelTaken), WorkAction::RunSession));
    let ended = WorkEvent::SessionEnded { result: Ok(()) };
    assert!(matches!(worker.run(ended), WorkAction::RunSession));
}

#[test]
fn a_request_outlives_its_session() {
    let (mut worker, step) = listening();
    worker.run_once(step.session, WorkerEvent::Closed, &None);
    worker.run(WorkEvent::SessionEnded { result: Ok(()) });
    let session = worker.begin_session();
    let step = worker.run_once(session, WorkerEvent::Connected, &None);
    let step = worker.run_once(step.session, WorkerEvent::Sent, &None);
    let refusal = || WorkerEvent::Message {
        message: ApiMessage::Result(ResultMessage { status: 1, message: "no".to_string() }),
    };
    let step = worker.run_once(step.session, refusal(), &None);
    assert!(matches!(
        step.remark,
        Some(WorkerRemark::RequestFailed { request: WaitForResult::UpdateCapacity, .. })
    ));
    let step = worker.run_once(step.session, refusal(), &None);
    assert!(matches!(
        step.remark,
        Some(WorkerRemark::RequestFailed { request: WaitForResult::UpdateCapacity, .. })
    ));
    let step = worker.run_once(step.session, refusal(), &None);
    assert!(matches!(step.remark, Some(WorkerRemark::ResultWithoutRequest)));
}
