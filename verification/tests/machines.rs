use flat_playground_runner::cache::MAX_TTL_SECS;
use flat_playground_runner::config::{Config, Image, Profile, Resource};
use flat_playground_runner::relay::ConnEndAction;
use flat_playground_runner::vmm::{Admission, ConnOutcome, Ended, Session, Vmm, SWEEP_INTERVAL_SECS};
use std::sync::Arc;
use std::time::{Duration, Instant};

fn config(ttl: u64) -> Arc<Config> {
    Arc::new(Config {
        working_directory: "/srv".to_string(),
        api_token: "secret".to_string(),
        api_url: None,
        num_workers: 3,
        concurrency_per_worker: 5,
        public_url: "wss://runner.example".to_string(),
        port: 7000,
        vm_max_inactive_secs: ttl,
    })
}

fn pass_millis(millis: u64) {
    let start = Instant::now();
    while start.elapsed() < Duration::from_millis(millis) {}
}

/// Lets the clock go on a little.
fn pass_time() {
    pass_millis(2);
}

fn session(admission: Admission) -> Session {
    match admission {
        Admission::Accepted { session } => session,
        Admission::Refused { message, .. } => panic!("refused: {}", message),
    }
}

fn refusal(admission: Admission) -> (u16, String) {
    match admission {
        Admission::Refused { status, message } => (status, message),
        Admission::Accepted { .. } => panic!("accepted"),
    }
}

fn served(action: ConnEndAction) -> ConnOutcome {
    ConnOutcome::Served { action }
}

#[test]
fn signal_channel_is_handed_out_once() {
    let mut vmm = Vmm::new(config(60));
    assert!(vmm.has_signal_channel());
    assert_eq!(vmm.take_signal_channel().capacity, 15);
    assert!(!vmm.has_signal_channel());
}

#[test]
fn serving_starts_when_the_address_is_bound() {
    let vmm = Vmm::new(config(60));
    assert_eq!(vmm.listen_address(), ("0.0.0.0".to_string(), 7000));
    assert_eq!(SWEEP_INTERVAL_SECS, 3);
    assert_eq!(vmm.start(Ok(())), Ok(3));
    assert_eq!(
        vmm.start(Err("AddrInUse".to_string())),
        Err("Vmm::start failed on bind(): AddrInUse".to_string())
    );
}

#[test]
fn unknown_sessions_are_refused() {
    let mut vmm = Vmm::new(config(60));
    assert_eq!(refusal(vmm.answer_client("")), (400, "bad request".to_string()));
    assert_eq!(refusal(vmm.answer_client("/")), (404, "session not found".to_string()));
    assert_eq!(refusal(vmm.answer_client("/x")), (404, "session not found".to_string()));
}

#[test]
fn a_started_machine_is_found_once() {
    let mut vmm = Vmm::new(config(60));
    let (result, ended) = vmm.start_instance("a".to_string(), Ok(41));
    assert_eq!(result, Ok(()));
    assert_eq!(ended.list(), Vec::<u64>::new());
    let found = session(vmm.answer_client("/a"));
    assert_eq!((found.id.as_str(), found.instance), ("a", 41));
    assert_eq!(refusal(vmm.answer_client("/a")).0, 404);
}

#[test]
fn a_machine_that_did_not_start_is_not_parked() {
    let mut vmm = Vmm::new(config(60));
    let (result, ended) = vmm.start_instance("a".to_string(), Err("no kvm".to_string()));
    assert_eq!(result, Err("no kvm".to_string()));
    assert_eq!(ended.list(), Vec::<u64>::new());
    assert_eq!(refusal(vmm.answer_client("/a")).0, 404);
}

#[test]
fn a_preserved_machine_is_found_again() {
    let mut vmm = Vmm::new(config(60));
    vmm.start_instance("ä".to_string(), Ok(41));
    let found = session(vmm.answer_client("/ä"));
    let (result, ended) =
        vmm.handle_incoming(Some(found), served(ConnEndAction::PreserveInstance));
    assert_eq!(result, Ok(()));
    assert_eq!(ended.list(), Vec::<u64>::new());
    assert_eq!(session(vmm.answer_client("/ä")).instance, 41);
}

#[test]
fn a_killed_machine_ends() {
    let mut vmm = Vmm::new(config(60));
    vmm.start_instance("a".to_string(), Ok(41));
    let found = session(vmm.answer_client("/a"));
    let (result, ended) = vmm.handle_incoming(Some(found), served(ConnEndAction::KillInstance));
    assert_eq!(result, Ok(()));
    assert_eq!(ended.list(), vec![41]);
    assert_eq!(refusal(vmm.answer_client("/a")).0, 404);
}

#[test]
fn a_failed_handshake_ends_the_machine_that_was_taken_out() {
    let mut vmm = Vmm::new(config(60));
    vmm.start_instance("a".to_string(), Ok(41));
    let found = session(vmm.answer_client("/a"));
    let (result, ended) =
        vmm.handle_incoming(Some(found), ConnOutcome::HandshakeFailed { error: "Io".to_string() });
    assert_eq!(result, Err("accept_hdr_async: Io".to_string()));
    assert_eq!(ended.list(), vec![41]);
    let (result, ended) =
        vmm.handle_incoming(None, ConnOutcome::HandshakeFailed { error: "Http".to_string() });
    assert_eq!(result, Err("accept_hdr_async: Http".to_string()));
    assert_eq!(ended.list(), Vec::<u64>::new());
}

#[test]
fn a_replaced_machine_ends() {
    let mut vmm = Vmm::new(config(60));
    vmm.insert_instance("a".to_string(), 1);
    vmm.insert_instance("b".to_string(), 2);
    let ended = vmm.insert_instance("a".to_string(), 3);
    assert_eq!(ended.expired, Vec::<u64>::new());
    assert_eq!(ended.replaced, Some(1));
    assert_eq!(ended.killed, None);
    assert_eq!(session(vmm.answer_client("/a")).instance, 3);
    assert_eq!(session(vmm.answer_client("/b")).instance, 2);
}

#[test]
fn a_sweep_ends_what_was_parked_for_too_long() {
    let mut vmm = Vmm::new(config(0));
    vmm.insert_instance("a".to_string(), 1);
    pass_time();
    assert_eq!(vmm.sweep().list(), vec![1]);
    assert_eq!(vmm.sweep().list(), Vec::<u64>::new());
    assert_eq!(refusal(vmm.answer_client("/a")).0, 404);
}

#[test]
fn a_sweep_leaves_the_others() {
    let mut vmm = Vmm::new(config(3600));
    vmm.insert_instance("a".to_string(), 1);
    vmm.insert_instance("".to_string(), 2);
    vmm.insert_instance("c".to_string(), 3);
    pass_time();
    assert_eq!(vmm.sweep().list(), Vec::<u64>::new());
    assert_eq!(session(vmm.answer_client("/c")).instance, 3);
    assert_eq!(session(vmm.answer_client("/")).instance, 2);
    assert_eq!(session(vmm.answer_client("/a")).instance, 1);
}

#[test]
fn an_instance_ends_with_the_first_sweep_after_its_time() {
    let mut vmm = Vmm::new(config(2));
    vmm.insert_instance("a".to_string(), 1);
    assert_eq!(vmm.sweep().list(), Vec::<u64>::new());
    pass_millis(1200);
    vmm.insert_instance("b".to_string(), 2);
    assert_eq!(vmm.sweep().list(), Vec::<u64>::new());
    pass_millis(1200);
    assert_eq!(vmm.sweep().list(), vec![1]);
    assert_eq!(refusal(vmm.answer_client("/a")).0, 404);
    pass_millis(1200);
    assert_eq!(vmm.sweep().list(), vec![2]);
    assert_eq!(vmm.sweep().list(), Vec::<u64>::new());
}

#[test]
fn an_instance_that_is_parked_again_has_its_whole_time() {
    let mut vmm = Vmm::new(config(2));
    vmm.insert_instance("a".to_string(), 1);
    pass_millis(1200);
    let taken = session(vmm.answer_client("/a"));
    vmm.handle_incoming(Some(taken), served(ConnEndAction::PreserveInstance)).0.unwrap();
    pass_millis(1200);
    assert_eq!(vmm.sweep().list(), Vec::<u64>::new());
    pass_millis(1200);
    assert_eq!(vmm.sweep().list(), vec![1]);
}

#[test]
fn a_taken_instance_is_not_handed_out_again() {
    let mut vmm = Vmm::new(config(3600));
    vmm.insert_instance("a".to_string(), 1);
    vmm.insert_instance("b".to_string(), 2);
    let first = session(vmm.answer_client("/a"));
    let second = session(vmm.answer_client("/b"));
    vmm.start_instance("c".to_string(), Ok(3)).0.unwrap();
    assert_eq!(refusal(vmm.answer_client("/a")).0, 404);
    vmm.sweep();
    vmm.handle_incoming(Some(second), served(ConnEndAction::PreserveInstance)).0.unwrap();
    assert_eq!(refusal(vmm.answer_client("/a")).0, 404);
    vmm.handle_incoming(Some(first), served(ConnEndAction::KillInstance)).0.unwrap();
    assert_eq!(refusal(vmm.answer_client("/a")).0, 404);
    assert_eq!(session(vmm.answer_client("/b")).instance, 2);
}

#[test]
fn a_sweep_spares_a_session() {
    let mut vmm = Vmm::new(config(0));
    vmm.insert_instance("a".to_string(), 1);
    let taken = session(vmm.answer_client("/a"));
    vmm.insert_instance("b".to_string(), 2);
    pass_time();
    assert_eq!(vmm.sweep().list(), vec![2]);
    let (result, ended) = vmm.handle_incoming(Some(taken), served(ConnEndAction::PreserveInstance));
    assert!(result.is_ok());
    assert_eq!(ended.list(), Vec::<u64>::new());
    assert_eq!(session(vmm.answer_client("/a")).instance, 1);
}

#[test]
fn parking_ends_what_was_parked_for_too_long() {
    let mut vmm = Vmm::new(config(0));
    vmm.insert_instance("a".to_string(), 1);
    pass_time();
    let ended = vmm.insert_instance("a".to_string(), 2);
    assert_eq!(ended.expired, vec![1]);
    assert_eq!(ended.replaced, None);
    assert_eq!(session(vmm.answer_client("/a")).instance, 2);
}

#[test]
fn a_machine_that_is_over_its_time_can_still_be_taken_out() {
    let mut vmm = Vmm::new(config(0));
    vmm.insert_instance("a".to_string(), 1);
    pass_time();
    assert_eq!(session(vmm.answer_client("/a")).instance, 1);
}

#[test]
fn the_longest_time_does_no_harm() {
    let mut vmm = Vmm::new(config(MAX_TTL_SECS));
    vmm.insert_instance("a".to_string(), 1);
    pass_time();
    assert_eq!(vmm.sweep().list(), Vec::<u64>::new());
    assert_eq!(vmm.insert_instance("b".to_string(), 2).list(), Vec::<u64>::new());
}

#[test]
fn what_has_ended_is_listed_once() {
    let ended = Ended { expired: vec![1, 2], replaced: Some(3), killed: Some(4) };
    assert_eq!(ended.list(), vec![1, 2, 3, 4]);
    let ended = Ended { expired: vec![1], replaced: None, killed: Some(4) };
    assert_eq!(ended.list(), vec![1, 4]);
}

#[test]
fn every_instance_is_in_one_place() {
    let mut vmm = Vmm::new(config(3600));
    let mut ended: Vec<u64> = Vec::new();
    for i in 0..6u64 {
        let (_, gone) = vmm.start_instance(format!("t{}", i % 4), Ok(i));
        ended.extend(gone.list());
    }
    let first = session(vmm.answer_client("/t2"));
    let second = session(vmm.answer_client("/t3"));
    let (_, gone) = vmm.handle_incoming(Some(first), served(ConnEndAction::KillInstance));
    ended.extend(gone.list());
    let (_, gone) = vmm.handle_incoming(Some(second), served(ConnEndAction::PreserveInstance));
    ended.extend(gone.list());
    for id in ["/t0", "/t1", "/t3"].iter() {
        ended.push(session(vmm.answer_client(id)).instance);
    }
    ended.sort();
    assert_eq!(ended, vec![0, 1, 2, 3, 4, 5]);
}

#[test]
fn a_launch_needs_a_uuid() {
    let vmm = Vmm::new(config(60));
    let profile = Profile {
        id: "p".to_string(),
        name: "P".to_string(),
        image: Image::Iso(Resource { url: "u".to_string(), sha256: "aa".to_string() }),
    };
    let launch = vmm.start_qemu("936DA01F9ABD4d9d80C702AF85C822A8", &profile).unwrap();
    assert_eq!(launch.sock_path, "/srv/sock/936da01f-9abd-4d9d-80c7-02af85c822a8");
    assert_eq!(
        vmm.start_qemu("a", &profile).unwrap_err(),
        "start_qemu: Cannot parse task id"
    );
}
