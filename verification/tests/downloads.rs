use flat_playground_runner::config::{Config, Resource};
use flat_playground_runner::fetch::{
    file_sha256, reuse_or_fetch_resource, try_fetch, Fetch, FetchAction, FetchEvent, FetchPhase,
};

fn config() -> Config {
    Config {
        working_directory: "/srv".to_string(),
        api_token: "secret".to_string(),
        api_url: None,
        num_workers: 1,
        concurrency_per_worker: 2,
        public_url: "wss://runner.example".to_string(),
        port: 7000,
        vm_max_inactive_secs: 60,
    }
}

fn downloaded(success: bool) -> FetchEvent {
    FetchEvent::Downloaded { success, status: "ExitStatus(4)".to_string() }
}

fn started(sha256: Option<&str>) -> Fetch {
    try_fetch("/srv/res/aa", "https://files.example/x", sha256).0
}

fn finished(action: FetchAction) -> (Option<String>, Result<(), String>) {
    match action {
        FetchAction::Finish { remove, result } => (remove, result),
        _ => panic!("the download goes on"),
    }
}

#[test]
fn download_goes_to_the_temporary_path() {
    let (fetch, action) = try_fetch("/srv/res/aa", "https://files.example/x", Some("aa"));
    assert_eq!(fetch.path, "/srv/res/aa");
    assert_eq!(fetch.tmp_path, "/srv/res/aa.tmp");
    assert_eq!(fetch.sha256, Some("aa".to_string()));
    assert_eq!(fetch.phase, FetchPhase::Downloading);
    match action {
        FetchAction::Download { program, args } => {
            assert_eq!(program, "wget");
            assert_eq!(
                args,
                vec![
                    "-O".to_string(),
                    "/srv/res/aa.tmp".to_string(),
                    "https://files.example/x".to_string()
                ]
            );
        }
        _ => panic!("no download"),
    }
}

#[test]
fn the_right_file_is_put_in_place() {
    let mut fetch = started(Some("aa"));
    match fetch.step(downloaded(true)) {
        FetchAction::Hash { path, program, args } => {
            assert_eq!(path, "/srv/res/aa.tmp");
            assert_eq!(program, "sha256sum");
            assert_eq!(args, vec!["/srv/res/aa.tmp".to_string()]);
        }
        _ => panic!("no digest is computed"),
    }
    assert_eq!(fetch.phase, FetchPhase::Hashing);
    match fetch.step(FetchEvent::Hashed { digest: Ok("aa".to_string()) }) {
        FetchAction::Rename { from, to } => {
            assert_eq!(from, "/srv/res/aa.tmp");
            assert_eq!(to, "/srv/res/aa");
        }
        _ => panic!("no rename"),
    }
    assert_eq!(fetch.phase, FetchPhase::Renaming);
    let (remove, result) = finished(fetch.step(FetchEvent::Renamed { moved: Ok(()) }));
    assert_eq!(remove, None);
    assert_eq!(result, Ok(()));
    assert_eq!(fetch.phase, FetchPhase::Done);
}

#[test]
fn without_a_digest_the_file_is_put_in_place_at_once() {
    let mut fetch = started(None);
    assert!(matches!(fetch.step(downloaded(true)), FetchAction::Rename { .. }));
    assert_eq!(fetch.phase, FetchPhase::Renaming);
}

#[test]
fn a_failed_download_says_so() {
    let mut fetch = started(Some("aa"));
    let (remove, result) = finished(fetch.step(downloaded(false)));
    assert_eq!(remove, None);
    assert_eq!(
        result,
        Err("cannot fetch from https://files.example/x: ExitStatus(4)".to_string())
    );
}

#[test]
fn the_wrong_file_is_removed() {
    let mut fetch = started(Some("aa"));
    fetch.step(downloaded(true));
    let (remove, result) =
        finished(fetch.step(FetchEvent::Hashed { digest: Ok("bb".to_string()) }));
    assert_eq!(remove, Some("/srv/res/aa.tmp".to_string()));
    assert_eq!(result, Err("sha256 mismatch. got: bb expected: aa".to_string()));
    assert_eq!(fetch.phase, FetchPhase::Done);
}

#[test]
fn a_file_without_a_digest_is_removed() {
    let mut fetch = started(Some("aa"));
    fetch.step(downloaded(true));
    let (remove, result) =
        finished(fetch.step(FetchEvent::Hashed { digest: Err("no digest".to_string()) }));
    assert_eq!(remove, Some("/srv/res/aa.tmp".to_string()));
    assert_eq!(result, Err("no digest".to_string()));
}

#[test]
fn a_failed_rename_says_so() {
    let mut fetch = started(None);
    fetch.step(downloaded(true));
    let (remove, result) =
        finished(fetch.step(FetchEvent::Renamed { moved: Err("Os".to_string()) }));
    assert_eq!(remove, None);
    assert_eq!(
        result,
        Err("cannot rename temporary file /srv/res/aa.tmp to /srv/res/aa: Os".to_string())
    );
}

#[test]
fn a_resource_that_is_there_is_reused() {
    let resource = Resource { url: "https://files.example/x".to_string(), sha256: "aa".to_string() };
    assert!(reuse_or_fetch_resource(&config(), &resource, true).is_none());
    let (fetch, action) = reuse_or_fetch_resource(&config(), &resource, false).unwrap();
    assert_eq!(fetch.path, "/srv/res/aa");
    assert_eq!(fetch.url, "https://files.example/x");
    assert_eq!(fetch.sha256, Some("aa".to_string()));
    assert!(matches!(action, FetchAction::Download { .. }));
}

#[test]
fn digest_is_the_first_word() {
    assert_eq!(
        file_sha256("/tmp/x", true, b"0123abcd  /tmp/x\n".to_vec()),
        Ok("0123abcd".to_string())
    );
    assert_eq!(file_sha256("/tmp/x", true, b"0123abcd".to_vec()), Ok("0123abcd".to_string()));
    assert_eq!(
        file_sha256("/tmp/x", true, "é /tmp/x".as_bytes().to_vec()),
        Ok("é".to_string())
    );
    assert_eq!(
        file_sha256("/tmp/x", false, vec![0xff]),
        Err("cannot compute sha256 sum at: /tmp/x".to_string())
    );
}
