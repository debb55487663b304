use flat_playground_runner::config::{Config, Image, Profile, Resource, RootProfile};
use flat_playground_runner::fetch::FetchAction;
use flat_playground_runner::profile::{
    NewDirectory, ProfileManager, RunAction, RunEvent, RunPhase, RunRemark, RunStep,
};
use std::sync::Arc;

fn manager() -> ProfileManager {
    ProfileManager::new(Arc::new(Config {
        working_directory: "/srv".to_string(),
        api_token: "secret".to_string(),
        api_url: None,
        num_workers: 1,
        concurrency_per_worker: 2,
        public_url: "wss://runner.example".to_string(),
        port: 7000,
        vm_max_inactive_secs: 60,
    }))
}

fn resource(name: &str) -> Resource {
    Resource { url: format!("https://files.example/{}", name), sha256: name.to_string() }
}

fn profile(id: &str, image: Image) -> Profile {
    Profile { id: id.to_string(), name: id.to_string(), image }
}

fn two_profiles() -> RootProfile {
    RootProfile {
        profiles: vec![
            profile(
                "linux",
                Image::Multiboot {
                    kernel: resource("kernel"),
                    ramdisk: Some(resource("ramdisk")),
                    cmdline: None,
                },
            ),
            profile("bsd", Image::Iso(resource("iso"))),
        ],
    }
}

fn pause(step: &RunStep) -> Option<u64> {
    match step.action {
        RunAction::Pause { secs } => Some(secs),
        _ => None,
    }
}

fn prepares(step: &RunStep) -> Option<String> {
    match &step.action {
        RunAction::Prepare { resource } => Some(resource.sha256.clone()),
        _ => None,
    }
}

fn parsed(manager: &mut ProfileManager, text: &str, root: RootProfile) -> RunStep {
    let step = manager.start_update();
    let step = manager.run(step.phase, RunEvent::Fetched { text: text.to_string() });
    manager.run(step.phase, RunEvent::Parsed { profile: root })
}

fn offer(manager: &mut ProfileManager, text: &str) {
    let mut step = parsed(manager, text, two_profiles());
    while prepares(&step).is_some() {
        step = manager.run(step.phase, RunEvent::Prepared);
    }
}

#[test]
fn directories_are_those_for_images_and_sockets() {
    assert_eq!(
        manager().must_prepare(),
        vec![
            NewDirectory { path: "/srv/res".to_string(), recursive: true },
            NewDirectory { path: "/srv/sock".to_string(), recursive: true },
        ]
    );
}

#[test]
fn at_first_there_are_no_profiles() {
    let mut manager = manager();
    assert!(manager.get_root_profile().is_none());
    assert_eq!(manager.wait_for_root_profile(), Some(1));
    offer(&mut manager, "text");
    assert_eq!(*manager.get_root_profile().unwrap(), two_profiles());
    assert_eq!(manager.wait_for_root_profile(), None);
}

#[test]
fn an_update_starts_with_the_text() {
    let step = manager().start_update();
    match step.action {
        RunAction::Fetch { fetch, action } => {
            let url = "https://profiles.playground.flat.rs/root_profile.toml";
            assert_eq!(fetch.path, "/srv/root_profile.toml");
            assert_eq!(fetch.url, url);
            assert_eq!(fetch.sha256, None);
            match action {
                FetchAction::Download { program, args } => {
                    assert_eq!(program, "wget");
                    assert_eq!(args, vec!["-O", "/srv/root_profile.toml.tmp", url]);
                }
                _ => panic!("no download"),
            }
        }
        _ => panic!("no fetch"),
    }
}

#[test]
fn a_failed_fetch_is_tried_again() {
    let mut manager = manager();
    let step = manager.start_update();
    let step = manager.run(step.phase, RunEvent::FetchFailed { error: "e".to_string() });
    assert_eq!(pause(&step), Some(10));
    assert!(matches!(&step.remark, Some(RunRemark::FetchFailed { error }) if error == "e"));
    let step = manager.run(step.phase, RunEvent::Woken);
    assert!(matches!(step.action, RunAction::Fetch { .. }));
}

#[test]
fn the_digest_is_sha256() {
    let mut manager = manager();
    let step = manager.start_update();
    let step = manager.run(step.phase, RunEvent::Fetched { text: "abc".to_string() });
    assert!(matches!(&step.action, RunAction::Parse { text } if text == "abc"));
    match step.phase {
        RunPhase::Parsing { hash } => assert_eq!(
            hash,
            vec![
                0xba, 0x78, 0x16, 0xbf, 0x8f, 0x01, 0xcf, 0xea, 0x41, 0x41, 0x40, 0xde, 0x5d, 0xae,
                0x22, 0x23, 0xb0, 0x03, 0x61, 0xa3, 0x96, 0x17, 0x7a, 0x9c, 0xb4, 0x10, 0xff, 0x61,
                0xf2, 0x00, 0x15, 0xad
            ]
        ),
        _ => panic!("not parsing"),
    }
}

#[test]
fn a_text_that_cannot_be_parsed_is_fetched_again() {
    let mut manager = manager();
    let step = manager.start_update();
    let step = manager.run(step.phase, RunEvent::Fetched { text: "?".to_string() });
    let step = manager.run(step.phase, RunEvent::ParseFailed { error: "e".to_string() });
    assert_eq!(pause(&step), Some(10));
    assert!(matches!(&step.remark, Some(RunRemark::ParseFailed { error }) if error == "e"));
    assert!(matches!(step.phase, RunPhase::Idle));
}

#[test]
fn every_resource_is_prepared_before_profiles_are_offered() {
    let mut manager = manager();
    let step = parsed(&mut manager, "text", two_profiles());
    assert_eq!(prepares(&step), Some("kernel".to_string()));
    assert!(manager.get_root_profile().is_none());
    let step = manager.run(step.phase, RunEvent::Prepared);
    assert_eq!(prepares(&step), Some("ramdisk".to_string()));
    let step = manager.run(step.phase, RunEvent::Prepared);
    assert_eq!(prepares(&step), Some("iso".to_string()));
    assert!(manager.get_root_profile().is_none());
    let step = manager.run(step.phase, RunEvent::Prepared);
    assert_eq!(pause(&step), Some(120));
    assert!(manager.get_root_profile().is_some());
}

#[test]
fn no_profiles_are_offered_at_once() {
    let mut manager = manager();
    let step = parsed(&mut manager, "text", RootProfile { profiles: Vec::new() });
    assert_eq!(pause(&step), Some(120));
    assert_eq!(manager.get_root_profile().unwrap().profiles.len(), 0);
}

#[test]
fn the_same_text_is_not_parsed_again() {
    let mut manager = manager();
    offer(&mut manager, "text");
    let step = manager.start_update();
    let step = manager.run(step.phase, RunEvent::Fetched { text: "text".to_string() });
    assert_eq!(pause(&step), Some(120));
    let step = manager.run(step.phase, RunEvent::Woken);
    let step = manager.run(step.phase, RunEvent::Fetched { text: "other".to_string() });
    assert!(matches!(step.action, RunAction::Parse { .. }));
    assert!(manager.get_root_profile().is_some());
}

#[test]
fn texts_are_compared_by_their_digests() {
    let mut manager = manager();
    offer(&mut manager, "text");
    let step = manager.compare_text("text".to_string(), vec![1, 2, 3]);
    assert!(matches!(&step.phase, RunPhase::Parsing { hash } if *hash == vec![1, 2, 3]));
}

#[test]
fn a_failed_resource_ends_the_update() {
    let mut manager = manager();
    let step = parsed(&mut manager, "text", two_profiles());
    assert_eq!(prepares(&step), Some("kernel".to_string()));
    let step = manager.run(step.phase, RunEvent::PrepareFailed { error: "e".to_string() });
    assert_eq!(pause(&step), Some(10));
    assert!(matches!(&step.remark, Some(RunRemark::PreparationFailed { error }) if error == "e"));
    assert!(manager.get_root_profile().is_none());
    let step = manager.run(step.phase, RunEvent::Woken);
    assert!(matches!(step.action, RunAction::Fetch { .. }));
    assert!(manager.get_root_profile().is_none());
}

#[test]
fn the_last_resource_counts_as_much_as_the_first() {
    let mut manager = manager();
    let step = parsed(&mut manager, "text", two_profiles());
    let step = manager.run(step.phase, RunEvent::Prepared);
    let step = manager.run(step.phase, RunEvent::Prepared);
    assert_eq!(prepares(&step), Some("iso".to_string()));
    let step = manager.run(step.phase, RunEvent::PrepareFailed { error: "e".to_string() });
    assert_eq!(pause(&step), Some(10));
    assert!(manager.get_root_profile().is_none());
    let step = manager.run(step.phase, RunEvent::Woken);
    let step = manager.run(step.phase, RunEvent::Fetched { text: "text".to_string() });
    assert!(matches!(step.action, RunAction::Parse { .. }));
    let mut step = manager.run(step.phase, RunEvent::Parsed { profile: two_profiles() });
    while prepares(&step).is_some() {
        step = manager.run(step.phase, RunEvent::Prepared);
    }
    assert_eq!(pause(&step), Some(120));
    assert_eq!(*manager.get_root_profile().unwrap(), two_profiles());
}

#[test]
fn profiles_stay_offered_when_a_new_resource_fails() {
    let mut manager = manager();
    offer(&mut manager, "text");
    let step = parsed(&mut manager, "other", RootProfile {
        profiles: vec![profile("new", Image::Iso(resource("new")))],
    });
    let step = manager.run(step.phase, RunEvent::PrepareFailed { error: "e".to_string() });
    assert_eq!(pause(&step), Some(10));
    assert_eq!(*manager.get_root_profile().unwrap(), two_profiles());
}

#[test]
fn profiles_stay_offered_while_others_are_prepared() {
    let mut manager = manager();
    offer(&mut manager, "text");
    let step = parsed(&mut manager, "other", RootProfile {
        profiles: vec![profile("new", Image::Iso(resource("new")))],
    });
    assert_eq!(prepares(&step), Some("new".to_string()));
    assert_eq!(*manager.get_root_profile().unwrap(), two_profiles());
    manager.run(step.phase, RunEvent::Prepared);
    assert_eq!(manager.get_root_profile().unwrap().profiles[0].id, "new");
}
