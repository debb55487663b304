//! The profiles that the runner offers, and how it keeps them up to date.

use std::sync::Arc;
use vstd::prelude::*;
use vstd::utf8::encode_utf8;

use crate::config::{Config, Resource, RootProfile};
use crate::digest::{sha256, sha256_digest};
use crate::fetch::{fetch_starts, try_fetch, Fetch, FetchAction};
use crate::path::{join, joined};
use crate::qemu::sock_directory;
use crate::resource::{image_resource, image_resources, resource_directory};

verus! {

/// The time, in seconds, until something that failed is tried again.
pub const RETRY_SECS: u64 = 10;

/// The time, in seconds, between two looks at the profiles.
pub const REFRESH_SECS: u64 = 120;

/// The time, in seconds, between two looks at whether there are profiles yet.
pub const READY_POLL_SECS: u64 = 1;

/// The profiles that are offered, and the digest of the text that they were read from.
#[derive(Debug)]
pub struct RootProfileState {
    pub profile: Arc<RootProfile>,
    pub hash: Vec<u8>,
}

/// Keeps the profiles that are offered.
#[derive(Debug)]
pub struct ProfileManager {
    config: Arc<Config>,
    root_profile: Option<RootProfileState>,
}

/// A directory that is to be made.
#[derive(Debug, PartialEq, Eq)]
pub struct NewDirectory {
    pub path: String,
    /// Whether the directories above it are made too, and it may be there already.
    pub recursive: bool,
}

/// How far an update of the profiles has come.
#[derive(Debug)]
pub enum RunPhase {
    /// The text of the profiles is being fetched.
    Fetching,
    /// The text with this digest is being parsed.
    Parsing { hash: Vec<u8> },
    /// The resource at `part` of the profile at `index` is being prepared.
    Preparing { profile: Arc<RootProfile>, hash: Vec<u8>, index: usize, part: usize },
    /// After a pause the next update starts.
    Idle,
}

/// What has come of the last action. The error of a parser is given as it is printed for
/// debugging.
#[derive(Debug)]
pub enum RunEvent {
    FetchFailed { error: String },
    Fetched { text: String },
    ParseFailed { error: String },
    Parsed { profile: RootProfile },
    PrepareFailed { error: String },
    Prepared,
    Woken,
}

/// What to do next about the profiles.
#[derive(Debug)]
pub enum RunAction {
    /// Perform the download that starts with `action`, and read the file at its path.
    Fetch { fetch: Fetch, action: FetchAction },
    /// Parse the text.
    Parse { text: String },
    /// Prepare the resource: fetch it unless it is there.
    Prepare { resource: Resource },
    /// Pause for a time.
    Pause { secs: u64 },
}

/// A remark for the log.
#[derive(Debug)]
pub enum RunRemark {
    FetchFailed { error: String },
    ParseFailed { error: String },
    PreparationFailed { error: String },
}

/// One step of an update: how far it has come, what to do next, and a remark for the log
/// where there is one.
#[derive(Debug)]
pub struct RunStep {
    pub phase: RunPhase,
    pub action: RunAction,
    pub remark: Option<RunRemark>,
}

/// The address of the text of the profiles.
pub open spec fn root_profile_url() -> Seq<char> {
    "https://profiles.playground.flat.rs/root_profile.toml"@
}

/// The path at which the text of the profiles is kept.
pub open spec fn root_profile_path(config: Config) -> Seq<char> {
    joined(config.working_directory@, "root_profile.toml"@)
}

/// The digest of a text.
pub open spec fn text_digest(text: Seq<char>) -> Seq<u8> {
    sha256_digest(encode_utf8(text))
}

/// Whether an update can have come to `phase`.
pub open spec fn phase_valid(phase: RunPhase) -> bool {
    match phase {
        RunPhase::Preparing { profile, index, part, .. } => {
            &&& index < profile.profiles@.len()
            &&& part < image_resources(profile.profiles@[index as int].image).len()
        },
        _ => true,
    }
}

/// Whether `event` can be what came of the last action of `phase`.
pub open spec fn phase_expects(phase: RunPhase, event: RunEvent) -> bool {
    match phase {
        RunPhase::Fetching => event is FetchFailed || event is Fetched,
        RunPhase::Parsing { .. } => event is ParseFailed || event is Parsed,
        RunPhase::Preparing { .. } => event is PrepareFailed || event is Prepared,
        RunPhase::Idle => event is Woken,
    }
}

/// Whether `step` starts an update.
pub open spec fn starts_update(config: Config, step: RunStep) -> bool {
    &&& step.phase == RunPhase::Fetching
    &&& step.action matches RunAction::Fetch { fetch, action } && fetch_starts(
        root_profile_path(config),
        root_profile_url(),
        None,
        fetch,
        action,
    )
    &&& step.remark is None
}

/// Whether `step` pauses for `secs` seconds before the next update.
pub open spec fn pauses(step: RunStep, secs: u64) -> bool {
    step.phase == RunPhase::Idle && step.action == (RunAction::Pause { secs })
}

/// Whether `step` is what follows when a text with the digest `digest` was fetched: it is
/// parsed, unless the profiles `offered` were read from a text with that digest.
pub open spec fn text_compared(
    offered: Option<RootProfileState>,
    text: String,
    digest: Seq<u8>,
    step: RunStep,
) -> bool {
    &&& step.remark is None
    &&& if offered matches Some(state) && state.hash@ == digest {
        pauses(step, REFRESH_SECS)
    } else {
        &&& step.phase matches RunPhase::Parsing { hash } && hash@ == digest
        &&& step.action == (RunAction::Parse { text })
    }
}

/// Whether `step` goes on with the resource at `part` of the profile at `index`, or, where
/// there is no such profile, offers the profiles from now on and pauses.
pub open spec fn goes_on(
    profile: Arc<RootProfile>,
    hash: Seq<u8>,
    index: int,
    part: int,
    before: Option<RootProfileState>,
    after: Option<RootProfileState>,
    step: RunStep,
) -> bool {
    &&& step.remark is None
    &&& if index < profile.profiles@.len() {
        &&& after == before
        &&& step.phase matches RunPhase::Preparing {
            profile: next_profile,
            hash: next_hash,
            index: next_index,
            part: next_part,
        } && next_profile == profile && next_hash@ == hash && next_index == index && next_part
            == part
        &&& step.action matches RunAction::Prepare { resource } && resource == image_resources(
            profile.profiles@[index].image,
        )[part]
    } else {
        &&& after matches Some(state) && state.profile == profile && state.hash@ == hash
        &&& pauses(step, REFRESH_SECS)
    }
}

/// Whether an update that has come to `phase` goes on with `step` after `event`, and the
/// profiles that are offered become `after` with it.
pub open spec fn run_follows(
    config: Config,
    before: Option<RootProfileState>,
    phase: RunPhase,
    event: RunEvent,
    after: Option<RootProfileState>,
    step: RunStep,
) -> bool {
    match (phase, event) {
        (RunPhase::Fetching, RunEvent::FetchFailed { error }) => {
            &&& after == before
            &&& pauses(step, RETRY_SECS)
            &&& step.remark == Some(RunRemark::FetchFailed { error })
        },
        (RunPhase::Fetching, RunEvent::Fetched { text }) => {
            &&& after == before
            &&& text_compared(before, text, text_digest(text@), step)
        },
        (RunPhase::Parsing { .. }, RunEvent::ParseFailed { error }) => {
            &&& after == before
            &&& pauses(step, RETRY_SECS)
            &&& step.remark == Some(RunRemark::ParseFailed { error })
        },
        (RunPhase::Parsing { hash }, RunEvent::Parsed { profile }) => {
            goes_on(Arc::new(profile), hash@, 0, 0, before, after, step)
        },
        (RunPhase::Preparing { profile, hash, index, part }, RunEvent::Prepared) => {
            if part + 1 < image_resources(profile.profiles@[index as int].image).len() {
                goes_on(profile, hash@, index as int, part + 1, before, after, step)
            } else {
                goes_on(profile, hash@, index + 1, 0, before, after, step)
            }
        },
        (RunPhase::Preparing { .. }, RunEvent::PrepareFailed { error }) => {
            &&& after == before
            &&& pauses(step, RETRY_SECS)
            &&& step.remark == Some(RunRemark::PreparationFailed { error })
        },
        (RunPhase::Idle, RunEvent::Woken) => {
            &&& after == before
            &&& starts_update(config, step)
        },
        _ => false,
    }
}

impl ProfileManager {
    /// The configuration.
    pub closed spec fn spec_config(&self) -> Config {
        *self.config
    }

    /// The profiles that are offered, and the digest of the text that they were read from.
    pub closed spec fn offered(&self) -> Option<RootProfileState> {
        self.root_profile
    }

    /// A manager that has no profiles yet.
    pub fn new(config: Arc<Config>) -> (manager: ProfileManager)
        ensures
            manager.spec_config() == *config,
            manager.offered() is None,
    {
        ProfileManager { config, root_profile: None }
    }

    /// The directories that have to be there before anything else, in the order in which they
    /// are made: the one for images and the one for sockets. Each is made with the directories
    /// above it, and it is no error where it is there already; the runner does not start
    /// without them. It is the same directories whenever this is asked.
    pub fn must_prepare(&self) -> (directories: Vec<NewDirectory>)
        ensures
            directories@.len() == 2,
            directories@[0].path@ == resource_directory(self.spec_config()),
            directories@[1].path@ == sock_directory(self.spec_config()),
            directories@[0].recursive && directories@[1].recursive,
    {
        let resources = join(&self.config.working_directory, "res");
        let sockets = join(&self.config.working_directory, "sock");
        let mut directories: Vec<NewDirectory> = Vec::new();
        directories.push(NewDirectory { path: resources, recursive: true });
        directories.push(NewDirectory { path: sockets, recursive: true });
        directories
    }

    /// The profiles that are offered.
    pub fn get_root_profile(&self) -> (profile: Option<Arc<RootProfile>>)
        ensures
            profile == (match self.offered() {
                Some(state) => Some(state.profile),
                None => None,
            }),
    {
        match &self.root_profile {
            Some(state) => Some(state.profile.clone()),
            None => None,
        }
    }

    /// The pause, in seconds, before the next look at whether there are profiles; none if
    /// there are.
    pub fn wait_for_root_profile(&self) -> (pause_secs: Option<u64>)
        ensures
            pause_secs == (if self.offered() is Some {
                None
            } else {
                Some(READY_POLL_SECS)
            }),
    {
        if self.root_profile.is_some() {
            None
        } else {
            Some(READY_POLL_SECS)
        }
    }

    /// Starts an update of the profiles: their text is downloaded, with whatever digest it
    /// has.
    pub fn start_update(&self) -> (step: RunStep)
        ensures
            starts_update(self.spec_config(), step),
    {
        let path = join(&self.config.working_directory, "root_profile.toml");
        let (fetch, action) = try_fetch(
            &path,
            "https://profiles.playground.flat.rs/root_profile.toml",
            None,
        );
        RunStep {
            phase: RunPhase::Fetching,
            action: RunAction::Fetch { fetch, action },
            remark: None,
        }
    }

    /// Whether the profiles that are offered were read from a text with the digest `hash`.
    fn is_current(&self, hash: &Vec<u8>) -> (current: bool)
        ensures
            current == (self.offered() matches Some(state) && state.hash@ == hash@),
    {
        match &self.root_profile {
            Some(state) => {
                let same = state.hash == *hash;
                proof {
                    if same {
                        assert(state.hash@ =~= hash@);
                    }
                }
                same
            },
            None => false,
        }
    }

    /// Has `text`, whose digest is `hash`, parsed unless the profiles that are offered were
    /// read from a text with that digest.
    pub fn compare_text(&self, text: String, hash: Vec<u8>) -> (step: RunStep)
        ensures
            text_compared(self.offered(), text, hash@, step),
            phase_valid(step.phase),
    {
        if self.is_current(&hash) {
            RunStep {
                phase: RunPhase::Idle,
                action: RunAction::Pause { secs: REFRESH_SECS },
                remark: None,
            }
        } else {
            RunStep {
                phase: RunPhase::Parsing { hash },
                action: RunAction::Parse { text },
                remark: None,
            }
        }
    }

    /// Goes on with the resource at `part` of the profile at `index`, or, where there is no
    /// such profile, offers the profiles from now on.
    fn go_on(
        &mut self,
        profile: Arc<RootProfile>,
        hash: Vec<u8>,
        index: usize,
        part: usize,
    ) -> (step: RunStep)
        requires
            index < profile.profiles@.len() ==> part < image_resources(
                profile.profiles@[index as int].image,
            ).len(),
        ensures
            final(self).spec_config() == old(self).spec_config(),
            goes_on(
                profile,
                hash@,
                index as int,
                part as int,
                old(self).offered(),
                final(self).offered(),
                step,
            ),
            phase_valid(step.phase),
    {
        if index < profile.profiles.len() {
            if let Some(resource) = image_resource(&profile.profiles[index].image, part) {
                let action = RunAction::Prepare { resource: resource.clone() };
                return RunStep {
                    phase: RunPhase::Preparing { profile, hash, index, part },
                    action,
                    remark: None,
                };
            }
        }
        self.root_profile = Some(RootProfileState { profile, hash });
        RunStep {
            phase: RunPhase::Idle,
            action: RunAction::Pause { secs: REFRESH_SECS },
            remark: None,
        }
    }

    /// Takes an update that has come to `phase` on after `event`.
    pub fn run(&mut self, phase: RunPhase, event: RunEvent) -> (step: RunStep)
        requires
            phase_valid(phase),
            phase_expects(phase, event),
        ensures
            final(self).spec_config() == old(self).spec_config(),
            run_follows(
                old(self).spec_config(),
                old(self).offered(),
                phase,
                event,
                final(self).offered(),
                step,
            ),
            phase_valid(step.phase),
            event matches RunEvent::Fetched { text } ==> {
                let digest = sha256_digest(encode_utf8(text@));
                &&& final(self).offered() == old(self).offered()
                &&& if old(self).offered() matches Some(state) && state.hash@ == digest {
                    step.phase is Idle && step.action == (RunAction::Pause { secs: 120 })
                } else {
                    &&& step.phase matches RunPhase::Parsing { hash } && hash@ == digest
                    &&& step.action == (RunAction::Parse { text })
                }
            },
    {
        match (phase, event) {
            (RunPhase::Fetching, RunEvent::FetchFailed { error }) => RunStep {
                phase: RunPhase::Idle,
                action: RunAction::Pause { secs: RETRY_SECS },
                remark: Some(RunRemark::FetchFailed { error }),
            },
            (RunPhase::Fetching, RunEvent::Fetched { text }) => {
                let hash = sha256(text.as_str().as_bytes());
                self.compare_text(text, hash)
            },
            (RunPhase::Parsing { .. }, RunEvent::ParseFailed { error }) => RunStep {
                phase: RunPhase::Idle,
                action: RunAction::Pause { secs: RETRY_SECS },
                remark: Some(RunRemark::ParseFailed { error }),
            },
            (RunPhase::Parsing { hash }, RunEvent::Parsed { profile }) => {
                self.go_on(Arc::new(profile), hash, 0, 0)
            },
            (RunPhase::Preparing { profile, hash, index, part }, RunEvent::Prepared) => {
                assert(index < profile.profiles.len());
                if image_resource(&profile.profiles[index].image, part + 1).is_some() {
                    self.go_on(profile, hash, index, part + 1)
                } else {
                    self.go_on(profile, hash, index + 1, 0)
                }
            },
            (RunPhase::Preparing { .. }, RunEvent::PrepareFailed { error }) => RunStep {
                phase: RunPhase::Idle,
                action: RunAction::Pause { secs: RETRY_SECS },
                remark: Some(RunRemark::PreparationFailed { error }),
            },
            _ => self.start_update(),
        }
    }
}

} // verus!
