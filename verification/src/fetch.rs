//! The download of a file, with a check of its digest, into its place.

use vstd::prelude::*;
use vstd::utf8::{decode_utf8, encode_utf8, encode_utf8_decode_utf8, valid_utf8};

use crate::config::{Config, Resource};
use crate::resource::{build_resource_path, resource_path};
use crate::text::{before_first, concat2, concat4, law_texts_are_those_of_the_strings, push_text,
    take_before, texts};

verus! {

/// How far a download has come.
#[derive(Clone, Copy, Debug, PartialEq, Eq, Structural)]
pub enum FetchPhase {
    /// The file is being downloaded to its temporary path.
    Downloading,
    /// The digest of the temporary file is being computed.
    Hashing,
    /// The temporary file is being moved into its place.
    Renaming,
    /// The download has ended.
    Done,
}

/// A download of `url` to `path`, by way of `tmp_path`; where `sha256` is given, the file
/// has to have that digest.
#[derive(Debug)]
pub struct Fetch {
    pub path: String,
    pub tmp_path: String,
    pub url: String,
    pub sha256: Option<String>,
    pub phase: FetchPhase,
}

/// What has come of the last action. An error or a status is given as it is printed for
/// debugging, but for the error of a digest.
#[derive(Debug)]
pub enum FetchEvent {
    /// The download program has ended.
    Downloaded { success: bool, status: String },
    /// The digest of the temporary file was computed, or could not be.
    Hashed { digest: Result<String, String> },
    /// The temporary file was moved, or could not be.
    Renamed { moved: Result<(), String> },
}

/// What to do next about a download.
#[derive(Debug)]
pub enum FetchAction {
    /// Run the download program with these arguments.
    Download { program: String, args: Vec<String> },
    /// Compute the digest of the file at `path`: run the program with these arguments.
    Hash { path: String, program: String, args: Vec<String> },
    /// Move the file at `from` to `to`.
    Rename { from: String, to: String },
    /// Remove a file where one is named; the download has ended.
    Finish { remove: Option<String>, result: Result<(), String> },
}

impl Fetch {
    /// The temporary path is the path with `.tmp` behind it.
    pub open spec fn wf(&self) -> bool {
        self.tmp_path@ == self.path@ + ".tmp"@
    }

    /// Whether `event` can be what came of the last action.
    pub open spec fn expects(&self, event: FetchEvent) -> bool {
        match event {
            FetchEvent::Downloaded { .. } => self.phase == FetchPhase::Downloading,
            FetchEvent::Hashed { .. } => self.phase == FetchPhase::Hashing && self.sha256 is Some,
            FetchEvent::Renamed { .. } => self.phase == FetchPhase::Renaming,
        }
    }

    /// Whether two downloads differ in nothing but how far they have come.
    pub open spec fn same_download(&self, other: Fetch) -> bool {
        &&& self.path == other.path
        &&& self.tmp_path == other.tmp_path
        &&& self.url == other.url
        &&& self.sha256 == other.sha256
    }

    /// Whether `action` moves the temporary file into its place.
    pub open spec fn puts_in_place(&self, action: FetchAction) -> bool {
        action matches FetchAction::Rename { from, to } && from@ == self.tmp_path@ && to@
            == self.path@
    }

    /// Whether `action` computes the digest of the temporary file.
    pub open spec fn hashes(&self, action: FetchAction) -> bool {
        action matches FetchAction::Hash { path, program, args } && path@ == self.tmp_path@
            && program@ == "sha256sum"@ && texts(args@) == seq![self.tmp_path@]
    }

    /// Whether `action` ends the download with `error` and leaves the temporary file.
    pub open spec fn fails(&self, action: FetchAction, error: Seq<char>) -> bool {
        action matches FetchAction::Finish { remove: None, result: Err(text) } && text@ == error
    }

    /// Whether `action` ends the download with `error` and removes the temporary file.
    pub open spec fn discards(&self, action: FetchAction, error: Seq<char>) -> bool {
        action matches FetchAction::Finish { remove: Some(path), result: Err(text) } && path@
            == self.tmp_path@ && text@ == error
    }

    /// Whether after `event` the download has come to `phase` and `action` is to be done.
    pub open spec fn follows(
        &self,
        event: FetchEvent,
        phase: FetchPhase,
        action: FetchAction,
    ) -> bool {
        match event {
            FetchEvent::Downloaded { success: false, status } => {
                &&& phase == FetchPhase::Done
                &&& self.fails(action, "cannot fetch from "@ + self.url@ + ": "@ + status@)
            },
            FetchEvent::Downloaded { success: true, .. } => match self.sha256 {
                Some(_) => {
                    &&& phase == FetchPhase::Hashing
                    &&& self.hashes(action)
                },
                None => {
                    &&& phase == FetchPhase::Renaming
                    &&& self.puts_in_place(action)
                },
            },
            FetchEvent::Hashed { digest: Err(error) } => {
                &&& phase == FetchPhase::Done
                &&& self.discards(action, error@)
            },
            FetchEvent::Hashed { digest: Ok(found) } => match self.sha256 {
                Some(sha256) => if found@ == sha256@ {
                    &&& phase == FetchPhase::Renaming
                    &&& self.puts_in_place(action)
                } else {
                    &&& phase == FetchPhase::Done
                    &&& self.discards(
                        action,
                        "sha256 mismatch. got: "@ + found@ + " expected: "@ + sha256@,
                    )
                },
                None => false,
            },
            FetchEvent::Renamed { moved: Ok(_) } => {
                &&& phase == FetchPhase::Done
                &&& action matches FetchAction::Finish { remove: None, result: Ok(_) }
            },
            FetchEvent::Renamed { moved: Err(error) } => {
                &&& phase == FetchPhase::Done
                &&& self.fails(
                    action,
                    "cannot rename temporary file "@ + self.tmp_path@ + " to "@ + self.path@
                        + ": "@ + error@,
                )
            },
        }
    }

    /// Takes the download on after `event`.
    pub fn step(&mut self, event: FetchEvent) -> (action: FetchAction)
        requires
            old(self).expects(event),
        ensures
            final(self).same_download(*old(self)),
            old(self).follows(event, final(self).phase, action),
    {
        match event {
            FetchEvent::Downloaded { success, status } => {
                if !success {
                    self.phase = FetchPhase::Done;
                    let error = concat4("cannot fetch from ", &self.url, ": ", &status);
                    FetchAction::Finish { remove: None, result: Err(error) }
                } else if self.sha256.is_some() {
                    self.phase = FetchPhase::Hashing;
                    let mut args: Vec<String> = Vec::new();
                    push_text(&mut args, &self.tmp_path);
                    assert(texts(args@) =~= seq![self.tmp_path@]);
                    FetchAction::Hash {
                        path: self.tmp_path.clone(),
                        program: "sha256sum".to_owned(),
                        args,
                    }
                } else {
                    self.phase = FetchPhase::Renaming;
                    FetchAction::Rename { from: self.tmp_path.clone(), to: self.path.clone() }
                }
            },
            FetchEvent::Hashed { digest } => match digest {
                Err(error) => {
                    self.phase = FetchPhase::Done;
                    FetchAction::Finish {
                        remove: Some(self.tmp_path.clone()),
                        result: Err(error),
                    }
                },
                Ok(found) => {
                    let expected: String = match &self.sha256 {
                        Some(sha256) => sha256.clone(),
                        None => String::new(),
                    };
                    if found == expected {
                        self.phase = FetchPhase::Renaming;
                        FetchAction::Rename { from: self.tmp_path.clone(), to: self.path.clone() }
                    } else {
                        self.phase = FetchPhase::Done;
                        let error = concat4(
                            "sha256 mismatch. got: ",
                            &found,
                            " expected: ",
                            &expected,
                        );
                        FetchAction::Finish {
                            remove: Some(self.tmp_path.clone()),
                            result: Err(error),
                        }
                    }
                },
            },
            FetchEvent::Renamed { moved } => {
                self.phase = FetchPhase::Done;
                match moved {
                    Ok(_) => FetchAction::Finish { remove: None, result: Ok(()) },
                    Err(error) => {
                        let files = concat4(
                            "cannot rename temporary file ",
                            &self.tmp_path,
                            " to ",
                            &self.path,
                        );
                        let text = concat2(&concat2(&files, ": "), &error);
                        FetchAction::Finish { remove: None, result: Err(text) }
                    },
                }
            },
        }
    }
}

/// Whether a download of `url` to `path` with the digest `sha256` starts with `fetch` and
/// `action`.
pub open spec fn fetch_starts(
    path: Seq<char>,
    url: Seq<char>,
    sha256: Option<Seq<char>>,
    fetch: Fetch,
    action: FetchAction,
) -> bool {
    &&& fetch.wf()
    &&& fetch.path@ == path
    &&& fetch.url@ == url
    &&& match (fetch.sha256, sha256) {
        (Some(a), Some(b)) => a@ == b,
        (None, None) => true,
        _ => false,
    }
    &&& fetch.phase == FetchPhase::Downloading
    &&& action matches FetchAction::Download { program, args } && program@ == "wget"@ && texts(
        args@,
    ) == seq!["-O"@, fetch.tmp_path@, url]
}

/// Starts the download of `url` to `path`. Where `sha256` is given, the file has to have
/// that digest.
pub fn try_fetch(path: &str, url: &str, sha256: Option<&str>) -> (started: (Fetch, FetchAction))
    ensures
        fetch_starts(
            path@,
            url@,
            match sha256 {
                Some(sha256) => Some(sha256@),
                None => None,
            },
            started.0,
            started.1,
        ),
{
    let tmp_path = concat2(path, ".tmp");
    let mut args: Vec<String> = Vec::new();
    push_text(&mut args, "-O");
    push_text(&mut args, &tmp_path);
    push_text(&mut args, url);
    assert(texts(args@) =~= seq!["-O"@, tmp_path@, url@]);
    let fetch = Fetch {
        path: path.to_owned(),
        tmp_path,
        url: url.to_owned(),
        sha256: match sha256 {
            Some(sha256) => Some(sha256.to_owned()),
            None => None,
        },
        phase: FetchPhase::Downloading,
    };
    (fetch, FetchAction::Download { program: "wget".to_owned(), args })
}

/// The download that a resource needs, where `exists` says whether its file is there: none
/// if it is.
pub fn reuse_or_fetch_resource(config: &Config, res: &Resource, exists: bool) -> (needed: Option<
    (Fetch, FetchAction),
>)
    ensures
        needed is None <==> exists,
        needed matches Some(started) ==> fetch_starts(
            resource_path(*config, res.sha256@),
            res.url@,
            Some(res.sha256@),
            started.0,
            started.1,
        ),
{
    if exists {
        None
    } else {
        let path = build_resource_path(config, &res.sha256);
        Some(try_fetch(&path, &res.url, Some(&res.sha256)))
    }
}

/// `String::from_utf8`: the text whose UTF-8 encoding is `bytes`, where there is one.
#[verifier::external_body]
fn text_from_utf8(bytes: Vec<u8>) -> (text: Option<String>)
    ensures
        match text {
            Some(text) => encode_utf8(text@) == bytes@,
            None => !valid_utf8(bytes@),
        },
{
    String::from_utf8(bytes).ok()
}

/// The digest that `sha256sum` has printed for the file at `path`: what stands before the
/// first space of its output. An error where it was not successful.
pub fn file_sha256(path: &str, success: bool, stdout: Vec<u8>) -> (digest: Result<String, String>)
    requires
        success ==> valid_utf8(stdout@),
    ensures
        match digest {
            Ok(digest) => success && digest@ == before_first(decode_utf8(stdout@), ' '),
            Err(error) => !success && error@ == "cannot compute sha256 sum at: "@ + path@,
        },
{
    if !success {
        return Err(concat2("cannot compute sha256 sum at: ", path));
    }
    let text = text_from_utf8(stdout).unwrap();
    proof {
        encode_utf8_decode_utf8(text@);
    }
    Ok(take_before(&text, ' '))
}

/// A download is written to another path than the one that the file is meant for, so what
/// is there stays as it is until the file is moved.
pub proof fn law_download_leaves_the_place_alone(fetch: Fetch)
    requires
        fetch.wf(),
    ensures
        fetch.tmp_path@ != fetch.path@,
{
    reveal_strlit(".tmp");
    assert(fetch.tmp_path@.len() == fetch.path@.len() + 4);
}

/// A file comes into its place only with the digest that was asked for: the temporary file
/// is moved only after a download that succeeded and, where a digest was asked for, when
/// that digest was found.
pub proof fn law_only_the_right_file_is_put_in_place(
    fetch: Fetch,
    event: FetchEvent,
    phase: FetchPhase,
    action: FetchAction,
)
    requires
        fetch.expects(event),
        fetch.follows(event, phase, action),
        action is Rename || phase == FetchPhase::Renaming,
    ensures
        match fetch.sha256 {
            Some(sha256) => event matches FetchEvent::Hashed { digest: Ok(found) } && found@
                == sha256@,
            None => event matches FetchEvent::Downloaded { success: true, .. },
        },
{
}

/// A file with the wrong digest, or with none, is removed and never moved into its place.
pub proof fn law_wrong_file_is_removed(
    fetch: Fetch,
    event: FetchEvent,
    phase: FetchPhase,
    action: FetchAction,
)
    requires
        fetch.expects(event),
        fetch.follows(event, phase, action),
        event matches FetchEvent::Hashed { digest } && match digest {
            Ok(found) => fetch.sha256 matches Some(sha256) && found@ != sha256@,
            Err(_) => true,
        },
    ensures
        phase == FetchPhase::Done,
        action matches FetchAction::Finish { remove: Some(path), result: Err(_) } && path@
            == fetch.tmp_path@,
{
}

/// Whether the step at `at` of a run of `fetch` is one that it takes.
pub open spec fn fetch_run_step(
    fetch: Fetch,
    events: Seq<FetchEvent>,
    phases: Seq<FetchPhase>,
    actions: Seq<FetchAction>,
    at: int,
) -> bool {
    let before = Fetch { phase: phases[at], ..fetch };
    before.expects(events[at]) && before.follows(events[at], phases[at + 1], actions[at])
}

/// Whether `phases` and `actions` are what `events` lead a download through that starts
/// like `fetch`.
pub open spec fn fetch_run(
    fetch: Fetch,
    events: Seq<FetchEvent>,
    phases: Seq<FetchPhase>,
    actions: Seq<FetchAction>,
) -> bool {
    &&& phases.len() == events.len() + 1
    &&& actions.len() == events.len()
    &&& phases[0] == FetchPhase::Downloading
    &&& forall|at: int|
        0 <= at < events.len() ==> #[trigger] fetch_run_step(fetch, events, phases, actions, at)
}

/// A download that succeeds has downloaded the file, has found the digest that was asked
/// for where one was, and has moved the file into its place.
pub proof fn law_success_means_everything_was_done(
    fetch: Fetch,
    events: Seq<FetchEvent>,
    phases: Seq<FetchPhase>,
    actions: Seq<FetchAction>,
)
    requires
        fetch_run(fetch, events, phases, actions),
        events.len() > 0,
        actions.last() matches FetchAction::Finish { result: Ok(_), .. },
    ensures
        events[0] matches FetchEvent::Downloaded { success: true, .. },
        events.last() matches FetchEvent::Renamed { moved: Ok(_) },
        fetch.sha256 matches Some(sha256) ==> events.len() == 3 && (
        events[1] matches FetchEvent::Hashed { digest: Ok(found) } && found@ == sha256@),
        fetch.sha256 is None ==> events.len() == 2,
{
    let last = events.len() - 1;
    assert(fetch_run_step(fetch, events, phases, actions, last));
    assert(fetch_run_step(fetch, events, phases, actions, 0));
    assert(phases[last] == FetchPhase::Renaming);
    assert(fetch_run_step(fetch, events, phases, actions, 1));
    if last >= 2 {
        assert(fetch_run_step(fetch, events, phases, actions, 2));
    }
    if last >= 3 {
        assert(fetch_run_step(fetch, events, phases, actions, 3));
    }
}

/// The download program is told to write what the URL leads to next to the place that the
/// file is meant for, under its name with `.tmp` behind it.
pub proof fn law_download_is_written_next_to_its_place(
    path: Seq<char>,
    url: Seq<char>,
    sha256: Option<Seq<char>>,
    fetch: Fetch,
    action: FetchAction,
)
    requires
        fetch_starts(path, url, sha256, fetch, action),
    ensures
        fetch.path@ == path,
        fetch.url@ == url,
        fetch.tmp_path@ == path + ".tmp"@,
        fetch.phase == FetchPhase::Downloading,
        match sha256 {
            Some(digest) => fetch.sha256 matches Some(asked) && asked@ == digest,
            None => fetch.sha256 is None,
        },
        action matches FetchAction::Download { program, args } && {
            &&& program@ == "wget"@
            &&& args@.len() == 3
            &&& args@[0]@ == "-O"@
            &&& args@[1]@ == path + ".tmp"@
            &&& args@[2]@ == url
        },
{
    if let FetchAction::Download { args, .. } = action {
        law_texts_are_those_of_the_strings(args@);
        assert(texts(args@)[0] == "-O"@);
        assert(texts(args@)[1] == fetch.tmp_path@);
        assert(texts(args@)[2] == url);
    }
}

/// Whatever a download has come to, what is moved is the file that was downloaded, and it is
/// moved to the place that it is meant for; what is removed, and what a digest is computed
/// of, is the file that was downloaded.
pub proof fn law_only_the_download_is_touched(
    fetch: Fetch,
    event: FetchEvent,
    phase: FetchPhase,
    action: FetchAction,
)
    requires
        fetch.tmp_path@ == fetch.path@ + ".tmp"@,
        fetch.expects(event),
        fetch.follows(event, phase, action),
    ensures
        action matches FetchAction::Rename { from, to } ==> from@ == fetch.path@ + ".tmp"@ && to@
            == fetch.path@,
        action matches FetchAction::Hash { path, program, args } ==> {
            &&& path@ == fetch.path@ + ".tmp"@
            &&& program@ == "sha256sum"@
            &&& args@.len() == 1
            &&& args@[0]@ == fetch.path@ + ".tmp"@
        },
        action matches FetchAction::Finish { remove: Some(path), .. } ==> path@ == fetch.path@
            + ".tmp"@,
        !(action is Download),
{
    if let FetchAction::Hash { args, .. } = action {
        law_texts_are_those_of_the_strings(args@);
        assert(texts(args@)[0] == fetch.tmp_path@);
    }
}

/// A file is moved into its place exactly when it was downloaded and no digest was asked for,
/// or when the digest was found that was asked for; its digest is computed exactly when it
/// was downloaded and one was asked for; and the download succeeds exactly when the file was
/// moved. In every other case it fails.
pub proof fn law_what_a_download_comes_to(
    fetch: Fetch,
    event: FetchEvent,
    phase: FetchPhase,
    action: FetchAction,
)
    requires
        fetch.expects(event),
        fetch.follows(event, phase, action),
    ensures
        action is Rename <==> match event {
            FetchEvent::Downloaded { success, .. } => success && fetch.sha256 is None,
            FetchEvent::Hashed { digest: Ok(found) } => fetch.sha256 matches Some(asked) && asked@
                == found@,
            _ => false,
        },
        action is Hash <==> (event matches FetchEvent::Downloaded { success, .. } && success
            && fetch.sha256 is Some),
        (action matches FetchAction::Finish { result, .. } && result is Ok) <==> (
        event matches FetchEvent::Renamed { moved } && moved is Ok),
        action is Rename <==> phase == FetchPhase::Renaming,
        action is Hash <==> phase == FetchPhase::Hashing,
        action is Finish <==> phase == FetchPhase::Done,
{
}

/// A download that fails says why, and removes the file that was downloaded exactly when its
/// digest was not the right one or could not be computed.
pub proof fn law_failed_download_says_why(
    fetch: Fetch,
    event: FetchEvent,
    phase: FetchPhase,
    action: FetchAction,
)
    requires
        fetch.expects(event),
        fetch.follows(event, phase, action),
    ensures
        action matches FetchAction::Finish { remove, result } ==> {
            &&& remove is Some <==> event is Hashed
            &&& result matches Err(text) ==> match event {
                FetchEvent::Downloaded { status, .. } => text@ == "cannot fetch from "@
                    + fetch.url@ + ": "@ + status@,
                FetchEvent::Hashed { digest: Err(error) } => text@ == error@,
                FetchEvent::Hashed { digest: Ok(found) } => fetch.sha256 matches Some(asked)
                    && text@ == "sha256 mismatch. got: "@ + found@ + " expected: "@ + asked@,
                FetchEvent::Renamed { moved: Err(error) } => text@
                    == "cannot rename temporary file "@ + fetch.tmp_path@ + " to "@ + fetch.path@
                    + ": "@ + error@,
                FetchEvent::Renamed { .. } => false,
            }
        },
{
}

/// Whatever comes of an action of a download, the download can be taken on with it.
pub proof fn law_every_outcome_of_a_download_is_taken(fetch: Fetch, event: FetchEvent)
    ensures
        fetch.phase == FetchPhase::Downloading && event is Downloaded ==> fetch.expects(event),
        fetch.phase == FetchPhase::Hashing && fetch.sha256 is Some && event is Hashed
            ==> fetch.expects(event),
        fetch.phase == FetchPhase::Renaming && event is Renamed ==> fetch.expects(event),
{
}

/// A download that succeeds has moved what was downloaded to the place that it is meant for,
/// right before its end.
pub proof fn law_success_means_the_file_was_moved(
    fetch: Fetch,
    events: Seq<FetchEvent>,
    phases: Seq<FetchPhase>,
    actions: Seq<FetchAction>,
)
    requires
        fetch.tmp_path@ == fetch.path@ + ".tmp"@,
        fetch_run(fetch, events, phases, actions),
        events.len() > 0,
        actions.last() matches FetchAction::Finish { result: Ok(_), .. },
    ensures
        events.len() >= 2,
        actions[events.len() - 2] matches FetchAction::Rename { from, to } && from@ == fetch.path@
            + ".tmp"@ && to@ == fetch.path@,
{
    law_success_means_everything_was_done(fetch, events, phases, actions);
    let at = events.len() - 2;
    assert(fetch_run_step(fetch, events, phases, actions, at));
    assert(fetch_run_step(fetch, events, phases, actions, at + 1));
    let before = Fetch { phase: phases[at], ..fetch };
    law_what_a_download_comes_to(before, events[at], phases[at + 1], actions[at]);
    law_only_the_download_is_touched(before, events[at], phases[at + 1], actions[at]);
}

/// A download stays what it is for: the same file, from the same address, to the same place,
/// with the same digest.
pub proof fn law_download_stays_what_it_is_for(before: Fetch, after: Fetch)
    requires
        after.same_download(before),
    ensures
        after.path@ == before.path@,
        after.tmp_path@ == before.tmp_path@,
        after.url@ == before.url@,
        after.sha256 == before.sha256,
{
}

} // verus!
