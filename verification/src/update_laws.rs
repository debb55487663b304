//! What holds of the updates of the profiles as a whole.

use vstd::prelude::*;
use vstd::utf8::encode_utf8;

use crate::config::{Config, Image, Profile, Resource, RootProfile};
use crate::digest::sha256_digest;
use crate::fetch::{law_download_is_written_next_to_its_place, FetchAction};
use crate::path::law_join_keeps_both_parts;
use crate::profile::{pauses, phase_expects, phase_valid, root_profile_path, run_follows,
    text_compared, RootProfileState, RunAction, RunEvent, RunPhase, RunRemark, RunStep,
    REFRESH_SECS, RETRY_SECS};
use crate::resource::{image_resources, law_every_part_of_an_image_is_prepared};

verus! {

/// A course of updates: the profiles that are offered and how far the update has come,
/// before each event and after the last, and the steps that the events lead to.
pub struct Course {
    pub offered: Seq<Option<RootProfileState>>,
    pub phases: Seq<RunPhase>,
    pub events: Seq<RunEvent>,
    pub steps: Seq<RunStep>,
}

impl Course {
    /// Whether the event at `at` leads to the step at `at`.
    pub open spec fn step_taken(self, config: Config, at: int) -> bool {
        &&& phase_valid(self.phases[at])
        &&& phase_expects(self.phases[at], self.events[at])
        &&& run_follows(
            config,
            self.offered[at],
            self.phases[at],
            self.events[at],
            self.offered[at + 1],
            self.steps[at],
        )
        &&& self.phases[at + 1] == self.steps[at].phase
    }

    /// Whether every event leads to its step.
    pub open spec fn taken(self, config: Config) -> bool {
        &&& self.offered.len() == self.events.len() + 1
        &&& self.phases.len() == self.events.len() + 1
        &&& self.steps.len() == self.events.len()
        &&& forall|at: int|
            0 <= at < self.events.len() ==> #[trigger] self.step_taken(config, at)
    }
}

/// The resources of the profiles from `index` on, in the order in which they are prepared.
pub open spec fn resources_from(profiles: Seq<Profile>, index: int) -> Seq<Resource>
    decreases profiles.len() - index,
{
    if index < 0 || index >= profiles.len() {
        Seq::empty()
    } else {
        image_resources(profiles[index].image) + resources_from(profiles, index + 1)
    }
}

/// The resources from `part` of the profile at `index` on.
pub open spec fn resources_left(profile: RootProfile, index: int, part: int) -> Seq<Resource> {
    if index < profile.profiles@.len() {
        image_resources(profile.profiles@[index].image).skip(part) + resources_from(
            profile.profiles@,
            index + 1,
        )
    } else {
        Seq::empty()
    }
}

/// After a resource comes the one that follows it.
proof fn lemma_next_resource(profile: RootProfile, index: int, part: int)
    requires
        0 <= index < profile.profiles@.len(),
        0 <= part < image_resources(profile.profiles@[index].image).len(),
    ensures
        resources_left(profile, index, part).len() > 0,
        resources_left(profile, index, part)[0] == image_resources(
            profile.profiles@[index].image,
        )[part],
        resources_left(profile, index, part).skip(1) == (if part + 1 < image_resources(
            profile.profiles@[index].image,
        ).len() {
            resources_left(profile, index, part + 1)
        } else {
            resources_left(profile, index + 1, 0)
        }),
{
    let these = image_resources(profile.profiles@[index].image);
    let later = resources_from(profile.profiles@, index + 1);
    assert(resources_left(profile, index, part) == these.skip(part) + later);
    if part + 1 < these.len() {
        assert((these.skip(part) + later).skip(1) =~= these.skip(part + 1) + later);
    } else {
        assert((these.skip(part) + later).skip(1) =~= later);
        if index + 1 < profile.profiles@.len() {
            let next = image_resources(profile.profiles@[index + 1].image);
            assert(next.skip(0) =~= next);
        }
    }
}

/// Once profiles are offered, there are always profiles that are offered.
pub proof fn law_profiles_stay_offered(config: Config, course: Course, early: int, late: int)
    requires
        course.taken(config),
        0 <= early <= late <= course.events.len(),
        course.offered[early] is Some,
    ensures
        course.offered[late] is Some,
    decreases late - early,
{
    if early < late {
        assert(course.step_taken(config, early));
        law_profiles_stay_offered(config, course, early + 1, late);
    }
}

/// A text that the offered profiles were read from is not read again: nothing changes, and
/// the next update comes after a pause.
pub proof fn law_same_text_changes_nothing(
    config: Config,
    before: Option<RootProfileState>,
    text: String,
    after: Option<RootProfileState>,
    step: RunStep,
)
    requires
        before matches Some(state) && state.hash@ == sha256_digest(encode_utf8(text@)),
        run_follows(config, before, RunPhase::Fetching, RunEvent::Fetched { text }, after, step),
    ensures
        after == before,
        pauses(step, REFRESH_SECS),
{
}

/// What an update keeps until it ends: what is offered does not change, and the profiles
/// that it prepares are those that were parsed, with the digest of the text.
proof fn lemma_update_keeps(config: Config, course: Course, text: String, at: int)
    requires
        course.taken(config),
        course.events.len() > 0,
        course.phases[0] is Fetching,
        course.events[0] == (RunEvent::Fetched { text }),
        forall|k: int| 0 < k < course.events.len() ==> !((#[trigger] course.phases[k]) is Idle),
        0 < at < course.events.len(),
    ensures
        course.offered[at] == course.offered[0],
        match course.phases[at] {
            RunPhase::Parsing { hash } => at == 1 && hash@ == sha256_digest(encode_utf8(text@)),
            RunPhase::Preparing { profile, hash, .. } => at > 1
                && course.events[1] == (RunEvent::Parsed { profile: *profile }) && hash@
                == sha256_digest(encode_utf8(text@)),
            _ => false,
        },
    decreases at,
{
    assert(!(course.phases[at] is Idle));
    assert(course.step_taken(config, at - 1));
    if at > 1 {
        assert(!(course.phases[at - 1] is Idle));
        lemma_update_keeps(config, course, text, at - 1);
    }
}

/// An update that starts with a text and changes what is offered ends with that change:
/// what is offered then was parsed from the text and bears its digest. So the same text,
/// fetched again, changes nothing.
pub proof fn law_update_offers_what_was_fetched(config: Config, course: Course, text: String)
    requires
        course.taken(config),
        course.events.len() > 0,
        course.phases[0] is Fetching,
        course.events[0] == (RunEvent::Fetched { text }),
        forall|k: int| 0 < k < course.events.len() ==> !((#[trigger] course.phases[k]) is Idle),
        course.offered.last() != course.offered[0],
    ensures
        course.phases.last() is Idle,
        course.events.len() > 1,
        course.offered.last() matches Some(state) && state.hash@ == sha256_digest(encode_utf8(text@))
            && course.events[1] == (RunEvent::Parsed { profile: *state.profile }),
        forall|k: int|
            0 <= k < course.events.len() ==> #[trigger] course.offered[k] == course.offered[0],
{
    let last = course.events.len() - 1;
    assert(course.step_taken(config, last));
    if last > 0 {
        lemma_update_keeps(config, course, text, last);
    }
    assert forall|k: int| 0 <= k < course.events.len() implies #[trigger] course.offered[k]
        == course.offered[0] by {
        if k > 0 {
            lemma_update_keeps(config, course, text, k);
        }
    }
}

/// As long as nothing fails, the resource that is being prepared is the first of those
/// that are left, and nothing has changed yet.
proof fn lemma_preparing_in_order(
    config: Config,
    course: Course,
    profile: RootProfile,
    hash: Seq<u8>,
    index: int,
    part: int,
    at: int,
)
    requires
        course.taken(config),
        course.phases[0] matches RunPhase::Preparing { profile: p, hash: h, index: i, part: j }
            && *p == profile && h@ == hash && i == index && j == part,
        phase_valid(course.phases[0]),
        course.events.len() == resources_left(profile, index, part).len(),
        forall|k: int| 0 <= k < course.events.len() ==> (#[trigger] course.events[k]) is Prepared,
        0 <= at < course.events.len(),
    ensures
        course.offered[at] == course.offered[0],
        phase_valid(course.phases[at]),
        course.phases[at] matches RunPhase::Preparing { profile: p, hash: h, index: i, part: j }
            && *p == profile && h@ == hash && resources_left(profile, i as int, j as int)
            == resources_left(profile, index, part).skip(at),
    decreases at,
{
    let all = resources_left(profile, index, part);
    if at == 0 {
        assert(all.skip(0) =~= all);
    } else {
        lemma_preparing_in_order(config, course, profile, hash, index, part, at - 1);
        assert(course.step_taken(config, at - 1));
        assert(course.events[at - 1] is Prepared);
        if let RunPhase::Preparing { index: i, part: j, .. } = course.phases[at - 1] {
            lemma_next_resource(profile, i as int, j as int);
            assert(all.skip(at - 1).skip(1) =~= all.skip(at));
            assert(all.skip(at).len() > 0);
        }
        assert(course.step_taken(config, at));
    }
}

/// When the resources that are left are prepared one by one, each of them and in order, the
/// profiles are offered then, and not before.
pub proof fn law_profiles_with_every_resource_are_offered(
    config: Config,
    course: Course,
    profile: RootProfile,
    hash: Seq<u8>,
    index: int,
    part: int,
)
    requires
        course.taken(config),
        course.phases[0] matches RunPhase::Preparing { profile: p, hash: h, index: i, part: j }
            && *p == profile && h@ == hash && i == index && j == part,
        phase_valid(course.phases[0]),
        course.events.len() == resources_left(profile, index, part).len(),
        forall|k: int| 0 <= k < course.events.len() ==> (#[trigger] course.events[k]) is Prepared,
    ensures
        forall|k: int|
            0 <= k < course.events.len() - 1 ==> (#[trigger] course.steps[k]).action == (
            RunAction::Prepare { resource: resources_left(profile, index, part)[k + 1] }),
        forall|k: int|
            0 <= k < course.events.len() ==> #[trigger] course.offered[k] == course.offered[0],
        course.offered.last() matches Some(state) && *state.profile == profile && state.hash@
            == hash,
        course.phases.last() is Idle,
{
    let all = resources_left(profile, index, part);
    lemma_next_resource(profile, index, part);
    assert forall|k: int| 0 <= k < course.events.len() implies #[trigger] course.offered[k]
        == course.offered[0] by {
        lemma_preparing_in_order(config, course, profile, hash, index, part, k);
    }
    assert forall|k: int| 0 <= k < course.events.len() - 1 implies (
    #[trigger] course.steps[k]).action == (RunAction::Prepare { resource: all[k + 1] }) by {
        lemma_preparing_in_order(config, course, profile, hash, index, part, k + 1);
        assert(course.step_taken(config, k));
        if let RunPhase::Preparing { index: i, part: j, .. } = course.phases[k + 1] {
            lemma_next_resource(profile, i as int, j as int);
            assert(all.skip(k + 1)[0] == all[k + 1]);
        }
    }
    let last = course.events.len() - 1;
    lemma_preparing_in_order(config, course, profile, hash, index, part, last);
    assert(course.step_taken(config, last));
    assert(course.events[last] is Prepared);
    if let RunPhase::Preparing { index: i, part: j, .. } = course.phases[last] {
        lemma_next_resource(profile, i as int, j as int);
        assert(all.skip(last).skip(1).len() == 0);
        if i + 1 < profile.profiles@.len() {
            assert(image_resources(profile.profiles@[i + 1].image).skip(0).len() > 0);
        }
    }
}

/// The resources of all profiles are those that are left at the start.
proof fn lemma_all_resources(profile: RootProfile)
    ensures
        resources_left(profile, 0, 0) == resources_from(profile.profiles@, 0),
{
    if profile.profiles@.len() > 0 {
        let first = image_resources(profile.profiles@[0].image);
        assert(first.skip(0) =~= first);
    }
}

impl Course {
    /// Whether the profiles that the event at `start` has parsed have had their first
    /// `count` resources prepared, one after the other and in order, by the events right
    /// behind it.
    pub open spec fn prepared(self, profile: RootProfile, start: int, count: int) -> bool {
        let resources = resources_from(profile.profiles@, 0);
        &&& self.events[start] == (RunEvent::Parsed { profile })
        &&& 0 <= count <= resources.len()
        &&& forall|k: int|
            #![trigger resources[k]]
            0 <= k < count ==> self.steps[start + k].action == (RunAction::Prepare {
                resource: resources[k],
            }) && self.events[start + k + 1] is Prepared
    }

    /// Whether the profiles that the event at `start` has parsed have had every resource
    /// prepared before the event at `at`.
    pub open spec fn prepared_entirely(self, profile: RootProfile, start: int, at: int) -> bool {
        let resources = resources_from(profile.profiles@, 0);
        &&& 0 <= start
        &&& start + 1 + resources.len() <= at
        &&& self.prepared(profile, start, resources.len() as int)
    }

    /// Whether at `at` a resource is being prepared, and all those before it were.
    pub open spec fn preparing_since(self, start: int, at: int) -> bool {
        &&& 0 <= start < at
        &&& self.phases[at] matches RunPhase::Preparing { profile, index, part, .. } && {
            let resources = resources_from(profile.profiles@, 0);
            &&& self.prepared(*profile, start, at - 1 - start)
            &&& resources_left(*profile, index as int, part as int) == resources.skip(
                at - 1 - start,
            )
        }
    }
}

/// A resource is being prepared only when the ones before it were, and one step further
/// on this still holds, or all were prepared, or the update is over.
proof fn lemma_preparing_goes_on(config: Config, course: Course, start: int, at: int)
    requires
        course.taken(config),
        0 <= at < course.events.len(),
        course.phases[at] is Preparing ==> course.preparing_since(start, at),
    ensures
        course.phases[at + 1] is Preparing ==> course.preparing_since(
            if course.phases[at] is Preparing {
                start
            } else {
                at
            },
            at + 1,
        ),
        course.offered[at + 1] != course.offered[at] ==> (
        course.offered[at + 1] matches Some(state) && course.prepared_entirely(
            *state.profile,
            if course.phases[at] is Preparing {
                start
            } else {
                at
            },
            at + 1,
        )),
{
    assert(course.step_taken(config, at));
    match (course.phases[at], course.events[at]) {
        (RunPhase::Parsing { .. }, RunEvent::Parsed { profile }) => {
            let resources = resources_from(profile.profiles@, 0);
            lemma_all_resources(profile);
            assert(resources.skip(0) =~= resources);
            assert(course.prepared(profile, at, 0));
        },
        (RunPhase::Preparing { profile, index, part, .. }, RunEvent::Prepared) => {
            let parsed = course.events[start]->profile;
            let resources = resources_from(parsed.profiles@, 0);
            let done = at - 1 - start;
            lemma_next_resource(parsed, index as int, part as int);
            assert(resources.skip(done)[0] == resources[done]);
            assert(resources.skip(done).skip(1) =~= resources.skip(done + 1));
            assert(course.step_taken(config, at - 1));
            assert(course.prepared(parsed, start, done + 1));
            if course.offered[at + 1] != course.offered[at] {
                assert(resources.skip(done + 1).len() == 0);
            }
        },
        _ => {},
    }
}

/// At every moment, all resources of the profiles that are offered have been prepared: from
/// a start without profiles on, whatever is offered was parsed, and every one of its
/// resources was then prepared successfully, one after the other and in order. So profiles
/// of which a resource could not be prepared are not offered.
pub proof fn law_offered_profiles_have_every_resource(config: Config, course: Course, at: int)
    requires
        course.taken(config),
        course.offered[0] is None,
        !(course.phases[0] is Preparing),
        0 <= at <= course.events.len(),
    ensures
        course.offered[at] matches Some(state) ==> exists|start: int| #[trigger]
            course.prepared_entirely(*state.profile, start, at),
        course.phases[at] is Preparing ==> exists|start: int| #[trigger]
            course.preparing_since(start, at),
    decreases at,
{
    if at > 0 {
        law_offered_profiles_have_every_resource(config, course, at - 1);
        let start = if course.phases[at - 1] is Preparing {
            choose|start: int| #[trigger] course.preparing_since(start, at - 1)
        } else {
            at - 1
        };
        lemma_preparing_goes_on(config, course, start, at - 1);
        if course.phases[at] is Preparing {
            assert(course.preparing_since(start, at));
        }
        if let Some(state) = course.offered[at] {
            if course.offered[at] == course.offered[at - 1] {
                let earlier = choose|start: int| #[trigger]
                    course.prepared_entirely(*state.profile, start, at - 1);
                assert(course.prepared_entirely(*state.profile, earlier, at));
            } else {
                assert(course.prepared_entirely(*state.profile, start, at));
            }
        }
    }
}

/// In an update, resources are prepared since the profiles were parsed.
proof fn lemma_update_prepares_in_order(config: Config, course: Course, at: int)
    requires
        course.taken(config),
        course.phases[0] is Fetching,
        forall|k: int| 0 < k < course.events.len() ==> !((#[trigger] course.phases[k]) is Idle),
        1 < at < course.events.len(),
    ensures
        course.preparing_since(1, at),
        course.offered[at] == course.offered[0],
    decreases at,
{
    assert(!(course.phases[1] is Idle));
    assert(course.step_taken(config, 0));
    assert(course.step_taken(config, 1));
    assert(!(course.phases[at] is Idle));
    assert(course.step_taken(config, at - 1));
    if at > 2 {
        lemma_update_prepares_in_order(config, course, at - 1);
    }
    lemma_preparing_goes_on(config, course, 1, at - 1);
}

/// An update changes what is offered only if it has fetched and parsed profiles, and every
/// event after that says that a resource was prepared: one for each resource of the
/// profiles, and in order.
pub proof fn law_update_offers_only_with_every_resource(config: Config, course: Course)
    requires
        course.taken(config),
        course.events.len() > 0,
        course.phases[0] is Fetching,
        forall|k: int| 0 < k < course.events.len() ==> !((#[trigger] course.phases[k]) is Idle),
        course.offered.last() != course.offered[0],
    ensures
        course.events[0] is Fetched,
        course.events.len() > 1,
        course.offered.last() matches Some(state) && course.events.len() == 2 + resources_from(
            state.profile.profiles@,
            0,
        ).len() && course.prepared(*state.profile, 1, course.events.len() - 2),
{
    let last = course.events.len() - 1;
    assert(course.step_taken(config, 0));
    assert(course.step_taken(config, last));
    if last > 0 {
        assert(!(course.phases[1] is Idle));
        assert(course.step_taken(config, 1));
        if last > 1 {
            lemma_update_prepares_in_order(config, course, last);
            if let RunPhase::Preparing { index, part, .. } = course.phases[last] {
                lemma_next_resource(course.events[1]->profile, index as int, part as int);
            }
        }
        lemma_preparing_goes_on(config, course, 1, last);
        if let Some(state) = course.offered.last() {
            assert(course.prepared_entirely(*state.profile, 1, last + 1));
        }
    }
}

/// A resource that could not be prepared ends the update: what is offered stays as it was,
/// and after a pause the text is fetched again.
pub proof fn law_failed_resource_changes_nothing(
    config: Config,
    before: Option<RootProfileState>,
    phase: RunPhase,
    error: String,
    after: Option<RootProfileState>,
    step: RunStep,
)
    requires
        phase is Preparing,
        run_follows(config, before, phase, RunEvent::PrepareFailed { error }, after, step),
    ensures
        after == before,
        pauses(step, RETRY_SECS),
{
}

/// A text is parsed exactly if the SHA-256 digest of all of it, in UTF-8, is another than the
/// one that was kept with the profiles that are offered; the digest is kept with it. What is
/// offered does not change yet.
pub proof fn law_changed_text_is_parsed(
    config: Config,
    before: Option<RootProfileState>,
    text: String,
    after: Option<RootProfileState>,
    step: RunStep,
)
    requires
        run_follows(config, before, RunPhase::Fetching, RunEvent::Fetched { text }, after, step),
    ensures
        after == before,
        step.remark is None,
        ({
            let digest = sha256_digest(encode_utf8(text@));
            let unchanged = before matches Some(state) && state.hash@ == digest;
            &&& !unchanged <==> step.action is Parse
            &&& !unchanged ==> (step.action matches RunAction::Parse { text: parsed } && parsed@
                == text@ && (step.phase matches RunPhase::Parsing { hash } && hash@ == digest))
            &&& unchanged ==> step.phase is Idle && (step.action matches RunAction::Pause { secs }
                && secs == 120)
        }),
{
}

/// A text with a given digest is parsed exactly if no profiles are offered or they were read
/// from a text with another digest.
pub proof fn law_texts_are_told_apart_by_digest(
    offered: Option<RootProfileState>,
    text: String,
    digest: Seq<u8>,
    step: RunStep,
)
    requires
        text_compared(offered, text, digest, step),
    ensures
        step.remark is None,
        step.action is Parse <==> !(offered matches Some(state) && state.hash@ == digest),
        step.action matches RunAction::Parse { text: parsed } ==> parsed@ == text@ && (
        step.phase matches RunPhase::Parsing { hash } && hash@ == digest),
        !(step.action is Parse) ==> step.phase is Idle && (
        step.action matches RunAction::Pause { secs } && secs == 120),
{
}

impl Course {
    /// Whether `profile` was parsed from the text that the event at `start` has fetched, and
    /// `hash` is the digest of that text.
    pub open spec fn read_at(
        self,
        profile: RootProfile,
        hash: Seq<u8>,
        start: int,
        at: int,
    ) -> bool {
        &&& 0 <= start < at - 1
        &&& self.events[start] matches RunEvent::Fetched { text } && hash == sha256_digest(
            encode_utf8(text@),
        )
        &&& self.events[start + 1] == (RunEvent::Parsed { profile })
    }
}

/// From a start without profiles on, the digest that is kept with the profiles that are
/// offered is that of the text that they were parsed from, the whole of it.
pub proof fn law_kept_digest_is_that_of_the_text(config: Config, course: Course, at: int)
    requires
        course.taken(config),
        course.offered[0] is None,
        course.phases[0] is Fetching || course.phases[0] is Idle,
        0 <= at <= course.events.len(),
    ensures
        course.offered[at] matches Some(state) ==> exists|start: int| #[trigger]
            course.read_at(*state.profile, state.hash@, start, at),
        course.phases[at] matches RunPhase::Parsing { hash } ==> at > 0 && (
        course.events[at - 1] matches RunEvent::Fetched { text } && hash@ == sha256_digest(
            encode_utf8(text@),
        )),
        course.phases[at] matches RunPhase::Preparing { profile, hash, .. } ==> exists|start: int|
            #[trigger] course.read_at(*profile, hash@, start, at),
    decreases at,
{
    if at > 0 {
        law_kept_digest_is_that_of_the_text(config, course, at - 1);
        assert(course.step_taken(config, at - 1));
        if let RunPhase::Preparing { profile, hash, .. } = course.phases[at - 1] {
            let found = choose|start: int| #[trigger]
                course.read_at(*profile, hash@, start, at - 1);
            assert(course.read_at(*profile, hash@, found, at));
        }
        if let RunPhase::Parsing { hash } = course.phases[at - 1] {
            if let RunEvent::Parsed { profile } = course.events[at - 1] {
                assert(course.read_at(profile, hash@, at - 2, at));
            }
        }
        if let Some(state) = course.offered[at] {
            if course.offered[at] == course.offered[at - 1] {
                let found = choose|start: int| #[trigger]
                    course.read_at(*state.profile, state.hash@, start, at - 1);
                assert(course.read_at(*state.profile, state.hash@, found, at));
            }
        }
    }
}

/// Whatever fails in an update, what is offered stays as it was, the log is told why, and
/// after ten seconds there is another update.
pub proof fn law_failed_update_is_tried_again(
    config: Config,
    before: Option<RootProfileState>,
    phase: RunPhase,
    event: RunEvent,
    after: Option<RootProfileState>,
    step: RunStep,
)
    requires
        phase_expects(phase, event),
        run_follows(config, before, phase, event, after, step),
        event is FetchFailed || event is ParseFailed || event is PrepareFailed,
    ensures
        after == before,
        step.phase is Idle,
        step.action matches RunAction::Pause { secs } && secs == 10,
        event matches RunEvent::FetchFailed { error } ==> (
        step.remark matches Some(RunRemark::FetchFailed { error: text }) && text@ == error@),
        event matches RunEvent::ParseFailed { error } ==> (
        step.remark matches Some(RunRemark::ParseFailed { error: text }) && text@ == error@),
        event matches RunEvent::PrepareFailed { error } ==> (
        step.remark matches Some(RunRemark::PreparationFailed { error: text }) && text@ == error@),
{
}

/// After a pause, what is offered is as it was, and the text of the profiles is downloaded
/// from its address into the working directory, with whatever digest it has.
pub proof fn law_update_starts_with_the_download(
    config: Config,
    before: Option<RootProfileState>,
    after: Option<RootProfileState>,
    step: RunStep,
)
    requires
        run_follows(config, before, RunPhase::Idle, RunEvent::Woken, after, step),
    ensures
        after == before,
        step.phase is Fetching,
        step.remark is None,
        step.action matches RunAction::Fetch { fetch, action } && {
            let base = config.working_directory@;
            let path = fetch.path@;
            let between = if base.len() == 0 || base.last() == '/' {
                0int
            } else {
                1int
            };
            &&& path.len() == base.len() + between + 17
            &&& path.take(base.len() as int) == base
            &&& between == 1 ==> path[base.len() as int] == '/'
            &&& path.skip(base.len() + between) == "root_profile.toml"@
            &&& fetch.url@ == "https://profiles.playground.flat.rs/root_profile.toml"@
            &&& fetch.sha256 is None
            &&& action matches FetchAction::Download { program, args } && program@ == "wget"@
                && args@.len() == 3 && args@[0]@ == "-O"@ && args@[1]@ == path + ".tmp"@
                && args@[2]@ == "https://profiles.playground.flat.rs/root_profile.toml"@
        },
{
    reveal_strlit("root_profile.toml");
    law_join_keeps_both_parts(config.working_directory@, "root_profile.toml"@);
    if let RunAction::Fetch { fetch, action } = step.action {
        law_download_is_written_next_to_its_place(
            root_profile_path(config),
            "https://profiles.playground.flat.rs/root_profile.toml"@,
            None,
            fetch,
            action,
        );
    }
}

/// When profiles were parsed, the first resource of the first of them is prepared; where
/// there are no profiles, there is nothing to prepare, and they are offered at once.
pub proof fn law_parsed_profiles_are_prepared(
    config: Config,
    before: Option<RootProfileState>,
    phase: RunPhase,
    profile: RootProfile,
    after: Option<RootProfileState>,
    step: RunStep,
)
    requires
        phase is Parsing,
        run_follows(config, before, phase, RunEvent::Parsed { profile }, after, step),
    ensures
        step.remark is None,
        if profile.profiles@.len() > 0 {
            &&& after == before
            &&& step.action matches RunAction::Prepare { resource } && match
                profile.profiles@[0].image {
                Image::Iso(iso) => resource == iso,
                Image::Multiboot { kernel, .. } => resource == kernel,
            }
            &&& step.phase matches RunPhase::Preparing { profile: kept, hash, index, part }
                && *kept == profile && hash@ == phase->Parsing_hash@ && index == 0 && part == 0
        } else {
            &&& after matches Some(state) && *state.profile == profile && state.hash@
                == phase->Parsing_hash@
            &&& step.phase is Idle
            &&& step.action matches RunAction::Pause { secs } && secs == 120
        },
{
    if profile.profiles@.len() > 0 {
        law_every_part_of_an_image_is_prepared(profile.profiles@[0].image);
    }
}

/// When a resource was prepared, the next one is: the ramdisk after its kernel, where there
/// is one, and else the first resource of the next profile. After the last resource of the
/// last profile, and at no other time, the profiles are offered, as they were parsed, and for
/// two minutes nothing is done.
pub proof fn law_prepared_resource_is_followed_by_the_next(
    config: Config,
    before: Option<RootProfileState>,
    phase: RunPhase,
    after: Option<RootProfileState>,
    step: RunStep,
)
    requires
        phase is Preparing,
        phase_valid(phase),
        run_follows(config, before, phase, RunEvent::Prepared, after, step),
    ensures
        step.remark is None,
        phase matches RunPhase::Preparing { profile, hash, index, part } && {
            let profiles = profile.profiles@;
            let ramdisk = if part == 0 {
                match profiles[index as int].image {
                    Image::Iso(_) => None,
                    Image::Multiboot { ramdisk, .. } => ramdisk,
                }
            } else {
                None
            };
            if ramdisk is Some || index + 1 < profiles.len() {
                &&& after == before
                &&& step.action matches RunAction::Prepare { resource } && match ramdisk {
                    Some(ramdisk) => resource == ramdisk,
                    None => match profiles[index + 1].image {
                        Image::Iso(iso) => resource == iso,
                        Image::Multiboot { kernel, .. } => resource == kernel,
                    },
                }
                &&& step.phase matches RunPhase::Preparing {
                    profile: kept,
                    hash: kept_hash,
                    index: next,
                    part: next_part,
                } && *kept == *profile && kept_hash@ == hash@ && if ramdisk is Some {
                    next == index && next_part == 1
                } else {
                    next == index + 1 && next_part == 0
                }
            } else {
                &&& after matches Some(state) && *state.profile == *profile && state.hash@ == hash@
                &&& step.phase is Idle
                &&& step.action matches RunAction::Pause { secs } && secs == 120
            }
        },
{
    if let RunPhase::Preparing { profile, index, .. } = phase {
        law_every_part_of_an_image_is_prepared(profile.profiles@[index as int].image);
        if index + 1 < profile.profiles@.len() {
            law_every_part_of_an_image_is_prepared(profile.profiles@[index + 1].image);
        }
    }
}

/// What is offered changes only when profiles were parsed or the last of their resources was
/// prepared.
pub proof fn law_nothing_else_changes_what_is_offered(
    config: Config,
    before: Option<RootProfileState>,
    phase: RunPhase,
    event: RunEvent,
    after: Option<RootProfileState>,
    step: RunStep,
)
    requires
        phase_expects(phase, event),
        run_follows(config, before, phase, event, after, step),
        after != before,
    ensures
        event is Parsed || event is Prepared,
        step.phase is Idle,
        after is Some,
{
}

/// Whatever comes of an action of an update, the update can be taken on with it.
pub proof fn law_every_outcome_of_an_update_is_taken(phase: RunPhase, event: RunEvent)
    ensures
        phase is Fetching && (event is Fetched || event is FetchFailed) ==> phase_expects(
            phase,
            event,
        ),
        phase is Parsing && (event is Parsed || event is ParseFailed) ==> phase_expects(
            phase,
            event,
        ),
        phase is Preparing && (event is Prepared || event is PrepareFailed) ==> phase_expects(
            phase,
            event,
        ),
        phase is Idle && event is Woken ==> phase_expects(phase, event),
        !(phase is Preparing) ==> phase_valid(phase),
        phase matches RunPhase::Preparing { profile, index, part, .. } ==> index
            < profile.profiles@.len() && (part == 0 || (part == 1 && (
        profile.profiles@[index as int].image matches Image::Multiboot { ramdisk, .. } && ramdisk
            is Some))) ==> phase_valid(phase),
{
    if let RunPhase::Preparing { profile, index, .. } = phase {
        if index < profile.profiles@.len() {
            law_every_part_of_an_image_is_prepared(profile.profiles@[index as int].image);
        }
    }
}

/// Among the resources of all profiles is every part of every image.
pub proof fn law_resources_are_those_of_every_profile(
    profiles: Seq<Profile>,
    start: int,
    index: int,
    part: int,
)
    requires
        0 <= start <= index < profiles.len(),
        0 <= part < image_resources(profiles[index].image).len(),
    ensures
        resources_from(profiles, start).contains(image_resources(profiles[index].image)[part]),
    decreases index - start,
{
    let first = image_resources(profiles[start].image);
    let rest = resources_from(profiles, start + 1);
    let resource = image_resources(profiles[index].image)[part];
    if start == index {
        assert((first + rest)[part] == resource);
    } else {
        law_resources_are_those_of_every_profile(profiles, start + 1, index, part);
        let at = choose|at: int| 0 <= at < rest.len() && rest[at] == resource;
        assert((first + rest)[first.len() + at] == resource);
    }
}

} // verus!
