//! What holds of a worker's sessions as a whole.

use std::sync::Arc;
use vstd::prelude::*;

use crate::config::{Config, RootProfile};
use crate::request::Request;
use crate::worker::{confirms, drops, fails, fresh_session, is_client_task,
    law_first_profile_is_taken, session_expects, waiting_after, work_expects, work_follows,
    worker_follows, ApiMessage, ApiPhase, ApiSession, ClientTask, WaitForResult, WorkAction,
    WorkEvent, WorkerAction, WorkerEvent, WorkerRemark, WorkerStep};

verus! {

/// The course of a session: where it stands and which requests are to be answered, before
/// each event and after the last; the profiles that are offered at each event; and the
/// steps that the events lead to.
pub struct Course {
    pub sessions: Seq<ApiSession>,
    pub waiting: Seq<Seq<WaitForResult>>,
    pub roots: Seq<Option<Arc<RootProfile>>>,
    pub events: Seq<WorkerEvent>,
    pub steps: Seq<WorkerStep>,
}

impl Course {
    /// Whether the event at `at` leads to the step at `at`.
    pub open spec fn step_taken(self, config: Config, at: int) -> bool {
        &&& session_expects(self.sessions[at].phase, self.events[at])
        &&& is_client_task(self.events[at]) ==> self.roots[at] is Some
        &&& worker_follows(
            config,
            self.waiting[at],
            self.sessions[at],
            self.events[at],
            self.roots[at],
            self.steps[at],
        )
        &&& self.waiting[at + 1] == waiting_after(
            self.waiting[at],
            self.sessions[at].phase,
            self.events[at],
        )
        &&& self.sessions[at + 1] == self.steps[at].session
    }

    /// Whether every event leads to its step.
    pub open spec fn taken(self, config: Config) -> bool {
        &&& self.sessions.len() == self.events.len() + 1
        &&& self.waiting.len() == self.events.len() + 1
        &&& self.roots.len() == self.events.len()
        &&& self.steps.len() == self.events.len()
        &&& forall|at: int|
            0 <= at < self.events.len() ==> #[trigger] self.step_taken(config, at)
    }

    /// The requests that are to be answered and were sent before the event at `at`, in the
    /// order in which they were sent.
    pub open spec fn sent(self, at: int) -> Seq<WaitForResult>
        decreases at,
    {
        if at <= 0 {
            Seq::empty()
        } else {
            match (self.sessions[at - 1].phase, self.events[at - 1]) {
                (ApiPhase::Sending { waits: Some(waits) }, WorkerEvent::Sent) => {
                    self.sent(at - 1).push(waits)
                },
                _ => self.sent(at - 1),
            }
        }
    }

    /// The requests that results before the event at `at` were taken to answer, in the
    /// order of the results.
    pub open spec fn answered(self, at: int) -> Seq<WaitForResult>
        decreases at,
    {
        if at <= 0 {
            Seq::empty()
        } else {
            match self.events[at - 1] {
                WorkerEvent::Message { message: ApiMessage::Result(_) } => {
                    if self.waiting[at - 1].len() > 0 {
                        self.answered(at - 1).push(self.waiting[at - 1][0])
                    } else {
                        self.answered(at - 1)
                    }
                },
                _ => self.answered(at - 1),
            }
        }
    }

    /// The capacity that was reported before the event at `at`, in all.
    pub open spec fn reported(self, at: int) -> int
        decreases at,
    {
        if at <= 0 {
            0
        } else {
            self.reported(at - 1) + (match self.steps[at - 1].action {
                WorkerAction::Send { request: Request::UpdateCapacity { diff } } => diff as int,
                _ => 0,
            })
        }
    }

    /// How many instances have ended before the event at `at`.
    pub open spec fn instances_ended(self, at: int) -> int
        decreases at,
    {
        if at <= 0 {
            0
        } else {
            self.instances_ended(at - 1) + (if self.events[at - 1] is InstanceEnded {
                1int
            } else {
                0int
            })
        }
    }
}

/// Whether `event` is the answer to a ping.
pub open spec fn is_pong(event: WorkerEvent) -> bool {
    event matches WorkerEvent::Message { message } && message is Pong
}

/// Results answer requests in the order in which the requests were sent: those that were
/// answered, followed by those that are to be, are those that were to be answered at first,
/// followed by those that were sent.
pub proof fn law_results_answer_in_order(config: Config, course: Course, at: int)
    requires
        course.taken(config),
        0 <= at <= course.events.len(),
    ensures
        course.waiting[0] + course.sent(at) == course.answered(at) + course.waiting[at],
    decreases at,
{
    if at == 0 {
        assert(course.waiting[0] + course.sent(0) =~= course.answered(0) + course.waiting[0]);
    } else {
        law_results_answer_in_order(config, course, at - 1);
        assert(course.step_taken(config, at - 1));
        let (before, after) = (course.waiting[at - 1], course.waiting[at]);
        match (course.sessions[at - 1].phase, course.events[at - 1]) {
            (ApiPhase::Sending { waits: Some(waits) }, WorkerEvent::Sent) => {
                assert(course.waiting[0] + course.sent(at) =~= (course.waiting[0] + course.sent(
                    at - 1,
                )).push(waits));
                assert(course.answered(at) + after =~= (course.answered(at - 1) + before).push(
                    waits,
                ));
            },
            (_, WorkerEvent::Message { message: ApiMessage::Result(_) }) => {
                if before.len() > 0 {
                    assert(course.answered(at) + after =~= course.answered(at - 1) + before);
                }
            },
            _ => {},
        }
    }
}

/// A ping is unanswered exactly when one was sent, for want of events, and no answer has
/// come since.
proof fn lemma_ping_unanswered(config: Config, course: Course, at: int)
    requires
        course.taken(config),
        course.sessions[0] == fresh_session(),
        0 <= at <= course.events.len(),
    ensures
        course.sessions[at].ping_sent <==> exists|k: int|
            0 <= k < at && (#[trigger] course.events[k]) is Quiet && forall|j: int|
                k < j < at ==> !is_pong(#[trigger] course.events[j]),
    decreases at,
{
    if at > 0 {
        lemma_ping_unanswered(config, course, at - 1);
        assert(course.step_taken(config, at - 1));
        let last = course.events[at - 1];
        if course.sessions[at].ping_sent {
            let k = if last is Quiet {
                at - 1
            } else {
                choose|k: int|
                    0 <= k < at - 1 && (#[trigger] course.events[k]) is Quiet && forall|j: int|
                        k < j < at - 1 ==> !is_pong(#[trigger] course.events[j])
            };
            assert(course.events[k] is Quiet);
            assert forall|j: int| k < j < at implies !is_pong(#[trigger] course.events[j]) by {
                if j == at - 1 {
                    assert(!is_pong(last));
                }
            }
        } else {
            assert forall|k: int|
                0 <= k < at && (#[trigger] course.events[k]) is Quiet implies exists|j: int|
                k < j < at && is_pong(#[trigger] course.events[j]) by {
                if is_pong(last) {
                    assert(is_pong(course.events[at - 1]));
                } else {
                    assert(!course.sessions[at - 1].ping_sent);
                    let j = choose|j: int|
                        k < j < at - 1 && is_pong(#[trigger] course.events[j]);
                    assert(is_pong(course.events[j]));
                }
            }
        }
    }
}

/// A session in which for a while nothing has happened fails exactly when there is a ping
/// that was not answered; otherwise a ping is sent.
pub proof fn law_silence_after_a_ping_ends_the_session(config: Config, course: Course, at: int)
    requires
        course.taken(config),
        course.sessions[0] == fresh_session(),
        0 <= at < course.events.len(),
        course.events[at] is Quiet,
    ensures
        ({
            let unanswered = exists|k: int|
                0 <= k < at && (#[trigger] course.events[k]) is Quiet && forall|j: int|
                    k < j < at ==> !is_pong(#[trigger] course.events[j]);
            &&& unanswered ==> fails(course.steps[at], "Ping timeout"@)
            &&& !unanswered ==> course.steps[at].action == (WorkerAction::Send {
                request: Request::Ping,
            })
        }),
{
    lemma_ping_unanswered(config, course, at);
    assert(course.step_taken(config, at));
}

/// Every client that wants a machine is answered: it is turned away at once, or its machine
/// is started, and what comes of that is the very next thing that the server is told.
pub proof fn law_every_client_is_answered(
    config: Config,
    course: Course,
    at: int,
    task: ClientTask,
)
    requires
        course.taken(config),
        0 <= at < course.events.len(),
        course.events[at] == (WorkerEvent::Message { message: ApiMessage::ClientTask(task) }),
    ensures
        match course.steps[at].action {
            WorkerAction::Send { request } => drops(request, task.id@),
            WorkerAction::StartInstance { id, .. } => {
                &&& id@ == task.id@
                &&& at + 1 < course.events.len() ==> (
                course.steps[at + 1].action matches WorkerAction::Send { request }
                    && match course.events[at + 1] {
                    WorkerEvent::Started => confirms(request, config, task.id@),
                    WorkerEvent::StartFailed { .. } => drops(request, task.id@),
                    _ => false,
                })
            },
            _ => false,
        },
{
    assert(course.step_taken(config, at));
    if at + 1 < course.events.len() {
        assert(course.step_taken(config, at + 1));
    }
}

/// What a session waits for is what it was told to do: it stands at the phase in which the
/// action's outcome is expected.
pub proof fn law_phase_fits_the_action(
    config: Config,
    waiting: Seq<WaitForResult>,
    session: ApiSession,
    event: WorkerEvent,
    root: Option<Arc<RootProfile>>,
    step: WorkerStep,
)
    requires
        session_expects(session.phase, event),
        worker_follows(config, waiting, session, event, root, step),
    ensures
        match step.action {
            WorkerAction::Listen { .. } => step.session.phase is Listening,
            WorkerAction::Send { .. } => step.session.phase is Sending,
            WorkerAction::StartInstance { .. } => step.session.phase is Starting,
            WorkerAction::Finish { .. } => step.session.phase is Ended,
        },
{
}

/// Nothing happens in a session that has ended.
pub proof fn law_ended_session_takes_nothing(config: Config, course: Course, at: int)
    requires
        course.taken(config),
        0 <= at <= course.events.len(),
        course.sessions[at].phase is Ended,
    ensures
        at == course.events.len(),
{
    if at < course.events.len() {
        assert(course.step_taken(config, at));
    }
}

/// The capacity that a session reports is what the configuration allows a worker, and one
/// for each instance that has ended.
pub proof fn law_capacity_is_reported(config: Config, course: Course, at: int)
    requires
        course.taken(config),
        course.sessions[0] == fresh_session(),
        course.events.len() > 0,
        course.events[0] is Connected,
        0 < at <= course.events.len(),
    ensures
        course.reported(at) == config.concurrency_per_worker + course.instances_ended(at),
        !(course.sessions[at].phase is Connecting),
    decreases at,
{
    assert(course.step_taken(config, at - 1));
    reveal_with_fuel(Course::reported, 2);
    reveal_with_fuel(Course::instances_ended, 2);
    if at > 1 {
        law_capacity_is_reported(config, course, at - 1);
    }
}

/// What a worker does from its start on: what has come of each thing it did, and what it
/// does then.
pub struct Life {
    pub events: Seq<WorkEvent>,
    pub actions: Seq<WorkAction>,
}

impl Life {
    /// Whether the event at `at` comes of the action before it, and leads to the action at
    /// `at`.
    pub open spec fn step_taken(self, at: int) -> bool {
        &&& if at == 0 {
            self.events[at] is Begun
        } else {
            work_expects(self.actions[at - 1], self.events[at])
        }
        &&& work_follows(self.events[at], self.actions[at])
    }

    /// Whether every event comes of the action before it, and leads to its action.
    pub open spec fn taken(self) -> bool {
        &&& self.actions.len() == self.events.len()
        &&& forall|at: int| 0 <= at < self.events.len() ==> #[trigger] self.step_taken(at)
    }
}

/// A worker takes the channel for the ends of instances once, before its first session.
pub proof fn law_channel_is_taken_once(life: Life, at: int)
    requires
        life.taken(),
        0 <= at < life.events.len(),
    ensures
        life.actions[at] is TakeChannel <==> at == 0,
        at == 1 ==> life.actions[at] is RunSession,
{
    assert(life.step_taken(at));
    if at > 0 {
        assert(life.step_taken(at - 1));
        assert(life.step_taken(0));
    }
}

/// After a session comes the next: at once where it has ended well, and after a pause of
/// one second where it has failed. There is no other pause.
pub proof fn law_session_follows_session(life: Life, at: int)
    requires
        life.taken(),
        0 < at < life.events.len(),
    ensures
        life.actions[at] is Pause <==> (life.events[at] matches WorkEvent::SessionEnded { result }
            && result is Err),
        life.actions[at] matches WorkAction::Pause { error, secs } ==> secs == 1
            && life.events[at] == (WorkEvent::SessionEnded { result: Err(error) }) && (at + 1
            < life.events.len() ==> life.actions[at + 1] is RunSession),
        !(life.actions[at] is Pause) ==> life.actions[at] is RunSession,
{
    assert(life.step_taken(at));
    assert(life.step_taken(at - 1));
    if at + 1 < life.events.len() {
        assert(life.step_taken(at + 1));
    }
}

/// Whether `courses` are sessions of one worker, one after the other: each begins afresh,
/// but with the requests that are to be answered since the one before it.
pub open spec fn in_succession(config: Config, courses: Seq<Course>) -> bool {
    &&& forall|k: int|
        0 <= k < courses.len() ==> (#[trigger] courses[k]).taken(config) && courses[k].sessions[0]
            == fresh_session()
    &&& forall|k: int|
        0 < k < courses.len() ==> (#[trigger] courses[k]).waiting[0] == courses[k
            - 1].waiting.last()
}

/// The requests that are to be answered and were sent in the first `count` sessions.
pub open spec fn sent_in(courses: Seq<Course>, count: int) -> Seq<WaitForResult>
    decreases count,
{
    if count <= 0 {
        Seq::empty()
    } else {
        sent_in(courses, count - 1) + courses[count - 1].sent(
            courses[count - 1].events.len() as int,
        )
    }
}

/// The requests that results in the first `count` sessions were taken to answer.
pub open spec fn answered_in(courses: Seq<Course>, count: int) -> Seq<WaitForResult>
    decreases count,
{
    if count <= 0 {
        Seq::empty()
    } else {
        answered_in(courses, count - 1) + courses[count - 1].answered(
            courses[count - 1].events.len() as int,
        )
    }
}

/// Requests that were not answered in one session are to be answered in the next: over any
/// number of sessions, results answer the requests in the order in which they were sent.
pub proof fn law_requests_outlive_the_session(config: Config, courses: Seq<Course>, count: int)
    requires
        in_succession(config, courses),
        0 < count <= courses.len(),
    ensures
        courses[0].waiting[0] + sent_in(courses, count) == answered_in(courses, count)
            + courses[count - 1].waiting.last(),
    decreases count,
{
    let last = courses[count - 1];
    let end = last.events.len() as int;
    assert(last.taken(config));
    law_results_answer_in_order(config, last, end);
    if count > 1 {
        law_requests_outlive_the_session(config, courses, count - 1);
        assert(last.waiting[0] == courses[count - 2].waiting.last());
    }
    let first = courses[0].waiting[0];
    let (sent, answered) = (sent_in(courses, count - 1), answered_in(courses, count - 1));
    if count == 1 {
        assert(first + sent =~= answered + last.waiting[0]);
    }
    assert(first + sent_in(courses, count) =~= (first + sent) + last.sent(end));
    assert((answered + last.waiting[0]) + last.sent(end) =~= answered + (last.waiting[0]
        + last.sent(end)));
    assert(answered + (last.answered(end) + last.waiting[end]) =~= answered_in(courses, count)
        + last.waiting[end]);
}

/// A session ends only for a reason: the server has closed the connection, or it could not be
/// made, read from or written to, or has brought what is no message, or there was silence
/// after a ping. Only in the first case has it ended well; otherwise it says what was wrong.
pub proof fn law_session_ends_only_for_a_reason(
    config: Config,
    waiting: Seq<WaitForResult>,
    session: ApiSession,
    event: WorkerEvent,
    root: Option<Arc<RootProfile>>,
    step: WorkerStep,
)
    requires
        session_expects(session.phase, event),
        worker_follows(config, waiting, session, event, root, step),
    ensures
        step.action is Finish <==> (event is Closed || event is ConnectFailed || event is Binary
            || event is ReadFailed || event is Undecodable || event is SendFailed || (
        event is Quiet && session.ping_sent)),
        step.session.phase is Ended <==> step.action is Finish,
        step.action matches WorkerAction::Finish { result } ==> match event {
            WorkerEvent::Closed => result is Ok,
            WorkerEvent::ConnectFailed { error } => result matches Err(text) && text@
                == "Cannot connect to server: "@ + error@,
            WorkerEvent::Binary => result matches Err(text) && text@
                == "unexpected binary message"@,
            WorkerEvent::ReadFailed { error } => result matches Err(text) && text@
                == "cannot read from websocket: "@ + error@,
            WorkerEvent::Undecodable { error } => result matches Err(text) && text@
                == "Cannot deserialize API message: "@ + error@,
            WorkerEvent::Quiet => result matches Err(text) && text@ == "Ping timeout"@,
            WorkerEvent::SendFailed { error } => result matches Err(text) && (
            session.phase matches ApiPhase::Sending { waits } && text@ == (match waits {
                Some(WaitForResult::ConfirmClient) => "confirm_client: cannot send message: "@,
                Some(WaitForResult::DropClient) => "drop_client: cannot send message: "@,
                Some(WaitForResult::UpdateCapacity) => "update_capacity: cannot send message: "@,
                None => "send_ping: cannot send message: "@,
            }) + error@),
            _ => false,
        },
{
    if let WorkerEvent::SendFailed { error } = event {
        if let ApiPhase::Sending { waits } = session.phase {
            reveal_strlit(": cannot send message: ");
            reveal_strlit("confirm_client");
            reveal_strlit("drop_client");
            reveal_strlit("update_capacity");
            reveal_strlit("send_ping");
            reveal_strlit("confirm_client: cannot send message: ");
            reveal_strlit("drop_client: cannot send message: ");
            reveal_strlit("update_capacity: cannot send message: ");
            reveal_strlit("send_ping: cannot send message: ");
            assert("confirm_client"@ + ": cannot send message: "@
                =~= "confirm_client: cannot send message: "@);
            assert("drop_client"@ + ": cannot send message: "@
                =~= "drop_client: cannot send message: "@);
            assert("update_capacity"@ + ": cannot send message: "@
                =~= "update_capacity: cannot send message: "@);
            assert("send_ping"@ + ": cannot send message: "@
                =~= "send_ping: cannot send message: "@);
        }
    }
}

/// A session goes on listening, for a minute at most, when a request was sent, whichever it
/// was; when a result or the answer to a ping has come; and when something has that carries
/// no message.
pub proof fn law_session_listens_again(
    config: Config,
    waiting: Seq<WaitForResult>,
    session: ApiSession,
    event: WorkerEvent,
    root: Option<Arc<RootProfile>>,
    step: WorkerStep,
)
    requires
        session_expects(session.phase, event),
        worker_follows(config, waiting, session, event, root, step),
    ensures
        step.action is Listen <==> (event is Sent || event is OtherFrame || (
        event matches WorkerEvent::Message { message } && (message is Pong || message is Result))),
        step.action matches WorkerAction::Listen { timeout_secs } ==> timeout_secs == 60
            && step.session.phase is Listening,
{
}

/// A client gets a machine with the profile that it has asked for, the first with that id;
/// it is turned away only if none of the profiles has it, and the log is told which. No
/// machine is started but for a client.
pub proof fn law_client_gets_the_profile_it_has_asked_for(
    config: Config,
    waiting: Seq<WaitForResult>,
    session: ApiSession,
    event: WorkerEvent,
    root: Option<Arc<RootProfile>>,
    step: WorkerStep,
)
    requires
        session_expects(session.phase, event),
        worker_follows(config, waiting, session, event, root, step),
    ensures
        event matches WorkerEvent::Message { message: ApiMessage::ClientTask(task) } ==> root is Some
            ==> {
            let profiles = root->0.profiles@;
            match step.action {
                WorkerAction::StartInstance { id, profile } => {
                    &&& id@ == task.id@
                    &&& profile < profiles.len()
                    &&& profiles[profile as int].id@ == task.profile@
                    &&& forall|i: int|
                        0 <= i < profile ==> (#[trigger] profiles[i]).id@ != task.profile@
                    &&& step.session.phase matches ApiPhase::Starting { id } && id@ == task.id@
                    &&& step.remark is None
                },
                WorkerAction::Send { request: Request::DropClient { client_id } } => {
                    &&& client_id@ == task.id@
                    &&& forall|i: int|
                        0 <= i < profiles.len() ==> (#[trigger] profiles[i]).id@ != task.profile@
                    &&& step.remark matches Some(WorkerRemark::ProfileNotFound { profile })
                        && profile@ == task.profile@
                },
                _ => false,
            }
        },
        step.action is StartInstance ==> (event matches WorkerEvent::Message { message }
            && message is ClientTask),
        step.session.phase is Starting ==> step.action is StartInstance,
{
    if let WorkerEvent::Message { message: ApiMessage::ClientTask(task) } = event {
        law_first_profile_is_taken(root->0.profiles@, task.profile@);
    }
}

/// What the server is told: the capacity that the configuration allows when the connection
/// was made, and one more when an instance has ended; where its client finds a machine when
/// it has started, under the public address and the id of the task; that the client gets none
/// when it has not; and a ping when it was quiet. The server is told nothing else.
pub proof fn law_server_is_told_what_has_happened(
    config: Config,
    waiting: Seq<WaitForResult>,
    session: ApiSession,
    event: WorkerEvent,
    root: Option<Arc<RootProfile>>,
    step: WorkerStep,
)
    requires
        session_expects(session.phase, event),
        worker_follows(config, waiting, session, event, root, step),
    ensures
        event is Connected ==> (
        step.action matches WorkerAction::Send { request: Request::UpdateCapacity { diff } } && diff
            == config.concurrency_per_worker),
        event is InstanceEnded ==> (
        step.action matches WorkerAction::Send { request: Request::UpdateCapacity { diff } } && diff
            == 1),
        event is Started ==> (session.phase matches ApiPhase::Starting { id } && (
        step.action matches WorkerAction::Send { request: Request::ConfirmClient { client_id, url } }
            && client_id@ == id@ && url@ == config.public_url@ + "/"@ + id@)),
        event is StartFailed ==> (session.phase matches ApiPhase::Starting { id } && (
        step.action matches WorkerAction::Send { request: Request::DropClient { client_id } }
            && client_id@ == id@)),
        event is Quiet && !session.ping_sent ==> step.action == (WorkerAction::Send {
            request: Request::Ping,
        }),
        step.action matches WorkerAction::Send { request } ==> match request {
            Request::UpdateCapacity { .. } => event is Connected || event is InstanceEnded,
            Request::ConfirmClient { .. } => event is Started,
            Request::DropClient { .. } => event is StartFailed || (
            event matches WorkerEvent::Message { message } && message is ClientTask),
            Request::Ping => event is Quiet,
        },
{
}

/// A request that was sent is to be answered as what it is; a ping is not answered by a
/// result.
pub proof fn law_request_is_answered_as_what_it_is(
    config: Config,
    waiting: Seq<WaitForResult>,
    session: ApiSession,
    event: WorkerEvent,
    root: Option<Arc<RootProfile>>,
    step: WorkerStep,
)
    requires
        session_expects(session.phase, event),
        worker_follows(config, waiting, session, event, root, step),
    ensures
        step.action matches WorkerAction::Send { request } ==> (
        step.session.phase matches ApiPhase::Sending { waits } && match request {
            Request::UpdateCapacity { .. } => waits == Some(WaitForResult::UpdateCapacity),
            Request::ConfirmClient { .. } => waits == Some(WaitForResult::ConfirmClient),
            Request::DropClient { .. } => waits == Some(WaitForResult::DropClient),
            Request::Ping => waits is None,
        }),
        step.session.phase is Sending ==> step.action is Send,
{
}

/// The requests that are to be answered: one that was sent comes last, a result takes away
/// the first, and nothing else changes them.
pub proof fn law_requests_wait_in_line(
    waiting: Seq<WaitForResult>,
    phase: ApiPhase,
    event: WorkerEvent,
)
    ensures
        ({
            let after = waiting_after(waiting, phase, event);
            let sent = event is Sent && (phase matches ApiPhase::Sending { waits } && waits is Some);
            let result = event matches WorkerEvent::Message { message } && message is Result;
            &&& sent ==> {
                &&& after.len() == waiting.len() + 1
                &&& forall|i: int| 0 <= i < waiting.len() ==> #[trigger] after[i] == waiting[i]
                &&& phase matches ApiPhase::Sending { waits } && Some(
                    after[waiting.len() as int],
                ) == waits
            }
            &&& result && waiting.len() > 0 ==> {
                &&& after.len() == waiting.len() - 1
                &&& forall|i: int| 0 <= i < after.len() ==> #[trigger] after[i] == waiting[i + 1]
            }
            &&& result && waiting.len() == 0 ==> after.len() == 0
            &&& !sent && !result ==> after == waiting
        }),
{
}

/// A ping is unanswered from the time it is sent for want of events until an answer comes,
/// and nothing else changes that.
pub proof fn law_ping_is_unanswered_until_the_answer(
    config: Config,
    waiting: Seq<WaitForResult>,
    session: ApiSession,
    event: WorkerEvent,
    root: Option<Arc<RootProfile>>,
    step: WorkerStep,
)
    requires
        session_expects(session.phase, event),
        worker_follows(config, waiting, session, event, root, step),
    ensures
        is_pong(event) ==> !step.session.ping_sent,
        event is Quiet ==> step.session.ping_sent,
        !is_pong(event) && !(event is Quiet) ==> step.session.ping_sent == session.ping_sent,
        is_pong(event) <==> (event matches WorkerEvent::Message { message } && message is Pong),
{
}

/// What the log is told: that the connection was made; of a result, the request that it
/// answers where that has failed, or that there is none; that a ping was answered that was
/// not sent; and why a client gets no machine. It is told nothing else.
pub proof fn law_log_is_told_what_is_amiss(
    config: Config,
    waiting: Seq<WaitForResult>,
    session: ApiSession,
    event: WorkerEvent,
    root: Option<Arc<RootProfile>>,
    step: WorkerStep,
)
    requires
        session_expects(session.phase, event),
        worker_follows(config, waiting, session, event, root, step),
    ensures
        event is Connected ==> step.remark == Some(WorkerRemark::Connected),
        event matches WorkerEvent::Message { message: ApiMessage::Result(result) } ==> {
            &&& waiting.len() == 0 ==> step.remark == Some(WorkerRemark::ResultWithoutRequest)
            &&& waiting.len() > 0 && result.status == 0 ==> step.remark is None
            &&& waiting.len() > 0 && result.status != 0 ==> (
            step.remark matches Some(WorkerRemark::RequestFailed { request, message }) && request
                == waiting[0] && message@ == result.message@)
        },
        is_pong(event) ==> (step.remark is None <==> session.ping_sent),
        is_pong(event) && !session.ping_sent ==> step.remark == Some(WorkerRemark::PongWithoutPing),
        event matches WorkerEvent::StartFailed { error } ==> (
        step.remark matches Some(WorkerRemark::CannotStart { error: text }) && text@ == error@),
        step.remark is Some ==> event is Connected || event is Message || event is StartFailed,
{
}

/// Whatever can happen in a session can be taken when it happens.
pub proof fn law_every_event_of_a_session_is_taken(phase: ApiPhase, event: WorkerEvent)
    ensures
        phase is Connecting && (event is Connected || event is ConnectFailed) ==> session_expects(
            phase,
            event,
        ),
        phase is Sending && (event is Sent || event is SendFailed) ==> session_expects(phase, event),
        phase is Starting && (event is Started || event is StartFailed) ==> session_expects(
            phase,
            event,
        ),
        phase is Listening && (event is Closed || event is Binary || event is OtherFrame
            || event is ReadFailed || event is Undecodable || event is Message
            || event is InstanceEnded || event is Quiet) ==> session_expects(phase, event),
{
}

/// A session begins with the connection, and without a ping.
pub proof fn law_session_begins_afresh()
    ensures
        !fresh_session().ping_sent,
        fresh_session().phase is Connecting,
{
}

/// In the course of a session, it ends only when the server has closed the connection, when
/// the connection has failed or has brought what is no message, or when it was quiet and a
/// ping was sent before and not answered since. After a request was sent, it listens.
pub proof fn law_course_ends_only_for_a_reason(config: Config, course: Course, at: int)
    requires
        course.taken(config),
        course.sessions[0] == fresh_session(),
        0 <= at < course.events.len(),
    ensures
        course.steps[at].action is Finish ==> match course.events[at] {
            WorkerEvent::Closed => true,
            WorkerEvent::ConnectFailed { .. } => true,
            WorkerEvent::Binary => true,
            WorkerEvent::ReadFailed { .. } => true,
            WorkerEvent::Undecodable { .. } => true,
            WorkerEvent::SendFailed { .. } => true,
            WorkerEvent::Quiet => exists|k: int|
                0 <= k < at && (#[trigger] course.events[k]) is Quiet && forall|j: int|
                    k < j < at ==> !is_pong(#[trigger] course.events[j]),
            _ => false,
        },
        course.events[at] is Sent ==> course.steps[at].action is Listen,
        at + 1 < course.events.len() ==> !(course.steps[at].action is Finish),
{
    assert(course.step_taken(config, at));
    law_session_ends_only_for_a_reason(
        config,
        course.waiting[at],
        course.sessions[at],
        course.events[at],
        course.roots[at],
        course.steps[at],
    );
    lemma_ping_unanswered(config, course, at);
    if at + 1 < course.events.len() {
        assert(course.step_taken(config, at + 1));
    }
}

/// A client for whom a machine is started has asked for its profile, and is told of no other
/// machine than its own: when it has started, the server is told the public address with the
/// id of the task behind it, and when it has not, that this client gets none.
pub proof fn law_client_is_told_of_its_own_machine(
    config: Config,
    course: Course,
    at: int,
    task: ClientTask,
)
    requires
        course.taken(config),
        0 <= at < course.events.len(),
        course.events[at] == (WorkerEvent::Message { message: ApiMessage::ClientTask(task) }),
        course.steps[at].action is StartInstance,
    ensures
        course.steps[at].action matches WorkerAction::StartInstance { id, profile } && {
            let profiles = course.roots[at]->0.profiles@;
            &&& id@ == task.id@
            &&& profile < profiles.len()
            &&& profiles[profile as int].id@ == task.profile@
            &&& forall|i: int|
                0 <= i < profile ==> (#[trigger] profiles[i]).id@ != task.profile@
        },
        at + 1 < course.events.len() ==> match course.events[at + 1] {
            WorkerEvent::Started => course.steps[at + 1].action matches WorkerAction::Send {
                request: Request::ConfirmClient { client_id, url },
            } && client_id@ == task.id@ && url@ == config.public_url@ + "/"@ + task.id@,
            WorkerEvent::StartFailed { .. } => {
                course.steps[at + 1].action matches WorkerAction::Send {
                    request: Request::DropClient { client_id },
                } && client_id@ == task.id@
            },
            _ => false,
        },
{
    assert(course.step_taken(config, at));
    assert(is_client_task(course.events[at]));
    law_client_gets_the_profile_it_has_asked_for(
        config,
        course.waiting[at],
        course.sessions[at],
        course.events[at],
        course.roots[at],
        course.steps[at],
    );
    if at + 1 < course.events.len() {
        assert(course.step_taken(config, at + 1));
    }
}

/// What comes of a worker's action leads to the next one.
pub proof fn law_worker_always_goes_on(event: WorkEvent, action: WorkAction)
    requires
        work_follows(event, action),
    ensures
        action is TakeChannel <==> event is Begun,
        action is Pause <==> (event matches WorkEvent::SessionEnded { result } && result is Err),
        action matches WorkAction::Pause { error, secs } ==> secs == 1 && (
        event matches WorkEvent::SessionEnded { result: Err(text) } && text@ == error@),
        action is RunSession <==> (event is ChannelTaken || event is Woken || (
        event matches WorkEvent::SessionEnded { result } && result is Ok)),
{
}

/// A client is dropped by its id, and confirmed by its id and the place of its machine: the
/// public address, a `/` and the id.
pub proof fn law_client_is_named_by_its_id(request: Request, config: Config, id: Seq<char>)
    ensures
        drops(request, id) <==> (request matches Request::DropClient { client_id } && client_id@
            == id),
        confirms(request, config, id) <==> (
        request matches Request::ConfirmClient { client_id, url } && client_id@ == id && url@
            == config.public_url@ + "/"@ + id),
{
}

/// Profiles have to be offered for the message of a client that wants a machine, and for
/// nothing else.
pub proof fn law_only_clients_need_profiles(event: WorkerEvent)
    ensures
        is_client_task(event) <==> (event matches WorkerEvent::Message { message }
            && message is ClientTask),
{
}

} // verus!
