//! A worker: it talks to the control server and has machines started for its clients.

use std::collections::VecDeque;
use std::sync::Arc;
use vstd::prelude::*;

use crate::config::{Config, Profile, RootProfile};
use crate::request::Request;
use crate::text::{concat2, concat3};

verus! {

/// The time, in seconds, for which a worker waits for something to happen.
pub const QUIET_SECS: u64 = 60;

/// The time, in seconds, after which a worker connects again when a session has failed.
pub const RECONNECT_SECS: u64 = 1;

/// A message of the control server.
#[derive(Debug)]
pub enum ApiMessage {
    ClientTask(ClientTask),
    Result(ResultMessage),
    Pong,
}

/// A client that wants a machine.
#[derive(Debug)]
pub struct ClientTask {
    pub id: String,
    pub profile: String,
}

/// The answer to a request.
#[derive(Debug)]
pub struct ResultMessage {
    pub status: i32,
    pub message: String,
}

/// A request that is to be answered.
#[derive(Clone, Copy, Debug, PartialEq, Eq, Structural)]
pub enum WaitForResult {
    ConfirmClient,
    DropClient,
    UpdateCapacity,
}

/// One worker.
#[derive(Debug)]
pub struct Worker {
    config: Arc<Config>,
    wfr: VecDeque<WaitForResult>,
}

/// What a session with the control server is about.
#[derive(Debug)]
pub enum ApiPhase {
    /// The connection is being made.
    Connecting,
    /// The worker waits for something to happen.
    Listening,
    /// A request is being sent; where it is to be answered, as which.
    Sending { waits: Option<WaitForResult> },
    /// The machine of a task is being started.
    Starting { id: String },
    /// The session is over.
    Ended,
}

/// A session with the control server.
#[derive(Debug)]
pub struct ApiSession {
    /// Whether a ping was sent and not answered.
    pub ping_sent: bool,
    pub phase: ApiPhase,
}

/// What has happened in a session. An error is given as it is printed for debugging, but
/// for that of a machine.
#[derive(Debug)]
pub enum WorkerEvent {
    Connected,
    ConnectFailed { error: String },
    /// The server has closed the connection.
    Closed,
    /// The server has sent bytes.
    Binary,
    /// The server has sent something that carries no message.
    OtherFrame,
    /// What the server sent could not be read.
    ReadFailed { error: String },
    /// What the server sent is no message.
    Undecodable { error: String },
    Message { message: ApiMessage },
    /// An instance has ended.
    InstanceEnded,
    /// For a while nothing has happened.
    Quiet,
    Sent,
    SendFailed { error: String },
    Started,
    StartFailed { error: String },
}

/// What to do next in a session.
#[derive(Debug)]
pub enum WorkerAction {
    /// Wait for something to happen, but not longer than `timeout_secs` seconds.
    Listen { timeout_secs: u64 },
    Send { request: Request },
    /// Start the machine of the task `id` with the profile at the index `profile`.
    StartInstance { id: String, profile: usize },
    /// End the session.
    Finish { result: Result<(), String> },
}

/// A remark for the log.
#[derive(Debug)]
pub enum WorkerRemark {
    Connected,
    PongWithoutPing,
    ResultWithoutRequest,
    RequestFailed { request: WaitForResult, message: String },
    ProfileNotFound { profile: String },
    CannotStart { error: String },
}

/// One step of a session: where it stands, what to do next, and a remark for the log where
/// there is one.
#[derive(Debug)]
pub struct WorkerStep {
    pub session: ApiSession,
    pub action: WorkerAction,
    pub remark: Option<WorkerRemark>,
}

/// What has come of the last thing that a worker did.
#[derive(Debug)]
pub enum WorkEvent {
    /// The worker has just been set up.
    Begun,
    /// The channel for the ends of instances was handed over.
    ChannelTaken,
    /// A session has ended.
    SessionEnded { result: Result<(), String> },
    /// The pause is over.
    Woken,
}

/// What a worker does next. There is always something.
#[derive(Debug)]
pub enum WorkAction {
    /// Take the channel for the ends of instances.
    TakeChannel,
    /// Begin a session, and carry it through to its end.
    RunSession,
    /// Print the error, then pause for a time.
    Pause { error: String, secs: u64 },
}

/// The index of the first profile with the id `id`.
pub open spec fn profile_index(profiles: Seq<Profile>, id: Seq<char>) -> Option<int>
    decreases profiles.len(),
{
    if profiles.len() == 0 {
        None
    } else if profile_index(profiles.drop_last(), id) is Some {
        profile_index(profiles.drop_last(), id)
    } else if profiles.last().id@ == id {
        Some(profiles.len() - 1)
    } else {
        None
    }
}

/// Of the profiles with an id the first one is taken, and there is none only if no profile
/// has that id.
pub proof fn law_first_profile_is_taken(profiles: Seq<Profile>, id: Seq<char>)
    ensures
        match profile_index(profiles, id) {
            Some(index) => {
                &&& 0 <= index < profiles.len()
                &&& profiles[index].id@ == id
                &&& forall|i: int| 0 <= i < index ==> (#[trigger] profiles[i]).id@ != id
            },
            None => forall|i: int| 0 <= i < profiles.len() ==> (#[trigger] profiles[i]).id@ != id,
        },
    decreases profiles.len(),
{
    if profiles.len() > 0 {
        let earlier = profiles.drop_last();
        law_first_profile_is_taken(earlier, id);
        assert(forall|i: int| 0 <= i < earlier.len() ==> profiles[i] == #[trigger] earlier[i]);
        assert forall|i: int|
            0 <= i < earlier.len() && earlier[i].id@ != id implies (#[trigger] profiles[i]).id@
            != id by {
            assert(profiles[i] == earlier[i]);
        }
    }
}

/// The index of the first profile with the id `id`.
pub fn find_profile(root: &RootProfile, id: &String) -> (index: Option<usize>)
    ensures
        match index {
            Some(index) => profile_index(root.profiles@, id@) == Some(index as int),
            None => profile_index(root.profiles@, id@) is None,
        },
{
    let ghost profiles = root.profiles@;
    let mut index: usize = 0;
    while index < root.profiles.len()
        invariant
            profiles == root.profiles@,
            index <= profiles.len(),
            profile_index(profiles.take(index as int), id@) is None,
        decreases profiles.len() - index,
    {
        assert(profiles.take(index + 1).drop_last() =~= profiles.take(index as int));
        if root.profiles[index].id == *id {
            proof {
                lemma_index_stays(profiles, id@, index + 1);
            }
            return Some(index);
        }
        index = index + 1;
    }
    assert(profiles.take(index as int) =~= profiles);
    None
}

/// A profile that is found among the first ones is found among all.
proof fn lemma_index_stays(profiles: Seq<Profile>, id: Seq<char>, count: int)
    requires
        0 <= count <= profiles.len(),
        profile_index(profiles.take(count), id) is Some,
    ensures
        profile_index(profiles, id) == profile_index(profiles.take(count), id),
    decreases profiles.len(),
{
    if count == profiles.len() {
        assert(profiles.take(count) =~= profiles);
    } else {
        assert(profiles.drop_last().take(count) =~= profiles.take(count));
        lemma_index_stays(profiles.drop_last(), id, count);
    }
}

/// The address at which a client finds the machine of the task `id`.
pub open spec fn client_url(config: Config, id: Seq<char>) -> Seq<char> {
    config.public_url@ + "/"@ + id
}

/// Whether `request` tells the server that the client with the id `id` gets no machine.
pub open spec fn drops(request: Request, id: Seq<char>) -> bool {
    request matches Request::DropClient { client_id } && client_id@ == id
}

/// Whether `request` tells the server where the client with the id `id` finds its machine.
pub open spec fn confirms(request: Request, config: Config, id: Seq<char>) -> bool {
    request matches Request::ConfirmClient { client_id, url } && client_id@ == id && url@
        == client_url(config, id)
}

/// How a request that is to be answered as `waits` is called.
pub open spec fn request_name(waits: Option<WaitForResult>) -> Seq<char> {
    match waits {
        Some(WaitForResult::ConfirmClient) => "confirm_client"@,
        Some(WaitForResult::DropClient) => "drop_client"@,
        Some(WaitForResult::UpdateCapacity) => "update_capacity"@,
        None => "send_ping"@,
    }
}

/// Whether `event` can happen in `phase`.
pub open spec fn session_expects(phase: ApiPhase, event: WorkerEvent) -> bool {
    match event {
        WorkerEvent::Connected => phase is Connecting,
        WorkerEvent::ConnectFailed { .. } => phase is Connecting,
        WorkerEvent::Sent => phase is Sending,
        WorkerEvent::SendFailed { .. } => phase is Sending,
        WorkerEvent::Started => phase is Starting,
        WorkerEvent::StartFailed { .. } => phase is Starting,
        _ => phase is Listening,
    }
}

/// Whether `event` is the message of a client that wants a machine.
pub open spec fn is_client_task(event: WorkerEvent) -> bool {
    event matches WorkerEvent::Message { message } && message is ClientTask
}

/// The requests that are to be answered, in the order in which they were sent, after
/// `event`.
pub open spec fn waiting_after(
    waiting: Seq<WaitForResult>,
    phase: ApiPhase,
    event: WorkerEvent,
) -> Seq<WaitForResult> {
    match (phase, event) {
        (ApiPhase::Sending { waits: Some(waits) }, WorkerEvent::Sent) => waiting.push(waits),
        (_, WorkerEvent::Message { message: ApiMessage::Result(_) }) => if waiting.len() > 0 {
            waiting.skip(1)
        } else {
            waiting
        },
        _ => waiting,
    }
}

/// Whether a ping is unanswered after `event`.
pub open spec fn ping_after(ping_sent: bool, event: WorkerEvent) -> bool {
    match event {
        WorkerEvent::Message { message: ApiMessage::Pong } => false,
        WorkerEvent::Quiet => true,
        _ => ping_sent,
    }
}

/// Whether `step` waits for something to happen.
pub open spec fn listens(step: WorkerStep) -> bool {
    &&& step.session.phase is Listening
    &&& step.action == (WorkerAction::Listen { timeout_secs: QUIET_SECS })
}

/// Whether `step` sends a request that is to be answered as `waits`.
pub open spec fn sends(step: WorkerStep, waits: Option<WaitForResult>) -> bool {
    &&& step.session.phase == (ApiPhase::Sending { waits })
    &&& step.action is Send
}

/// Whether `step` ends the session with `error`.
pub open spec fn fails(step: WorkerStep, error: Seq<char>) -> bool {
    &&& step.session.phase is Ended
    &&& step.action matches WorkerAction::Finish { result: Err(text) } && text@ == error
}

/// Whether `step` makes no remark.
pub open spec fn silent(step: WorkerStep) -> bool {
    step.remark is None
}

/// Whether a session at `session` goes on with `step` after `event`, when `waiting` are the
/// requests that are to be answered and `root` are the profiles that are offered.
pub open spec fn worker_follows(
    config: Config,
    waiting: Seq<WaitForResult>,
    session: ApiSession,
    event: WorkerEvent,
    root: Option<Arc<RootProfile>>,
    step: WorkerStep,
) -> bool {
    &&& step.session.ping_sent == ping_after(session.ping_sent, event)
    &&& match event {
        WorkerEvent::ConnectFailed { error } => {
            &&& silent(step)
            &&& fails(step, "Cannot connect to server: "@ + error@)
        },
        WorkerEvent::Connected => {
            &&& step.remark == Some(WorkerRemark::Connected)
            &&& sends(step, Some(WaitForResult::UpdateCapacity))
            &&& step.action == (WorkerAction::Send {
                request: Request::UpdateCapacity { diff: config.concurrency_per_worker as i64 },
            })
        },
        WorkerEvent::Closed => {
            &&& silent(step)
            &&& step.session.phase is Ended
            &&& step.action == (WorkerAction::Finish { result: Ok(()) })
        },
        WorkerEvent::Binary => silent(step) && fails(step, "unexpected binary message"@),
        WorkerEvent::OtherFrame => silent(step) && listens(step),
        WorkerEvent::ReadFailed { error } => {
            &&& silent(step)
            &&& fails(step, "cannot read from websocket: "@ + error@)
        },
        WorkerEvent::Undecodable { error } => {
            &&& silent(step)
            &&& fails(step, "Cannot deserialize API message: "@ + error@)
        },
        WorkerEvent::Message { message: ApiMessage::Pong } => {
            &&& listens(step)
            &&& step.remark == (if session.ping_sent {
                None
            } else {
                Some(WorkerRemark::PongWithoutPing)
            })
        },
        WorkerEvent::Message { message: ApiMessage::Result(result) } => {
            &&& listens(step)
            &&& step.remark == (if waiting.len() == 0 {
                Some(WorkerRemark::ResultWithoutRequest)
            } else if result.status != 0 {
                Some(
                    WorkerRemark::RequestFailed { request: waiting[0], message: result.message },
                )
            } else {
                None
            })
        },
        WorkerEvent::Message { message: ApiMessage::ClientTask(task) } => {
            match profile_index(root->0.profiles@, task.profile@) {
                Some(index) => {
                    &&& silent(step)
                    &&& step.session.phase matches ApiPhase::Starting { id } && id@ == task.id@
                    &&& step.action matches WorkerAction::StartInstance { id, profile } && id@
                        == task.id@ && profile == index
                },
                None => {
                    &&& step.remark == Some(
                        WorkerRemark::ProfileNotFound { profile: task.profile },
                    )
                    &&& sends(step, Some(WaitForResult::DropClient))
                    &&& step.action matches WorkerAction::Send { request } && drops(
                        request,
                        task.id@,
                    )
                },
            }
        },
        WorkerEvent::InstanceEnded => {
            &&& silent(step)
            &&& sends(step, Some(WaitForResult::UpdateCapacity))
            &&& step.action == (WorkerAction::Send { request: Request::UpdateCapacity { diff: 1 } })
        },
        WorkerEvent::Quiet => {
            &&& silent(step)
            &&& if session.ping_sent {
                fails(step, "Ping timeout"@)
            } else {
                &&& sends(step, None)
                &&& step.action == (WorkerAction::Send { request: Request::Ping })
            }
        },
        WorkerEvent::Sent => silent(step) && listens(step),
        WorkerEvent::SendFailed { error } => {
            &&& silent(step)
            &&& session.phase matches ApiPhase::Sending { waits } && fails(
                step,
                request_name(waits) + ": cannot send message: "@ + error@,
            )
        },
        WorkerEvent::Started => {
            &&& silent(step)
            &&& sends(step, Some(WaitForResult::ConfirmClient))
            &&& session.phase matches ApiPhase::Starting { id } && (
            step.action matches WorkerAction::Send { request } && confirms(request, config, id@))
        },
        WorkerEvent::StartFailed { error } => {
            &&& step.remark == Some(WorkerRemark::CannotStart { error })
            &&& sends(step, Some(WaitForResult::DropClient))
            &&& session.phase matches ApiPhase::Starting { id } && (
            step.action matches WorkerAction::Send { request } && drops(request, id@))
        },
    }
}

/// Whether `action` is what a worker does after `event`.
pub open spec fn work_follows(event: WorkEvent, action: WorkAction) -> bool {
    match event {
        WorkEvent::Begun => action == WorkAction::TakeChannel,
        WorkEvent::ChannelTaken => action == WorkAction::RunSession,
        WorkEvent::SessionEnded { result: Ok(_) } => action == WorkAction::RunSession,
        WorkEvent::SessionEnded { result: Err(error) } => action == (WorkAction::Pause {
            error,
            secs: RECONNECT_SECS,
        }),
        WorkEvent::Woken => action == WorkAction::RunSession,
    }
}

/// Whether `event` can be what comes of `action`.
pub open spec fn work_expects(action: WorkAction, event: WorkEvent) -> bool {
    match action {
        WorkAction::TakeChannel => event is ChannelTaken,
        WorkAction::RunSession => event is SessionEnded,
        WorkAction::Pause { .. } => event is Woken,
    }
}

/// A session that has just begun.
pub open spec fn fresh_session() -> ApiSession {
    ApiSession { ping_sent: false, phase: ApiPhase::Connecting }
}

/// A step that sends `request`, which is to be answered as `waits`.
fn send_step(
    ping_sent: bool,
    waits: Option<WaitForResult>,
    request: Request,
    remark: Option<WorkerRemark>,
) -> (step: WorkerStep)
    ensures
        step.session.ping_sent == ping_sent,
        sends(step, waits),
        step.action == (WorkerAction::Send { request }),
        step.remark == remark,
{
    WorkerStep {
        session: ApiSession { ping_sent, phase: ApiPhase::Sending { waits } },
        action: WorkerAction::Send { request },
        remark,
    }
}

/// A step that waits for something to happen.
fn listen_step(ping_sent: bool, remark: Option<WorkerRemark>) -> (step: WorkerStep)
    ensures
        step.session.ping_sent == ping_sent,
        listens(step),
        step.remark == remark,
{
    WorkerStep {
        session: ApiSession { ping_sent, phase: ApiPhase::Listening },
        action: WorkerAction::Listen { timeout_secs: QUIET_SECS },
        remark,
    }
}

/// A step that ends the session.
fn finish_step(ping_sent: bool, result: Result<(), String>) -> (step: WorkerStep)
    ensures
        step.session.ping_sent == ping_sent,
        step.session.phase is Ended,
        step.action == (WorkerAction::Finish { result }),
        silent(step),
{
    WorkerStep {
        session: ApiSession { ping_sent, phase: ApiPhase::Ended },
        action: WorkerAction::Finish { result },
        remark: None,
    }
}

/// How a request that is to be answered as `waits` is called.
fn name_of_request(waits: Option<WaitForResult>) -> (name: &'static str)
    ensures
        name@ == request_name(waits),
{
    match waits {
        Some(WaitForResult::ConfirmClient) => "confirm_client",
        Some(WaitForResult::DropClient) => "drop_client",
        Some(WaitForResult::UpdateCapacity) => "update_capacity",
        None => "send_ping",
    }
}

impl Worker {
    /// The configuration.
    pub closed spec fn spec_config(&self) -> Config {
        *self.config
    }

    /// The requests that are to be answered, in the order in which they were sent.
    pub closed spec fn waiting(&self) -> Seq<WaitForResult> {
        self.wfr@
    }

    /// A worker that has sent nothing yet.
    pub fn new(config: Arc<Config>) -> (worker: Worker)
        ensures
            worker.spec_config() == *config,
            worker.waiting().len() == 0,
    {
        Worker { config, wfr: VecDeque::new() }
    }

    /// The request that tells the server that the worker can take `diff` more clients.
    pub fn update_capacity(&self, diff: i64) -> (request: Request)
        ensures
            request == (Request::UpdateCapacity { diff }),
    {
        Request::UpdateCapacity { diff }
    }

    /// The request that tells the server that the client `id` gets no machine.
    pub fn drop_client(&self, id: &str) -> (request: Request)
        ensures
            drops(request, id@),
    {
        Request::DropClient { client_id: id.to_owned() }
    }

    /// The request that tells the server where the client `id` finds its machine.
    pub fn confirm_client(&self, id: &str) -> (request: Request)
        ensures
            confirms(request, self.spec_config(), id@),
    {
        Request::ConfirmClient {
            client_id: id.to_owned(),
            url: concat3(&self.config.public_url, "/", id),
        }
    }

    /// The request for a sign of life.
    pub fn send_ping(&self) -> (request: Request)
        ensures
            request == Request::Ping,
    {
        Request::Ping
    }

    /// Begins a session.
    pub fn begin_session(&self) -> (session: ApiSession)
        ensures
            session == fresh_session(),
    {
        ApiSession { ping_sent: false, phase: ApiPhase::Connecting }
    }

    /// Takes a message of the server.
    fn take_message(
        &mut self,
        ping_sent: bool,
        message: ApiMessage,
        root: &Option<Arc<RootProfile>>,
    ) -> (step: WorkerStep)
        requires
            message is ClientTask ==> *root is Some,
        ensures
            final(self).spec_config() == old(self).spec_config(),
            final(self).waiting() == waiting_after(
                old(self).waiting(),
                ApiPhase::Listening,
                WorkerEvent::Message { message },
            ),
            worker_follows(
                old(self).spec_config(),
                old(self).waiting(),
                (ApiSession { ping_sent, phase: ApiPhase::Listening }),
                WorkerEvent::Message { message },
                *root,
                step,
            ),
    {
        match message {
            ApiMessage::Pong => {
                let remark = if ping_sent {
                    None
                } else {
                    Some(WorkerRemark::PongWithoutPing)
                };
                listen_step(false, remark)
            },
            ApiMessage::Result(result) => {
                let remark = match self.wfr.pop_front() {
                    None => Some(WorkerRemark::ResultWithoutRequest),
                    Some(request) => if result.status != 0 {
                        Some(WorkerRemark::RequestFailed { request, message: result.message })
                    } else {
                        None
                    },
                };
                listen_step(ping_sent, remark)
            },
            ApiMessage::ClientTask(task) => match root {
                Some(root) => {
                    match find_profile(root, &task.profile) {
                        Some(profile) => WorkerStep {
                            session: ApiSession {
                                ping_sent,
                                phase: ApiPhase::Starting { id: task.id.clone() },
                            },
                            action: WorkerAction::StartInstance { id: task.id, profile },
                            remark: None,
                        },
                        None => send_step(
                            ping_sent,
                            Some(WaitForResult::DropClient),
                            self.drop_client(&task.id),
                            Some(WorkerRemark::ProfileNotFound { profile: task.profile }),
                        ),
                    }
                },
                None => finish_step(ping_sent, Ok(())),
            },
        }
    }

    /// Takes a session on after `event`. `root` are the profiles that are offered; there
    /// have to be some by the time a client wants a machine.
    pub fn run_once(
        &mut self,
        session: ApiSession,
        event: WorkerEvent,
        root: &Option<Arc<RootProfile>>,
    ) -> (step: WorkerStep)
        requires
            session_expects(session.phase, event),
            is_client_task(event) ==> *root is Some,
        ensures
            final(self).spec_config() == old(self).spec_config(),
            final(self).waiting() == waiting_after(old(self).waiting(), session.phase, event),
            worker_follows(
                old(self).spec_config(),
                old(self).waiting(),
                session,
                event,
                *root,
                step,
            ),
    {
        let ping_sent = session.ping_sent;
        match event {
            WorkerEvent::ConnectFailed { error } => {
                finish_step(ping_sent, Err(concat2("Cannot connect to server: ", &error)))
            },
            WorkerEvent::Connected => {
                let request = self.update_capacity(self.config.concurrency_per_worker as i64);
                send_step(
                    ping_sent,
                    Some(WaitForResult::UpdateCapacity),
                    request,
                    Some(WorkerRemark::Connected),
                )
            },
            WorkerEvent::Closed => finish_step(ping_sent, Ok(())),
            WorkerEvent::Binary => {
                finish_step(ping_sent, Err("unexpected binary message".to_owned()))
            },
            WorkerEvent::OtherFrame => listen_step(ping_sent, None),
            WorkerEvent::ReadFailed { error } => {
                finish_step(ping_sent, Err(concat2("cannot read from websocket: ", &error)))
            },
            WorkerEvent::Undecodable { error } => {
                finish_step(ping_sent, Err(concat2("Cannot deserialize API message: ", &error)))
            },
            WorkerEvent::Message { message } => self.take_message(ping_sent, message, root),
            WorkerEvent::InstanceEnded => {
                let request = self.update_capacity(1);
                send_step(ping_sent, Some(WaitForResult::UpdateCapacity), request, None)
            },
            WorkerEvent::Quiet => {
                if ping_sent {
                    finish_step(true, Err("Ping timeout".to_owned()))
                } else {
                    send_step(true, None, self.send_ping(), None)
                }
            },
            WorkerEvent::Sent => {
                if let ApiPhase::Sending { waits: Some(waits) } = session.phase {
                    self.wfr.push_back(waits);
                }
                listen_step(ping_sent, None)
            },
            WorkerEvent::SendFailed { error } => {
                let name = match session.phase {
                    ApiPhase::Sending { waits } => name_of_request(waits),
                    _ => "",
                };
                finish_step(ping_sent, Err(concat3(name, ": cannot send message: ", &error)))
            },
            WorkerEvent::Started => {
                let id: String = match session.phase {
                    ApiPhase::Starting { id } => id,
                    _ => String::new(),
                };
                let request = self.confirm_client(&id);
                send_step(ping_sent, Some(WaitForResult::ConfirmClient), request, None)
            },
            WorkerEvent::StartFailed { error } => {
                let id: String = match session.phase {
                    ApiPhase::Starting { id } => id,
                    _ => String::new(),
                };
                let request = self.drop_client(&id);
                send_step(
                    ping_sent,
                    Some(WaitForResult::DropClient),
                    request,
                    Some(WorkerRemark::CannotStart { error }),
                )
            },
        }
    }

    /// What the worker does after `event`: it takes the channel for the ends of instances,
    /// and then has session after session, with a pause after each that has failed.
    pub fn run(&self, event: WorkEvent) -> (action: WorkAction)
        ensures
            work_follows(event, action),
    {
        match event {
            WorkEvent::Begun => WorkAction::TakeChannel,
            WorkEvent::ChannelTaken => WorkAction::RunSession,
            WorkEvent::SessionEnded { result } => match result {
                Ok(_) => WorkAction::RunSession,
                Err(error) => WorkAction::Pause { error, secs: RECONNECT_SECS },
            },
            WorkEvent::Woken => WorkAction::RunSession,
        }
    }
}

} // verus!
