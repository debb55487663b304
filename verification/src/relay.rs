//! The traffic between a client and its machine.

use vstd::prelude::*;

verus! {

/// The size of the buffer for what the machine sends.
pub const RELAY_BUFFER_LEN: usize = 16384;

/// What happens to an instance when its client leaves.
#[derive(Clone, Copy, Debug, PartialEq, Eq, Structural)]
pub enum ConnEndAction {
    KillInstance,
    PreserveInstance,
}

/// What has happened on the way between a client and its machine. An error is given as it
/// is printed for debugging.
#[derive(Debug)]
pub enum RelayEvent {
    /// The machine's socket could not be opened.
    QemuConnectFailed { error: String },
    /// The machine's socket is open.
    QemuConnected,
    /// The client has closed the connection.
    ClientClosed,
    /// The client has sent bytes.
    ClientBinary { data: Vec<u8> },
    /// The client has sent text.
    ClientText,
    /// The client has sent something that carries no data.
    ClientOther,
    /// The client's message could not be read.
    ClientReadFailed { error: String },
    /// The machine has taken what it was sent.
    QemuWritten,
    /// The machine could not be sent anything.
    QemuWriteFailed { error: String },
    /// The machine has sent the first `len` bytes of `buffer`.
    QemuRead { buffer: Vec<u8>, len: usize },
    /// What the machine sent could not be read.
    QemuReadFailed { error: String },
    /// The client has taken what it was sent.
    ClientSent,
    /// The client could not be sent anything.
    ClientSendFailed { error: String },
}

/// What to do next between a client and its machine.
#[derive(Debug)]
pub enum RelayAction {
    /// Wait until the client or the machine sends something. What the machine sends is read
    /// into a buffer of `buffer_len` bytes.
    Wait { buffer_len: usize },
    /// Send bytes to the machine.
    WriteQemu { data: Vec<u8> },
    /// Send bytes to the client.
    SendClient { data: Vec<u8> },
    /// Stop, with a remark for the log where there is one.
    End { action: ConnEndAction, remark: Option<RelayRemark> },
}

/// A remark for the log on why the traffic has stopped.
#[derive(Debug)]
pub enum RelayRemark {
    CannotConnect { error: String },
    CannotWrite { error: String },
    TextNotSupported,
    ReadFailed { error: String },
    QemuReadFailed { error: String },
    SendFailed { error: String },
}

/// Whether `event` can be what is reported: a read fills no more than the buffer.
pub open spec fn relay_event_valid(event: RelayEvent) -> bool {
    event matches RelayEvent::QemuRead { buffer, len } ==> len <= buffer@.len()
}

/// Whether `action` waits, with a buffer of the usual size.
pub open spec fn waits(action: RelayAction) -> bool {
    action == (RelayAction::Wait { buffer_len: RELAY_BUFFER_LEN })
}

/// Whether `action` is what to do after `event`.
pub open spec fn relay_follows(event: RelayEvent, action: RelayAction) -> bool {
    match event {
        RelayEvent::QemuConnectFailed { error } => action == (RelayAction::End {
            action: ConnEndAction::KillInstance,
            remark: Some(RelayRemark::CannotConnect { error }),
        }),
        RelayEvent::QemuConnected => waits(action),
        RelayEvent::ClientClosed => action == (RelayAction::End {
            action: ConnEndAction::PreserveInstance,
            remark: None,
        }),
        RelayEvent::ClientBinary { data } => action == (RelayAction::WriteQemu { data }),
        RelayEvent::ClientText => action == (RelayAction::End {
            action: ConnEndAction::PreserveInstance,
            remark: Some(RelayRemark::TextNotSupported),
        }),
        RelayEvent::ClientOther => waits(action),
        RelayEvent::ClientReadFailed { error } => action == (RelayAction::End {
            action: ConnEndAction::PreserveInstance,
            remark: Some(RelayRemark::ReadFailed { error }),
        }),
        RelayEvent::QemuWritten => waits(action),
        RelayEvent::QemuWriteFailed { error } => action == (RelayAction::End {
            action: ConnEndAction::KillInstance,
            remark: Some(RelayRemark::CannotWrite { error }),
        }),
        RelayEvent::QemuRead { buffer, len } => if len == 0 {
            action == (RelayAction::End { action: ConnEndAction::KillInstance, remark: None })
        } else {
            action matches RelayAction::SendClient { data } && data@ == buffer@.take(len as int)
        },
        RelayEvent::QemuReadFailed { error } => action == (RelayAction::End {
            action: ConnEndAction::KillInstance,
            remark: Some(RelayRemark::QemuReadFailed { error }),
        }),
        RelayEvent::ClientSent => waits(action),
        RelayEvent::ClientSendFailed { error } => action == (RelayAction::End {
            action: ConnEndAction::PreserveInstance,
            remark: Some(RelayRemark::SendFailed { error }),
        }),
    }
}

/// What to do between a client and its machine after `event`.
pub fn relay_step(event: RelayEvent) -> (action: RelayAction)
    requires
        relay_event_valid(event),
    ensures
        relay_follows(event, action),
{
    match event {
        RelayEvent::QemuConnectFailed { error } => RelayAction::End {
            action: ConnEndAction::KillInstance,
            remark: Some(RelayRemark::CannotConnect { error }),
        },
        RelayEvent::QemuConnected => RelayAction::Wait { buffer_len: RELAY_BUFFER_LEN },
        RelayEvent::ClientClosed => RelayAction::End {
            action: ConnEndAction::PreserveInstance,
            remark: None,
        },
        RelayEvent::ClientBinary { data } => RelayAction::WriteQemu { data },
        RelayEvent::ClientText => RelayAction::End {
            action: ConnEndAction::PreserveInstance,
            remark: Some(RelayRemark::TextNotSupported),
        },
        RelayEvent::ClientOther => RelayAction::Wait { buffer_len: RELAY_BUFFER_LEN },
        RelayEvent::ClientReadFailed { error } => RelayAction::End {
            action: ConnEndAction::PreserveInstance,
            remark: Some(RelayRemark::ReadFailed { error }),
        },
        RelayEvent::QemuWritten => RelayAction::Wait { buffer_len: RELAY_BUFFER_LEN },
        RelayEvent::QemuWriteFailed { error } => RelayAction::End {
            action: ConnEndAction::KillInstance,
            remark: Some(RelayRemark::CannotWrite { error }),
        },
        RelayEvent::QemuRead { buffer, len } => {
            if len == 0 {
                return RelayAction::End { action: ConnEndAction::KillInstance, remark: None };
            }
            let mut data = buffer;
            data.truncate(len);
            RelayAction::SendClient { data }
        },
        RelayEvent::QemuReadFailed { error } => RelayAction::End {
            action: ConnEndAction::KillInstance,
            remark: Some(RelayRemark::QemuReadFailed { error }),
        },
        RelayEvent::ClientSent => RelayAction::Wait { buffer_len: RELAY_BUFFER_LEN },
        RelayEvent::ClientSendFailed { error } => RelayAction::End {
            action: ConnEndAction::PreserveInstance,
            remark: Some(RelayRemark::SendFailed { error }),
        },
    }
}

/// Whether `event` says that the machine is lost: its socket cannot be used, or it has
/// closed it.
pub open spec fn machine_is_lost(event: RelayEvent) -> bool {
    match event {
        RelayEvent::QemuConnectFailed { .. } => true,
        RelayEvent::QemuWriteFailed { .. } => true,
        RelayEvent::QemuReadFailed { .. } => true,
        RelayEvent::QemuRead { len, .. } => len == 0,
        _ => false,
    }
}

/// Whether `event` says that the client is lost: it has left, cannot be reached, or sends
/// what it must not.
pub open spec fn client_is_lost(event: RelayEvent) -> bool {
    match event {
        RelayEvent::ClientClosed => true,
        RelayEvent::ClientText => true,
        RelayEvent::ClientReadFailed { .. } => true,
        RelayEvent::ClientSendFailed { .. } => true,
        _ => false,
    }
}

/// An instance is killed exactly when its machine is lost, and preserved exactly when its
/// client is lost; in every other case the traffic goes on.
pub proof fn law_relay_ends_with_the_side_that_is_lost(event: RelayEvent, action: RelayAction)
    requires
        relay_follows(event, action),
    ensures
        machine_is_lost(event) <==> (action matches RelayAction::End { action, .. } && action
            == ConnEndAction::KillInstance),
        client_is_lost(event) <==> (action matches RelayAction::End { action, .. } && action
            == ConnEndAction::PreserveInstance),
{
}

/// The bytes that the client sent, over a run of events.
pub open spec fn from_client(events: Seq<RelayEvent>) -> Seq<u8>
    decreases events.len(),
{
    if events.len() == 0 {
        Seq::empty()
    } else {
        from_client(events.drop_last()) + (match events.last() {
            RelayEvent::ClientBinary { data } => data@,
            _ => Seq::empty(),
        })
    }
}

/// The bytes that the machine sent, over a run of events.
pub open spec fn from_machine(events: Seq<RelayEvent>) -> Seq<u8>
    decreases events.len(),
{
    if events.len() == 0 {
        Seq::empty()
    } else {
        from_machine(events.drop_last()) + (match events.last() {
            RelayEvent::QemuRead { buffer, len } => buffer@.take(len as int),
            _ => Seq::empty(),
        })
    }
}

/// The bytes that are sent to the machine, over a run of actions.
pub open spec fn to_machine(actions: Seq<RelayAction>) -> Seq<u8>
    decreases actions.len(),
{
    if actions.len() == 0 {
        Seq::empty()
    } else {
        to_machine(actions.drop_last()) + (match actions.last() {
            RelayAction::WriteQemu { data } => data@,
            _ => Seq::empty(),
        })
    }
}

/// The bytes that are sent to the client, over a run of actions.
pub open spec fn to_client(actions: Seq<RelayAction>) -> Seq<u8>
    decreases actions.len(),
{
    if actions.len() == 0 {
        Seq::empty()
    } else {
        to_client(actions.drop_last()) + (match actions.last() {
            RelayAction::SendClient { data } => data@,
            _ => Seq::empty(),
        })
    }
}

/// Over any run, the machine is sent what the client sent and the client is sent what the
/// machine sent: every byte, once and in order.
pub proof fn law_relay_passes_every_byte(events: Seq<RelayEvent>, actions: Seq<RelayAction>)
    requires
        events.len() == actions.len(),
        forall|i: int| 0 <= i < events.len() ==> relay_event_valid(#[trigger] events[i]),
        forall|i: int| 0 <= i < events.len() ==> relay_follows(#[trigger] events[i], actions[i]),
    ensures
        to_machine(actions) == from_client(events),
        to_client(actions) == from_machine(events),
    decreases events.len(),
{
    if events.len() > 0 {
        let (earlier, done) = (events.drop_last(), actions.drop_last());
        assert forall|i: int| 0 <= i < earlier.len() implies relay_event_valid(
            #[trigger] earlier[i],
        ) && relay_follows(earlier[i], done[i]) by {
            assert(relay_event_valid(events[i]));
        }
        law_relay_passes_every_byte(earlier, done);
        let last = events.len() - 1;
        assert(relay_event_valid(events[last]) && relay_follows(events[last], actions[last]));
        assert(events.last() == events[last] && actions.last() == actions[last]);
        if let RelayEvent::QemuRead { buffer, len } = events.last() {
            if len == 0 {
                assert(buffer@.take(0) =~= Seq::<u8>::empty());
            }
        }
    }
}

/// A machine's bytes reach the client in messages that each hold what one read has brought:
/// one byte at least, and, where a read takes no larger buffer than the waiting before it
/// asked for, no more than `RELAY_BUFFER_LEN` bytes.
pub proof fn law_messages_fit_the_buffer(
    events: Seq<RelayEvent>,
    actions: Seq<RelayAction>,
    at: int,
)
    requires
        events.len() == actions.len(),
        forall|i: int| 0 <= i < events.len() ==> relay_event_valid(#[trigger] events[i]),
        forall|i: int| 0 <= i < events.len() ==> relay_follows(#[trigger] events[i], actions[i]),
        0 < at < events.len(),
        events[at] matches RelayEvent::QemuRead { buffer, .. } ==> (
        actions[at - 1] matches RelayAction::Wait { buffer_len } && buffer@.len() <= buffer_len),
    ensures
        actions[at] matches RelayAction::SendClient { data } ==> 1 <= data@.len()
            <= RELAY_BUFFER_LEN && (events[at] matches RelayEvent::QemuRead { buffer, len }
            && data@ == buffer@.take(len as int)),
{
    assert(relay_event_valid(events[at]) && relay_follows(events[at], actions[at]));
    assert(relay_follows(events[at - 1], actions[at - 1]));
}

/// What one side sends is passed to the other as it is: all that the client has sent, and
/// what the machine has put into the buffer; and nothing is sent that did not come from the
/// other side.
pub proof fn law_each_side_gets_what_the_other_sends(event: RelayEvent, action: RelayAction)
    requires
        relay_event_valid(event),
        relay_follows(event, action),
    ensures
        event matches RelayEvent::ClientBinary { data } ==> (
        action matches RelayAction::WriteQemu { data: passed } && passed@ == data@),
        event matches RelayEvent::QemuRead { buffer, len } ==> len > 0 ==> (
        action matches RelayAction::SendClient { data: passed } && passed@.len() == len && forall|
            i: int,
        |
            0 <= i < len ==> passed@[i] == #[trigger] buffer@[i]),
        action is WriteQemu ==> event is ClientBinary,
        action is SendClient ==> event is QemuRead,
{
}

/// The traffic goes on, with a buffer of 16384 bytes for what the machine sends, when it was
/// opened, when a message that carries no data was passed over, and when something was
/// passed on; and at no other time.
pub proof fn law_traffic_goes_on(event: RelayEvent, action: RelayAction)
    requires
        relay_follows(event, action),
    ensures
        action is Wait <==> (event is QemuConnected || event is ClientOther || event is QemuWritten
            || event is ClientSent),
        action matches RelayAction::Wait { buffer_len } ==> buffer_len == 16384,
{
}

/// When the traffic ends, the instance is killed exactly when its machine cannot be reached,
/// cannot be read from or written to, or has closed its socket; otherwise the client was the
/// reason, and the instance is preserved. The log is told why, but for a side that has just
/// closed its end.
pub proof fn law_traffic_ends_with_a_reason(event: RelayEvent, action: RelayAction)
    requires
        relay_follows(event, action),
    ensures
        match event {
            RelayEvent::QemuConnectFailed { error } => action == (RelayAction::End {
                action: ConnEndAction::KillInstance,
                remark: Some(RelayRemark::CannotConnect { error }),
            }),
            RelayEvent::QemuWriteFailed { error } => action == (RelayAction::End {
                action: ConnEndAction::KillInstance,
                remark: Some(RelayRemark::CannotWrite { error }),
            }),
            RelayEvent::QemuReadFailed { error } => action == (RelayAction::End {
                action: ConnEndAction::KillInstance,
                remark: Some(RelayRemark::QemuReadFailed { error }),
            }),
            RelayEvent::QemuRead { len, .. } => len == 0 <==> action == (RelayAction::End {
                action: ConnEndAction::KillInstance,
                remark: None,
            }),
            RelayEvent::ClientClosed => action == (RelayAction::End {
                action: ConnEndAction::PreserveInstance,
                remark: None,
            }),
            RelayEvent::ClientText => action == (RelayAction::End {
                action: ConnEndAction::PreserveInstance,
                remark: Some(RelayRemark::TextNotSupported),
            }),
            RelayEvent::ClientReadFailed { error } => action == (RelayAction::End {
                action: ConnEndAction::PreserveInstance,
                remark: Some(RelayRemark::ReadFailed { error }),
            }),
            RelayEvent::ClientSendFailed { error } => action == (RelayAction::End {
                action: ConnEndAction::PreserveInstance,
                remark: Some(RelayRemark::SendFailed { error }),
            }),
            _ => !(action is End),
        },
{
}

/// Whatever happens between a client and its machine can be taken, as long as a read fills no
/// more than its buffer.
pub proof fn law_every_event_of_the_traffic_is_taken(event: RelayEvent)
    requires
        event matches RelayEvent::QemuRead { buffer, len } ==> len <= buffer@.len(),
    ensures
        relay_event_valid(event),
{
}

} // verus!
