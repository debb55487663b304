use flat_playground_runner::relay::{
    relay_step, ConnEndAction, RelayAction, RelayEvent, RelayRemark, RELAY_BUFFER_LEN,
};

fn end(event: RelayEvent) -> (ConnEndAction, Option<RelayRemark>) {
    match relay_step(event) {
        RelayAction::End { action, remark } => (action, remark),
        _ => panic!("the traffic goes on"),
    }
}

#[test]
fn buffer_holds_sixteen_kibibytes() {
    assert_eq!(RELAY_BUFFER_LEN, 16384);
}

#[test]
fn a_lost_machine_is_killed() {
    let (action, remark) = end(RelayEvent::QemuConnectFailed { error: "e1".to_string() });
    assert_eq!(action, ConnEndAction::KillInstance);
    assert!(matches!(remark, Some(RelayRemark::CannotConnect { error }) if error == "e1"));
    let (action, remark) = end(RelayEvent::QemuWriteFailed { error: "e2".to_string() });
    assert_eq!(action, ConnEndAction::KillInstance);
    assert!(matches!(remark, Some(RelayRemark::CannotWrite { error }) if error == "e2"));
    let (action, remark) = end(RelayEvent::QemuReadFailed { error: "e3".to_string() });
    assert_eq!(action, ConnEndAction::KillInstance);
    assert!(matches!(remark, Some(RelayRemark::QemuReadFailed { error }) if error == "e3"));
    let (action, remark) = end(RelayEvent::QemuRead { buffer: vec![1, 2], len: 0 });
    assert_eq!(action, ConnEndAction::KillInstance);
    assert!(remark.is_none());
}

#[test]
fn a_lost_client_leaves_its_machine() {
    let (action, remark) = end(RelayEvent::ClientClosed);
    assert_eq!(action, ConnEndAction::PreserveInstance);
    assert!(remark.is_none());
    let (action, remark) = end(RelayEvent::ClientText);
    assert_eq!(action, ConnEndAction::PreserveInstance);
    assert!(matches!(remark, Some(RelayRemark::TextNotSupported)));
    let (action, remark) = end(RelayEvent::ClientReadFailed { error: "e4".to_string() });
    assert_eq!(action, ConnEndAction::PreserveInstance);
    assert!(matches!(remark, Some(RelayRemark::ReadFailed { error }) if error == "e4"));
    let (action, remark) = end(RelayEvent::ClientSendFailed { error: "e5".to_string() });
    assert_eq!(action, ConnEndAction::PreserveInstance);
    assert!(matches!(remark, Some(RelayRemark::SendFailed { error }) if error == "e5"));
}

#[test]
fn every_byte_is_passed_on() {
    let events = vec![
        RelayEvent::QemuConnected,
        RelayEvent::ClientBinary { data: vec![1, 2] },
        RelayEvent::QemuWritten,
        RelayEvent::QemuRead { buffer: vec![7, 8, 9, 0, 0], len: 3 },
        RelayEvent::ClientSent,
        RelayEvent::ClientOther,
        RelayEvent::ClientBinary { data: vec![3] },
        RelayEvent::QemuWritten,
        RelayEvent::QemuRead { buffer: vec![6, 5], len: 2 },
        RelayEvent::ClientSent,
    ];
    let mut to_machine: Vec<u8> = Vec::new();
    let mut to_client: Vec<u8> = Vec::new();
    let mut waits = 0;
    for event in events {
        match relay_step(event) {
            RelayAction::Wait { buffer_len } => {
                assert_eq!(buffer_len, 16384);
                waits += 1
            }
            RelayAction::WriteQemu { data } => to_machine.extend(data),
            RelayAction::SendClient { data } => to_client.extend(data),
            RelayAction::End { .. } => panic!("the traffic has stopped"),
        }
    }
    assert_eq!(to_machine, vec![1, 2, 3]);
    assert_eq!(to_client, vec![7, 8, 9, 6, 5]);
    assert_eq!(waits, 6);
}

#[test]
fn a_message_holds_what_one_read_has_brought() {
    let buffer_len = match relay_step(RelayEvent::QemuConnected) {
        RelayAction::Wait { buffer_len } => buffer_len,
        _ => panic!("no wait"),
    };
    for len in [1, 2, 16383, 16384].iter() {
        let buffer: Vec<u8> = (0..buffer_len).map(|i| (i % 251) as u8).collect();
        let read = buffer[..*len].to_vec();
        match relay_step(RelayEvent::QemuRead { buffer, len: *len }) {
            RelayAction::SendClient { data } => assert_eq!(data, read),
            _ => panic!("nothing is sent"),
        }
    }
}
