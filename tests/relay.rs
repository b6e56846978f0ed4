use brydz_core::karty::speedy::{Readable, Writable};
use brydz_tcp::error::TcpForwardError;
use brydz_tcp::relay::{Action, Event, Phase, RelayState};

fn io_error() -> std::io::Error {
    std::io::Error::new(std::io::ErrorKind::Other, "broken")
}

fn payload(a: &Action) -> Option<Vec<u8>> {
    match a {
        Action::Write(b) => Some(b.clone()),
        _ => None,
    }
}

#[test]
fn starts_by_polling() {
    let (state, action) = RelayState::start();
    assert_eq!(state.phase, Phase::Outbound);
    assert!(state.received.is_empty());
    assert!(matches!(action, Action::PollOutbound));
    assert!(!state.is_stopped());
}

#[test]
fn outbound_messages_written_in_order() {
    let (mut state, _) = RelayState::start();
    let mut writes = Vec::new();
    for m in [vec![1u8], vec![2u8, 2], vec![3u8, 3, 3]] {
        let a = state.step(Event::OutboundEncoded(m));
        writes.extend(payload(&a));
        assert!(matches!(state.step(Event::Written), Action::Read));
        assert!(matches!(state.step(Event::ReadBlocked), Action::PollOutbound));
    }
    assert_eq!(writes, vec![vec![1u8], vec![2u8, 2], vec![3u8, 3, 3]]);
}

#[test]
fn empty_outbound_goes_to_reading() {
    let (mut state, _) = RelayState::start();
    assert!(matches!(state.step(Event::OutboundEmpty), Action::Read));
    assert_eq!(state.phase, Phase::Reading);
}

#[test]
fn encode_failure_skips_message() {
    let (mut state, _) = RelayState::start();
    assert!(matches!(state.step(Event::OutboundEncodeFailed), Action::PollOutbound));
    assert_eq!(state.phase, Phase::Outbound);
}

#[test]
fn write_would_block_drops_attempt() {
    let (mut state, _) = RelayState::start();
    state.step(Event::OutboundEncoded(vec![4u8]));
    assert!(matches!(state.step(Event::WriteBlocked), Action::PollOutbound));
    assert_eq!(state.phase, Phase::Outbound);
}

#[test]
fn write_failure_is_stream_send_error() {
    let (mut state, _) = RelayState::start();
    state.step(Event::OutboundEncoded(vec![4u8]));
    let a = state.step(Event::WriteFailed(io_error()));
    assert!(matches!(a, Action::Stop(TcpForwardError::StreamSendError(_))));
    assert!(state.is_stopped());
}

#[test]
fn wait_failure_is_io_error() {
    let (mut state, _) = RelayState::start();
    state.step(Event::OutboundEmpty);
    let a = state.step(Event::WaitFailed(io_error()));
    assert!(matches!(a, Action::Stop(TcpForwardError::IOError(_))));
}

#[test]
fn remote_closure_stops_with_remote_closed() {
    let (mut state, _) = RelayState::start();
    state.step(Event::OutboundEmpty);
    let a = state.step(Event::ReadData(Vec::new()));
    assert!(matches!(a, Action::Stop(TcpForwardError::StreamRecvRemoteClosed)));
    assert_eq!(state.phase, Phase::Stopped);
}

#[test]
fn read_failure_is_stream_recv_error() {
    let (mut state, _) = RelayState::start();
    state.step(Event::OutboundEmpty);
    let a = state.step(Event::ReadFailed(io_error()));
    assert!(matches!(a, Action::Stop(TcpForwardError::StreamRecvError(_))));
}

#[test]
fn closed_inbound_channel_is_channel_send_error() {
    let (mut state, _) = RelayState::start();
    state.step(Event::OutboundEmpty);
    state.step(Event::ReadData(vec![1u8]));
    let a = state.step(Event::DeliverFailed);
    assert!(matches!(a, Action::Stop(TcpForwardError::ChannelSendError)));
}

#[test]
fn malformed_bytes_do_not_stop_loop() {
    let (mut state, _) = RelayState::start();
    state.step(Event::OutboundEmpty);
    assert!(matches!(state.step(Event::ReadData(vec![0xffu8, 0xfe])), Action::Decode));
    assert!(matches!(state.step(Event::DecodeFailed), Action::PollOutbound));
    assert!(!state.is_stopped());
    assert_eq!(state.received, vec![0xffu8, 0xfe]);
    state.step(Event::OutboundEmpty);
    assert!(matches!(state.step(Event::ReadData(vec![5u8])), Action::Decode));
    assert_eq!(state.received, vec![0xffu8, 0xfe, 5]);
    assert!(matches!(state.step(Event::Delivered(3)), Action::PollOutbound));
}

#[test]
fn accepts_only_fitting_events() {
    let (state, _) = RelayState::start();
    assert!(state.accepts(&Event::OutboundEmpty));
    assert!(!state.accepts(&Event::Written));
    assert!(!state.accepts(&Event::DecodeFailed));
}

#[test]
fn conversions_pick_variants() {
    let e: TcpForwardError = io_error().into();
    assert!(matches!(e, TcpForwardError::IOError(_)));
    let e: TcpForwardError = std::sync::mpsc::RecvError.into();
    assert!(matches!(e, TcpForwardError::ChannelRecvError));
    let e: TcpForwardError = std::sync::mpsc::SendError(3u8).into();
    assert!(matches!(e, TcpForwardError::ChannelSendError));
}

#[test]
fn codec_errors_are_not_fatal() {
    assert!(!TcpForwardError::SerializeError.is_fatal());
    assert!(!TcpForwardError::DeserializeError.is_fatal());
    assert!(TcpForwardError::StreamRecvRemoteClosed.is_fatal());
    assert!(TcpForwardError::ChannelRecvError.is_fatal());
}

fn decode_front(received: &[u8]) -> Event {
    let (decoded, used) = <(u32, u8)>::read_with_length_from_buffer_copying_data(received);
    match decoded {
        Ok(_) => Event::Delivered(used),
        Err(_) => Event::DecodeFailed,
    }
}

#[test]
fn inbound_messages_delivered_once_in_order() {
    let a1: (u32, u8) = (11, 1);
    let a2: (u32, u8) = (22, 2);
    let (mut state, _) = RelayState::start();
    let mut delivered = Vec::new();
    for m in [a1, a2] {
        assert!(matches!(state.step(Event::OutboundEmpty), Action::Read));
        let bytes = m.write_to_vec().unwrap();
        assert!(matches!(state.step(Event::ReadData(bytes)), Action::Decode));
        delivered.push(<(u32, u8)>::read_from_buffer_copying_data(&state.received).unwrap());
        let event = decode_front(&state.received);
        assert!(state.accepts(&event));
        assert!(matches!(state.step(event), Action::PollOutbound));
        assert!(state.received.is_empty());
    }
    assert_eq!(delivered, vec![a1, a2]);
}

#[test]
fn delivery_keeps_unused_bytes() {
    let (mut state, _) = RelayState::start();
    state.step(Event::OutboundEmpty);
    state.step(Event::ReadData(vec![1u8, 2, 3, 4, 5]));
    assert!(!state.accepts(&Event::Delivered(6)));
    state.step(Event::Delivered(2));
    assert_eq!(state.received, vec![3u8, 4, 5]);
}
