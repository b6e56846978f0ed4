use vstd::prelude::*;
use crate::error::TcpForwardError;

verus! {

/// Where the forwarding loop stands: which outside operation it waits on.
#[derive(Clone, Copy, Debug, PartialEq, Eq, Structural)]
pub enum Phase {
    /// Polling the outbound channel without blocking.
    Outbound,
    /// Waiting for the write half and writing one encoded message.
    Writing,
    /// Waiting for the read half and reading what is there.
    Reading,
    /// Decoding from the front of the accumulated bytes and delivering.
    Decoding,
    /// A fatal error ended the loop.
    Stopped,
}

/// What the caller observed while performing the last action.
#[derive(Debug)]
pub enum Event {
    /// The outbound channel held no message (or its sender is gone).
    OutboundEmpty,
    /// A message was taken from the outbound channel and encoded to these bytes.
    OutboundEncoded(Vec<u8>),
    /// A message was taken from the outbound channel and the codec refused it.
    OutboundEncodeFailed,
    /// Waiting for the socket half to become ready failed.
    WaitFailed(std::io::Error),
    /// The write went through.
    Written,
    /// The write would have blocked. The loop does not retry: the message is
    /// lost silently, a known weakness under backpressure.
    WriteBlocked,
    /// The write failed.
    WriteFailed(std::io::Error),
    /// A read returned these bytes; none means the peer closed its side.
    ReadData(Vec<u8>),
    /// The read would have blocked.
    ReadBlocked,
    /// The read failed.
    ReadFailed(std::io::Error),
    /// The accumulated bytes did not decode to a message. The bytes are kept,
    /// so where the encoding cannot resynchronise, every later decode fails
    /// too and inbound messages stall: a known weakness of the loop.
    DecodeFailed,
    /// A message was decoded from this many bytes at the front of the
    /// accumulated bytes and put on the inbound channel.
    Delivered(usize),
    /// A message was decoded but the inbound channel is closed.
    DeliverFailed,
}

/// What the caller is to do next.
#[derive(Debug)]
pub enum Action {
    /// Try to take one message from the outbound channel and encode it.
    PollOutbound,
    /// Wait until the socket is writable and write these bytes once.
    Write(Vec<u8>),
    /// Wait until the socket is readable and read once.
    Read,
    /// Decode one message from the front of the accumulated bytes and
    /// put it on the inbound channel.
    Decode,
    /// End the loop with this error.
    Stop(TcpForwardError),
}

/// Whether `event` is one that can follow the action issued in `phase` with
/// `received` accumulated; a decoder uses no more bytes than it was given.
pub open spec fn event_fits(phase: Phase, received: Seq<u8>, event: Event) -> bool {
    match phase {
        Phase::Outbound => event is OutboundEmpty || event is OutboundEncoded
            || event is OutboundEncodeFailed,
        Phase::Writing => event is WaitFailed || event is Written || event is WriteBlocked
            || event is WriteFailed,
        Phase::Reading => event is WaitFailed || event is ReadData || event is ReadBlocked
            || event is ReadFailed,
        Phase::Decoding => event is DecodeFailed || (event matches Event::Delivered(n) && n
            <= received.len()) || event is DeliverFailed,
        Phase::Stopped => false,
    }
}

/// One step of the loop: from the phase, the accumulated bytes and the event,
/// the next phase, the next accumulated bytes and the next action.
pub open spec fn transition(phase: Phase, received: Seq<u8>, event: Event) -> (
    Phase,
    Seq<u8>,
    Action,
) {
    match event {
        Event::OutboundEmpty => (Phase::Reading, received, Action::Read),
        Event::OutboundEncoded(bytes) => (Phase::Writing, received, Action::Write(bytes)),
        Event::OutboundEncodeFailed => (Phase::Outbound, received, Action::PollOutbound),
        Event::WaitFailed(e) => (Phase::Stopped, received, Action::Stop(TcpForwardError::IOError(e))),
        Event::Written => (Phase::Reading, received, Action::Read),
        Event::WriteBlocked => (Phase::Outbound, received, Action::PollOutbound),
        Event::WriteFailed(e) => (
            Phase::Stopped,
            received,
            Action::Stop(TcpForwardError::StreamSendError(e)),
        ),
        Event::ReadData(bytes) => if bytes@.len() == 0 {
            (Phase::Stopped, received, Action::Stop(TcpForwardError::StreamRecvRemoteClosed))
        } else {
            (Phase::Decoding, received + bytes@, Action::Decode)
        },
        Event::ReadBlocked => (Phase::Outbound, received, Action::PollOutbound),
        Event::ReadFailed(e) => (
            Phase::Stopped,
            received,
            Action::Stop(TcpForwardError::StreamRecvError(e)),
        ),
        Event::DecodeFailed => (Phase::Outbound, received, Action::PollOutbound),
        Event::Delivered(n) => (
            Phase::Outbound,
            received.subrange(n as int, received.len() as int),
            Action::PollOutbound,
        ),
        Event::DeliverFailed => (
            Phase::Stopped,
            received,
            Action::Stop(TcpForwardError::ChannelSendError),
        ),
    }
}

/// Phase, accumulated bytes and issued actions after handing `events` in turn
/// to a loop that stood in `phase` with `received` accumulated.
pub open spec fn run(phase: Phase, received: Seq<u8>, events: Seq<Event>) -> (
    Phase,
    Seq<u8>,
    Seq<Action>,
)
    decreases events.len(),
{
    if events.len() == 0 {
        (phase, received, Seq::empty())
    } else {
        let before = run(phase, received, events.drop_last());
        let t = transition(before.0, before.1, events.last());
        (t.0, t.1, before.2.push(t.2))
    }
}

/// Each event of `events` can follow the action issued before it.
pub open spec fn run_fits(phase: Phase, received: Seq<u8>, events: Seq<Event>) -> bool
    decreases events.len(),
{
    events.len() == 0 || (run_fits(phase, received, events.drop_last()) && event_fits(
        run(phase, received, events.drop_last()).0,
        run(phase, received, events.drop_last()).1,
        events.last(),
    ))
}

/// The payloads of the writes among `actions`, in order.
pub open spec fn written(actions: Seq<Action>) -> Seq<Seq<u8>>
    decreases actions.len(),
{
    if actions.len() == 0 {
        Seq::empty()
    } else {
        let rest = written(actions.drop_last());
        match actions.last() {
            Action::Write(bytes) => rest.push(bytes@),
            _ => rest,
        }
    }
}

/// The encodings of the messages taken from the outbound channel, in order.
pub open spec fn dequeued(events: Seq<Event>) -> Seq<Seq<u8>>
    decreases events.len(),
{
    if events.len() == 0 {
        Seq::empty()
    } else {
        let rest = dequeued(events.drop_last());
        match events.last() {
            Event::OutboundEncoded(bytes) => rest.push(bytes@),
            _ => rest,
        }
    }
}

/// All bytes read from the stream, in order.
pub open spec fn read_bytes(events: Seq<Event>) -> Seq<u8>
    decreases events.len(),
{
    if events.len() == 0 {
        Seq::empty()
    } else {
        let rest = read_bytes(events.drop_last());
        match events.last() {
            Event::ReadData(bytes) => rest + bytes@,
            _ => rest,
        }
    }
}

/// Events that end the loop: a failed wait, write or read, a read of no bytes
/// (the peer closed its side), a closed inbound channel.
pub open spec fn is_fatal_event(event: Event) -> bool {
    match event {
        Event::WaitFailed(_) | Event::WriteFailed(_) | Event::ReadFailed(_)
        | Event::DeliverFailed => true,
        Event::ReadData(bytes) => bytes@.len() == 0,
        _ => false,
    }
}

/// Outbound order is kept: the loop writes exactly the encodings of the
/// messages it takes from the outbound channel, unchanged and in the order it
/// took them.
pub proof fn lemma_outbound_order(phase: Phase, received: Seq<u8>, events: Seq<Event>)
    requires
        run_fits(phase, received, events),
    ensures
        written(run(phase, received, events).2) == dequeued(events),
    decreases events.len(),
{
    if events.len() > 0 {
        let before = run(phase, received, events.drop_last());
        let t = transition(before.0, before.1, events.last());
        lemma_outbound_order(phase, received, events.drop_last());
        assert(before.2.push(t.2).drop_last() =~= before.2);
    }
}

/// The number of bytes that the deliveries among `events` used, in total.
pub open spec fn delivered_len(events: Seq<Event>) -> nat
    decreases events.len(),
{
    if events.len() == 0 {
        0
    } else {
        let rest = delivered_len(events.drop_last());
        match events.last() {
            Event::Delivered(n) => rest + n as nat,
            _ => rest,
        }
    }
}

/// Inbound bytes are kept in arrival order and each is delivered at most
/// once: the accumulated bytes are what the loop held before followed by
/// every byte read since, less the prefix that deliveries used. A decode
/// failure drops nothing.
pub proof fn lemma_inbound_bytes_kept(phase: Phase, received: Seq<u8>, events: Seq<Event>)
    requires
        run_fits(phase, received, events),
    ensures
        delivered_len(events) <= received.len() + read_bytes(events).len(),
        run(phase, received, events).1 == (received + read_bytes(events)).subrange(
            delivered_len(events) as int,
            (received.len() + read_bytes(events).len()) as int,
        ),
    decreases events.len(),
{
    if events.len() == 0 {
        assert(received + read_bytes(events) =~= received);
        assert(received.subrange(0, received.len() as int) =~= received);
    } else {
        let prev = events.drop_last();
        lemma_inbound_bytes_kept(phase, received, prev);
        let all = received + read_bytes(prev);
        let c = delivered_len(prev);
        let before = run(phase, received, prev);
        match events.last() {
            Event::ReadData(bytes) => {
                assert(received + read_bytes(events) =~= all + bytes@);
                if bytes@.len() > 0 {
                    assert(before.1 + bytes@ =~= (all + bytes@).subrange(
                        c as int,
                        (all.len() + bytes@.len()) as int,
                    ));
                } else {
                    assert(before.1 =~= (all + bytes@).subrange(c as int, all.len() as int));
                }
            },
            Event::Delivered(n) => {
                assert(before.1.subrange(n as int, before.1.len() as int) =~= all.subrange(
                    (c + n) as int,
                    all.len() as int,
                ));
            },
            _ => {},
        }
    }
}

/// Only fatal events end the loop: codec failures on either side, would-block
/// results and empty polls leave it running.
pub proof fn lemma_runs_until_fatal(phase: Phase, received: Seq<u8>, events: Seq<Event>)
    requires
        phase != Phase::Stopped,
        run_fits(phase, received, events),
        forall|i: int| 0 <= i < events.len() ==> !is_fatal_event(#[trigger] events[i]),
    ensures
        run(phase, received, events).0 != Phase::Stopped,
    decreases events.len(),
{
    if events.len() > 0 {
        assert forall|i: int| 0 <= i < events.drop_last().len() implies !is_fatal_event(
            #[trigger] events.drop_last()[i],
        ) by {
            assert(events.drop_last()[i] == events[i]);
        }
        lemma_runs_until_fatal(phase, received, events.drop_last());
        assert(!is_fatal_event(events[events.len() - 1]));
    }
}

/// The loop stops exactly on a fatal event, and then with a fatal error; the
/// peer closing its side gives the remote-closed error, not an I/O error.
pub proof fn lemma_stops_only_fatally(phase: Phase, received: Seq<u8>, event: Event)
    requires
        event_fits(phase, received, event),
    ensures
        (transition(phase, received, event).0 == Phase::Stopped) == is_fatal_event(event),
        (transition(phase, received, event).2 is Stop) == is_fatal_event(event),
        transition(phase, received, event).2 is Stop ==> transition(
            phase,
            received,
            event,
        ).2->Stop_0.is_fatal(),
        (event matches Event::ReadData(bytes) && bytes@.len() == 0) ==> transition(
            phase,
            received,
            event,
        ).2 == Action::Stop(TcpForwardError::StreamRecvRemoteClosed),
{
}

/// A message that fails to decode ends nothing: the loop goes back to polling,
/// keeps the bytes, and after the next non-empty read offers them, followed
/// by what was read, to the decoder again. The bytes are never trimmed after
/// a failure, so where the encoding cannot resynchronise, later messages stall
/// behind them: a known weakness that the loop keeps.
pub proof fn lemma_malformed_tolerated(received: Seq<u8>, later: Vec<u8>)
    requires
        later@.len() > 0,
    ensures
        transition(Phase::Decoding, received, Event::DecodeFailed) == (
            Phase::Outbound,
            received,
            Action::PollOutbound,
        ),
        transition(Phase::Reading, received, Event::ReadData(later)) == (
            Phase::Decoding,
            received + later@,
            Action::Decode,
        ),
{
}

/// State of the channel/stream forwarding loop: the phase it is in and the
/// bytes read from the stream so far.
pub struct RelayState {
    pub phase: Phase,
    pub received: Vec<u8>,
}

impl RelayState {
    /// A loop that has not run yet: it starts by polling the outbound channel.
    pub fn new() -> (r: RelayState)
        ensures
            r.phase == Phase::Outbound,
            r.received@ == Seq::<u8>::empty(),
    {
        RelayState { phase: Phase::Outbound, received: Vec::new() }
    }

    /// The first action of a fresh loop.
    pub fn start() -> (r: (RelayState, Action))
        ensures
            r.0.phase == Phase::Outbound,
            r.0.received@ == Seq::<u8>::empty(),
            r.1 is PollOutbound,
    {
        (RelayState::new(), Action::PollOutbound)
    }

    pub fn is_stopped(&self) -> (r: bool)
        ensures
            r == (self.phase == Phase::Stopped),
    {
        self.phase == Phase::Stopped
    }

    /// Whether `event` can follow the action last issued.
    pub fn accepts(&self, event: &Event) -> (r: bool)
        ensures
            r == event_fits(self.phase, self.received@, *event),
    {
        match self.phase {
            Phase::Outbound => match event {
                Event::OutboundEmpty | Event::OutboundEncoded(_) | Event::OutboundEncodeFailed => true,
                _ => false,
            },
            Phase::Writing => match event {
                Event::WaitFailed(_) | Event::Written | Event::WriteBlocked | Event::WriteFailed(
                    _,
                ) => true,
                _ => false,
            },
            Phase::Reading => match event {
                Event::WaitFailed(_) | Event::ReadData(_) | Event::ReadBlocked | Event::ReadFailed(
                    _,
                ) => true,
                _ => false,
            },
            Phase::Decoding => match event {
                Event::DecodeFailed | Event::DeliverFailed => true,
                Event::Delivered(n) => *n <= self.received.len(),
                _ => false,
            },
            Phase::Stopped => false,
        }
    }

    /// Takes the event that the last action produced and returns the next action.
    pub fn step(&mut self, event: Event) -> (r: Action)
        requires
            event_fits(old(self).phase, old(self).received@, event),
        ensures
            (final(self).phase, final(self).received@, r) == transition(
                old(self).phase,
                old(self).received@,
                event,
            ),
    {
        match event {
            Event::OutboundEmpty => {
                self.phase = Phase::Reading;
                Action::Read
            },
            Event::OutboundEncoded(bytes) => {
                self.phase = Phase::Writing;
                Action::Write(bytes)
            },
            Event::OutboundEncodeFailed => {
                self.phase = Phase::Outbound;
                Action::PollOutbound
            },
            Event::WaitFailed(e) => {
                self.phase = Phase::Stopped;
                Action::Stop(TcpForwardError::IOError(e))
            },
            Event::Written => {
                self.phase = Phase::Reading;
                Action::Read
            },
            Event::WriteBlocked => {
                self.phase = Phase::Outbound;
                Action::PollOutbound
            },
            Event::WriteFailed(e) => {
                self.phase = Phase::Stopped;
                Action::Stop(TcpForwardError::StreamSendError(e))
            },
            Event::ReadData(bytes) => {
                if bytes.len() == 0 {
                    self.phase = Phase::Stopped;
                    Action::Stop(TcpForwardError::StreamRecvRemoteClosed)
                } else {
                    let mut bytes = bytes;
                    self.received.append(&mut bytes);
                    self.phase = Phase::Decoding;
                    Action::Decode
                }
            },
            Event::ReadBlocked => {
                self.phase = Phase::Outbound;
                Action::PollOutbound
            },
            Event::ReadFailed(e) => {
                self.phase = Phase::Stopped;
                Action::Stop(TcpForwardError::StreamRecvError(e))
            },
            Event::DecodeFailed => {
                self.phase = Phase::Outbound;
                Action::PollOutbound
            },
            Event::Delivered(n) => {
                let rest = self.received.split_off(n);
                self.received = rest;
                self.phase = Phase::Outbound;
                Action::PollOutbound
            },
            Event::DeliverFailed => {
                self.phase = Phase::Stopped;
                Action::Stop(TcpForwardError::ChannelSendError)
            },
        }
    }
}

} // verus!
