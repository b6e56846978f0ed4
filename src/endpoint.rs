use vstd::prelude::*;
use brydz_core::error::FormatError;

verus! {

/// Size of the fixed frame that the synchronous endpoint writes and reads.
pub const BRIDGE_COMM_BUFFER_SIZE: usize = 256;

/// Transport-side failures of the synchronous endpoint.
#[derive(Clone, Copy, Debug, PartialEq, Eq, Structural)]
pub enum CommError {
    SendError,
    RecvError,
    TryRecvError,
}

/// What one `read` call on the socket reported.
#[derive(Clone, Copy, Debug, PartialEq, Eq, Structural)]
pub enum ReadOutcome {
    /// The call returned this many bytes (possibly zero).
    Read(usize),
    /// The call failed, including a would-block in non-blocking mode.
    Failed,
}

/// What a blocking receive does after one read.
#[derive(Clone, Copy, Debug, PartialEq, Eq, Structural)]
pub enum RecvStep {
    /// Nothing arrived: read again.
    Retry,
    /// A frame arrived: decode the buffer.
    Decode,
    /// Give up with this error.
    Fail(CommError),
}

/// `encoded` followed by zero bytes up to `size`.
pub open spec fn padded(encoded: Seq<u8>, size: nat) -> Seq<u8> {
    encoded + Seq::new((size - encoded.len()) as nat, |_i: int| 0u8)
}

/// The frame that `send` writes for a message whose encoding is `encoded`;
/// `None` when the encoding does not fit in `size` bytes.
pub open spec fn frame_of(encoded: Seq<u8>, size: nat) -> Option<Seq<u8>> {
    if encoded.len() <= size {
        Some(padded(encoded, size))
    } else {
        None
    }
}

/// A message whose encoding fits is framed losslessly: the frame has exactly
/// `size` bytes, carries the whole encoding at its front, where a decoder
/// reading from the front finds it, and zeros after it.
pub proof fn lemma_frame_round_trip(encoded: Seq<u8>, size: nat)
    requires
        encoded.len() <= size,
    ensures
        frame_of(encoded, size) is Some,
        frame_of(encoded, size)->Some_0.len() == size,
        frame_of(encoded, size)->Some_0.subrange(0, encoded.len() as int) == encoded,
        forall|i: int|
            encoded.len() <= i < size ==> #[trigger] frame_of(encoded, size)->Some_0[i] == 0u8,
{
    assert(padded(encoded, size).subrange(0, encoded.len() as int) =~= encoded);
}

/// A message whose encoding is longer than the frame gets no frame at all:
/// it is neither truncated nor written.
pub proof fn lemma_oversized_rejected(encoded: Seq<u8>, size: nat)
    requires
        encoded.len() > size,
    ensures
        frame_of(encoded, size) is None,
{
}

/// Lays an encoded message into a zero-filled frame of `frame_size` bytes.
/// `None` for `encoded` means that the codec refused the message. A message
/// that the codec refused or that does not fit gives a serialize error, and
/// nothing is to be written.
pub fn frame_message(encoded: Option<Vec<u8>>, frame_size: usize) -> (r: Result<
    Vec<u8>,
    FormatError,
>)
    ensures
        match encoded {
            Some(e) => match frame_of(e@, frame_size as nat) {
                Some(f) => r is Ok && r->Ok_0@ == f,
                None => r == Err::<Vec<u8>, FormatError>(FormatError::SerializeError),
            },
            None => r == Err::<Vec<u8>, FormatError>(FormatError::SerializeError),
        },
{
    match encoded {
        None => Err(FormatError::SerializeError),
        Some(e) => {
            if e.len() > frame_size {
                return Err(FormatError::SerializeError);
            }
            let mut frame = e;
            let ghost start = frame@;
            while frame.len() < frame_size
                invariant
                    start.len() <= frame.len() <= frame_size,
                    frame@ == padded(start, frame.len() as nat),
                decreases frame_size - frame.len(),
            {
                frame.push(0u8);
                assert(frame@ =~= padded(start, frame.len() as nat));
            }
            Ok(frame)
        },
    }
}

/// Outcome of writing a whole frame to the socket.
pub fn send_result(written: bool) -> (r: Result<(), CommError>)
    ensures
        r == (if written {
            Ok::<(), CommError>(())
        } else {
            Err(CommError::SendError)
        }),
{
    if written {
        Ok(())
    } else {
        Err(CommError::SendError)
    }
}

/// What a blocking receive does after a read with this outcome.
pub open spec fn blocking_step_of(outcome: ReadOutcome) -> RecvStep {
    match outcome {
        ReadOutcome::Read(n) => if n == 0 {
            RecvStep::Retry
        } else {
            RecvStep::Decode
        },
        ReadOutcome::Failed => RecvStep::Fail(CommError::RecvError),
    }
}

/// How a blocking receive that sees the reads `reads` in turn ends: the step
/// of the first read that is not retried, or `None` while it is still reading.
pub open spec fn blocking_receive_end(reads: Seq<ReadOutcome>) -> Option<RecvStep>
    decreases reads.len(),
{
    if reads.len() == 0 {
        None
    } else if blocking_step_of(reads[0]) == RecvStep::Retry {
        blocking_receive_end(reads.drop_first())
    } else {
        Some(blocking_step_of(reads[0]))
    }
}

/// A blocking receive does not end on zero-byte reads: however many come, it
/// keeps reading, and once a read brings at least one byte it decodes.
pub proof fn lemma_blocking_receive_waits(empty_reads: nat, n: usize)
    requires
        n > 0,
    ensures
        blocking_receive_end(Seq::new(empty_reads, |_i: int| ReadOutcome::Read(0))) is None,
        blocking_receive_end(
            Seq::new(empty_reads, |_i: int| ReadOutcome::Read(0)).push(ReadOutcome::Read(n)),
        ) == Some(RecvStep::Decode),
    decreases empty_reads,
{
    let zeros = Seq::new(empty_reads, |_i: int| ReadOutcome::Read(0));
    if empty_reads > 0 {
        let fewer = Seq::new((empty_reads - 1) as nat, |_i: int| ReadOutcome::Read(0));
        lemma_blocking_receive_waits((empty_reads - 1) as nat, n);
        assert(zeros.drop_first() =~= fewer);
        assert(zeros.push(ReadOutcome::Read(n)).drop_first() =~= fewer.push(ReadOutcome::Read(n)));
    } else {
        assert(zeros.push(ReadOutcome::Read(n)) =~= seq![ReadOutcome::Read(n)]);
    }
}

/// Decision of a blocking receive after one read: a zero-byte read is not a
/// frame and is read again, any bytes are decoded, a failure ends the call.
pub fn blocking_read_step(outcome: ReadOutcome) -> (r: RecvStep)
    ensures
        r == blocking_step_of(outcome),
{
    match outcome {
        ReadOutcome::Read(n) => if n == 0 {
            RecvStep::Retry
        } else {
            RecvStep::Decode
        },
        ReadOutcome::Failed => RecvStep::Fail(CommError::RecvError),
    }
}

/// Decision of a non-blocking receive after its single read: only a read of
/// at least one byte leads to decoding; no data, a would-block and a failure
/// all give the try-receive error.
pub fn nonblocking_read_step(outcome: ReadOutcome) -> (r: Result<(), CommError>)
    ensures
        r == (match outcome {
            ReadOutcome::Read(n) => if n > 0 {
                Ok::<(), CommError>(())
            } else {
                Err(CommError::TryRecvError)
            },
            ReadOutcome::Failed => Err(CommError::TryRecvError),
        }),
{
    match outcome {
        ReadOutcome::Read(n) => if n > 0 {
            Ok(())
        } else {
            Err(CommError::TryRecvError)
        },
        ReadOutcome::Failed => Err(CommError::TryRecvError),
    }
}

/// Outcome of decoding a received frame; `None` means the codec refused it.
pub fn decode_result<T>(decoded: Option<T>) -> (r: Result<T, FormatError>)
    ensures
        r == (match decoded {
            Some(m) => Ok::<T, FormatError>(m),
            None => Err(FormatError::DeserializeError),
        }),
{
    match decoded {
        Some(m) => Ok(m),
        None => Err(FormatError::DeserializeError),
    }
}

} // verus!
