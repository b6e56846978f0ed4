use vstd::prelude::*;

verus! {

/// Makes the standard I/O error known to the verifier; it is only carried
/// from the transport to the caller, never inspected.
#[verifier::external_type_specification]
#[verifier::external_body]
pub struct ExIoError(std::io::Error);

/// Makes the codec's error kinds known to the verifier.
#[verifier::external_type_specification]
pub struct ExFormatError(brydz_core::error::FormatError);

/// Makes the error of a disconnected channel receiver known to the verifier.
#[verifier::external_type_specification]
#[verifier::external_body]
pub struct ExRecvError(std::sync::mpsc::RecvError);

/// Makes the error of a disconnected channel sender known to the verifier.
#[verifier::external_type_specification]
#[verifier::external_body]
#[verifier::reject_recursive_types(T)]
pub struct ExSendError<T>(std::sync::mpsc::SendError<T>);

/// Every failure that the channel/stream forwarding loop reports.
#[derive(Debug)]
pub enum TcpForwardError {
    ChannelRecvError,
    ChannelSendError,
    StreamRecvError(std::io::Error),
    StreamSendError(std::io::Error),
    IOError(std::io::Error),
    StreamSendRemoteClosed,
    StreamRecvRemoteClosed,
    SerializeError,
    DeserializeError,
}

impl TcpForwardError {
    /// Fatal failures end the loop; codec failures only discard a unit of data.
    pub open spec fn spec_is_fatal(&self) -> bool {
        !(self is SerializeError || self is DeserializeError)
    }

    #[verifier::when_used_as_spec(spec_is_fatal)]
    pub fn is_fatal(&self) -> (r: bool)
        ensures
            r == self.spec_is_fatal(),
    {
        match self {
            TcpForwardError::SerializeError | TcpForwardError::DeserializeError => false,
            _ => true,
        }
    }
}

impl From<std::io::Error> for TcpForwardError {
    fn from(e: std::io::Error) -> (r: Self)
        ensures
            r == TcpForwardError::IOError(e),
    {
        TcpForwardError::IOError(e)
    }
}

impl vstd::std_specs::convert::FromSpecImpl<std::io::Error> for TcpForwardError {
    open spec fn obeys_from_spec() -> bool {
        true
    }

    open spec fn from_spec(e: std::io::Error) -> Self {
        TcpForwardError::IOError(e)
    }
}

impl From<std::sync::mpsc::RecvError> for TcpForwardError {
    fn from(_e: std::sync::mpsc::RecvError) -> (r: Self)
        ensures
            r == TcpForwardError::ChannelRecvError,
    {
        TcpForwardError::ChannelRecvError
    }
}

impl vstd::std_specs::convert::FromSpecImpl<std::sync::mpsc::RecvError> for TcpForwardError {
    open spec fn obeys_from_spec() -> bool {
        true
    }

    open spec fn from_spec(_e: std::sync::mpsc::RecvError) -> Self {
        TcpForwardError::ChannelRecvError
    }
}

impl<T> From<std::sync::mpsc::SendError<T>> for TcpForwardError {
    fn from(_e: std::sync::mpsc::SendError<T>) -> (r: Self)
        ensures
            r == TcpForwardError::ChannelSendError,
    {
        TcpForwardError::ChannelSendError
    }
}

impl<T> vstd::std_specs::convert::FromSpecImpl<std::sync::mpsc::SendError<T>> for TcpForwardError {
    open spec fn obeys_from_spec() -> bool {
        true
    }

    open spec fn from_spec(_e: std::sync::mpsc::SendError<T>) -> Self {
        TcpForwardError::ChannelSendError
    }
}

} // verus!
