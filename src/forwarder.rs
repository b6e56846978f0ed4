use vstd::prelude::*;

verus! {

/// Anything that can send and receive framed messages of one type, whatever
/// carries them: a socket endpoint, a channel pair or a test double.
pub trait Forwarder {
    type Error;

    type Message;

    /// Sends one message.
    fn send(&self, message: &Self::Message) -> Result<(), Self::Error>;

    /// Waits for one message.
    fn recv(&self) -> Result<Self::Message, Self::Error>;

    /// Takes one message if there is one, without waiting.
    fn try_recv(&self) -> Result<Self::Message, Self::Error>;
}

} // verus!
