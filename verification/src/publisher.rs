//! A simple pub-sub for broadcasting messages over channels.

use vstd::prelude::*;

verus! {

/// The sending half of a crossbeam channel, declared so it can stand in
/// fields and signatures. The value is opaque to verification.
#[verifier::external_type_specification]
#[verifier::external_body]
#[verifier::reject_recursive_types(T)]
pub struct ExSender<T>(crossbeam_channel::Sender<T>);

/// The receiving half of a crossbeam channel, declared so it can stand in
/// fields and signatures. The value is opaque to verification.
#[verifier::external_type_specification]
#[verifier::external_body]
#[verifier::reject_recursive_types(T)]
pub struct ExReceiver<T>(crossbeam_channel::Receiver<T>);

/// Relies on crossbeam_channel::unbounded: creates a channel of unbounded
/// capacity and returns its two halves; a message sent into the sender can
/// be received from the receiver.
#[verifier::external_body]
fn channel_unbounded<T>() -> (crossbeam_channel::Sender<T>, crossbeam_channel::Receiver<T>) {
    crossbeam_channel::unbounded()
}

/// Relies on crossbeam_channel::Sender::try_send: attempts to send a
/// message without blocking and reports whether the channel accepted it; on
/// an unbounded channel the attempt fails only when all receivers are gone.
/// Whether it succeeds depends on the receiving side, so nothing is promised
/// of the result.
#[verifier::external_body]
fn try_send_message<T>(sender: &crossbeam_channel::Sender<T>, message: T) -> bool {
    sender.try_send(message).is_ok()
}

/// Publisher that can broadcast messages to subscribers. Each subscriber
/// holds the receiving half of a channel of its own; publishing sends a
/// clone of the message into every channel and forgets the channels that no
/// longer accept one.
#[verifier::reject_recursive_types(TMessage)]
pub struct Publisher<TMessage> {
    /// Senders to open channels.
    senders: Vec<crossbeam_channel::Sender<TMessage>>,
}

impl<TMessage: Clone> Publisher<TMessage> {
    /// How many subscriber channels the publisher currently holds.
    pub closed spec fn subscriber_count(self) -> nat {
        self.senders@.len()
    }

    /// Returns how many subscriber channels the publisher currently holds.
    pub fn subscribers(&self) -> (n: usize)
        ensures
            n == self.subscriber_count(),
    {
        self.senders.len()
    }

    /// Creates a publisher with no subscriber.
    pub fn new() -> (p: Publisher<TMessage>)
        ensures
            p.subscriber_count() == 0,
    {
        Publisher { senders: Vec::new() }
    }

    /// Creates a channel, keeps its sending half and returns the related
    /// receiver.
    pub fn subscribe(&mut self) -> (receiver: crossbeam_channel::Receiver<TMessage>)
        ensures
            final(self).subscriber_count() == old(self).subscriber_count() + 1,
    {
        let (sender, receiver) = channel_unbounded();
        self.senders.push(sender);
        receiver
    }

    /// Broadcasts a clone of the `message` to all subscribers. A channel
    /// that accepts no message — mainly a disconnected one — is dropped, so
    /// the subscriber count never grows here.
    pub fn publish(&mut self, message: TMessage)
        ensures
            final(self).subscriber_count() <= old(self).subscriber_count(),
    {
        let mut kept: Vec<crossbeam_channel::Sender<TMessage>> = Vec::new();
        let ghost n = self.senders@.len();
        loop
            invariant
                kept@.len() + self.senders@.len() <= n,
            decreases self.senders@.len(),
        {
            let sender = self.senders.pop();
            match sender {
                Some(s) => {
                    if try_send_message(&s, message.clone()) {
                        kept.push(s);
                    }
                },
                None => {
                    break ;
                },
            }
        }
        self.senders = kept;
    }
}

} // verus!
