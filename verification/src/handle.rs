//! What whoever gives a command to the executor is answered.
use vstd::prelude::*;

verus! {

/// Why a command was not carried out.
#[derive(Clone, Copy, PartialEq, Eq, Structural, Debug)]
pub enum ExecutorCommandError {
    /// The executor has stopped.
    ChannelClosed,
}

/// How a command fared on its way to the executor and back.
pub enum Delivery {
    /// The command could not be sent.
    NotSent,
    /// The command was sent, and the executor dropped it without a reply.
    NoReply,
    /// The executor replied.
    Replied(Result<(), ExecutorCommandError>),
}

/// The answer to a command: the executor's reply, or that the channel is closed where there is none.
pub open spec fn answer(delivery: Delivery) -> Result<(), ExecutorCommandError> {
    match delivery {
        Delivery::Replied(reply) => reply,
        _ => Err(ExecutorCommandError::ChannelClosed),
    }
}

fn answer_to(delivery: Delivery) -> (outcome: Result<(), ExecutorCommandError>)
    ensures
        outcome == answer(delivery),
{
    match delivery {
        Delivery::NotSent => Err(ExecutorCommandError::ChannelClosed),
        Delivery::NoReply => Err(ExecutorCommandError::ChannelClosed),
        Delivery::Replied(reply) => reply,
    }
}

/// Remotely controls block production. Holds what each call is answered; the channels belong to
/// whoever makes the calls.
pub struct BlockProductionHandle;

impl BlockProductionHandle {
    /// The answer to the command that closes the current block without waiting for its time.
    pub fn close_block(delivery: Delivery) -> (outcome: Result<(), ExecutorCommandError>)
        ensures
            outcome == answer(delivery),
    {
        answer_to(delivery)
    }

    /// The answer to the command that appends a batch that was executed elsewhere.
    pub fn append_batch(delivery: Delivery) -> (outcome: Result<(), ExecutorCommandError>)
        ensures
            outcome == answer(delivery),
    {
        answer_to(delivery)
    }

    /// The answer to a transaction that is sent past the mempool and validation.
    pub fn send_tx_raw(sent: bool) -> (outcome: Result<(), ExecutorCommandError>)
        ensures
            outcome == if sent {
                Ok::<(), ExecutorCommandError>(())
            } else {
                Err(ExecutorCommandError::ChannelClosed)
            },
    {
        if sent {
            Ok(())
        } else {
            Err(ExecutorCommandError::ChannelClosed)
        }
    }
}

/// A command is answered as accepted only if the executor replied so, and the executor's reply is
/// never replaced; without a reply the answer is that the channel is closed.
pub proof fn only_the_executor_accepts(reply: Result<(), ExecutorCommandError>)
    ensures
        answer(Delivery::Replied(reply)) == reply,
        answer(Delivery::NotSent) == Err::<(), ExecutorCommandError>(ExecutorCommandError::ChannelClosed),
        answer(Delivery::NoReply) == Err::<(), ExecutorCommandError>(ExecutorCommandError::ChannelClosed),
{
}

} // verus!
