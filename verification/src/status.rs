use vstd::prelude::*;

verus! {

/// Delivery state of a message. `Delivered` and `Failed` are terminal.
#[derive(Clone, Copy, Debug, PartialEq, Eq, Structural)]
pub enum MessageStatus {
    Sending,
    Sent,
    Delivered,
    Failed,
}

impl MessageStatus {
    /// A terminal status never changes again.
    pub open spec fn is_terminal(self) -> bool {
        self == MessageStatus::Delivered || self == MessageStatus::Failed
    }

    /// Position of a status in the one-way progression.
    pub open spec fn rank(self) -> nat {
        match self {
            MessageStatus::Sending => 0,
            MessageStatus::Sent => 1,
            MessageStatus::Delivered => 2,
            MessageStatus::Failed => 2,
        }
    }
}

/// The legal moves: out of `Sending` to any other status, out of `Sent` to a
/// terminal status, and nothing else.
pub open spec fn is_legal_move(current: MessageStatus, requested: MessageStatus) -> bool {
    match current {
        MessageStatus::Sending => requested != MessageStatus::Sending,
        MessageStatus::Sent => requested.is_terminal(),
        MessageStatus::Delivered => false,
        MessageStatus::Failed => false,
    }
}

/// The status a message has after `requested` is asked of it.
pub open spec fn transition(current: MessageStatus, requested: MessageStatus) -> MessageStatus {
    if is_legal_move(current, requested) {
        requested
    } else {
        current
    }
}

/// Applies a requested status change, keeping the current status where the
/// move is not legal. The caller always gets a definite status back.
pub fn safe_update_message_status(current: &MessageStatus, new: MessageStatus) -> (effective: MessageStatus)
    ensures
        effective == transition(*current, new),
{
    match (*current, new) {
        (MessageStatus::Sending, MessageStatus::Sent) => new,
        (MessageStatus::Sending, MessageStatus::Delivered) => new,
        (MessageStatus::Sending, MessageStatus::Failed) => new,
        (MessageStatus::Sent, MessageStatus::Delivered) => new,
        (MessageStatus::Sent, MessageStatus::Failed) => new,
        _ => *current,
    }
}

/// A terminal status absorbs every request.
pub proof fn lemma_terminal_is_absorbing(current: MessageStatus, requested: MessageStatus)
    requires
        current.is_terminal(),
    ensures
        transition(current, requested) == current,
{
}

/// From a non-terminal status a forward request is taken as it is, and any
/// other request changes nothing.
pub proof fn lemma_forward_or_unchanged(current: MessageStatus, requested: MessageStatus)
    requires
        !current.is_terminal(),
    ensures
        current.rank() < requested.rank() ==> transition(current, requested) == requested,
        current.rank() >= requested.rank() ==> transition(current, requested) == current,
{
}

/// A status never moves backwards, whatever is requested.
pub proof fn lemma_transition_never_regresses(current: MessageStatus, requested: MessageStatus)
    ensures
        current.rank() <= transition(current, requested).rank(),
        transition(transition(current, requested), requested) == transition(current, requested),
{
}

} // verus!
