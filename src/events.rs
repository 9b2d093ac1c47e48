use vstd::prelude::*;

verus! {

/// A class of notification that a connection can be subscribed to.
#[derive(Clone, Copy, Debug, PartialEq, Eq, Structural, Hash)]
pub enum RealTimeEvent {
    /// Fires when the user `followed_user_id` publishes a post.
    NewPostNotification { followed_user_id: i64 },
    /// Fires whenever the number of connected authenticated users changes.
    ConnectedUsersCountUpdate,
}

/// One payload to push to a set of connections, each of them once.
#[derive(Debug)]
pub struct Delivery {
    /// The handles that the payload goes to.
    pub recipients: Vec<u64>,
    /// The frame to send, as JSON text.
    pub payload: String,
}

} // verus!
