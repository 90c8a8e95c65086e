//! What a subscription answers when it ends.

use vstd::prelude::*;

verus! {

/// The answer of a subscription that has come to its end.
#[derive(Debug, PartialEq, Eq)]
pub enum SubscriptionResponse<T> {
    /// The subscription was closed, no further message is sent.
    Closed,
    /// Send out a notification.
    Event(T),
}

impl<T> SubscriptionResponse<T> {
    /// The notification to send, if there is one.
    pub fn into_event(self) -> (event: Option<T>)
        ensures
            event == match self {
                SubscriptionResponse::Closed => None::<T>,
                SubscriptionResponse::Event(e) => Some(e),
            },
    {
        match self {
            SubscriptionResponse::Closed => None,
            SubscriptionResponse::Event(e) => Some(e),
        }
    }
}

} // verus!
