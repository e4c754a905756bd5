//! Bybit spot streaming.
use vstd::prelude::*;

pub mod local_order_book;
pub mod parsers;
pub mod spot;

pub use spot::BybitSpot;

verus! {

/// The subscribe command: `{"op":"subscribe","args":[...]}`.
#[derive(Debug, Clone)]
pub struct SubscriptionRequest {
    op: &'static str,
    args: Vec<String>,
}

impl SubscriptionRequest {
    /// The operation name.
    pub closed spec fn op_spec(&self) -> Seq<char> {
        self.op@
    }

    /// The topics.
    pub closed spec fn args_spec(&self) -> Seq<String> {
        self.args@
    }

    /// A subscribe command for the topics `subscriptions`.
    pub fn new(subscriptions: Vec<String>) -> (r: Self)
        ensures
            r.op_spec() == "subscribe"@,
            r.args_spec() == subscriptions@,
    {
        Self { op: "subscribe", args: subscriptions }
    }

    /// The operation name.
    pub fn op(&self) -> (s: &'static str)
        ensures
            s@ == self.op_spec(),
    {
        self.op
    }

    /// The topics.
    pub fn args(&self) -> (a: &Vec<String>)
        ensures
            a@ == self.args_spec(),
    {
        &self.args
    }
}

} // verus!
