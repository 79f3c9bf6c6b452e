use vstd::prelude::*;

verus! {

/// Thread correlation metadata linking the messages of one protocol
/// exchange. It is opaque to this message core: set whole, carried
/// through unchanged.
#[derive(Debug)]
pub struct Thread {
    pub thid: Option<String>,
    pub sender_order: u32,
}

/// The mathematical shape of a thread reference.
pub ghost struct ThreadModel {
    pub thid: Option<Seq<char>>,
    pub sender_order: u32,
}

impl View for Thread {
    type V = ThreadModel;

    open spec fn view(&self) -> ThreadModel {
        ThreadModel { thid: self.thid.deep_view(), sender_order: self.sender_order }
    }
}

impl Thread {
    /// A fresh thread reference: no thread id, sender order zero.
    pub fn new() -> (r: Thread)
        ensures
            r@ == (ThreadModel { thid: None, sender_order: 0u32 }),
    {
        Thread { thid: None, sender_order: 0 }
    }

    /// Replaces the thread id.
    pub fn set_thid(self, thid: String) -> (r: Thread)
        ensures
            r@ == (ThreadModel { thid: Some(thid@), sender_order: self@.sender_order }),
    {
        Thread { thid: Some(thid), sender_order: self.sender_order }
    }
}

} // verus!
