use vstd::prelude::*;
use crate::credential_offer::CredentialOffer;

verus! {

/// An opaque correlation identifier for a message.
#[derive(Debug)]
pub struct MessageId(pub String);

impl View for MessageId {
    type V = Seq<char>;

    open spec fn view(&self) -> Seq<char> {
        self.0@
    }
}

/// Relies on `uuid::Uuid::new_v4` and its canonical text rendering: a
/// freshly drawn random identifier. The value is random, so nothing is
/// stated of it.
#[verifier::external_body]
fn new_uuid_string() -> (r: String) {
    uuid::Uuid::new_v4().to_string()
}

impl MessageId {
    /// A freshly generated identifier. Its value is random; nothing is
    /// promised of it.
    pub fn new() -> (r: MessageId) {
        MessageId(new_uuid_string())
    }
}

/// The enclosing protocol envelope that carries a message to transport.
/// Of its many message kinds, the credential offer is the one this crate
/// builds.
#[derive(Debug)]
pub enum A2AMessage {
    CredentialOffer(CredentialOffer),
}

} // verus!
