use vstd::prelude::*;

verus! {

/// The kinds of failure this library reports: a preview value not
/// representable under its mime type, an attachment that cannot be
/// encoded, an attachment whose stored body cannot be decoded back to
/// text, and attachment content that is not valid JSON.
#[derive(Clone, Copy, Debug, PartialEq, Eq, Structural)]
pub enum VcxErrorKind {
    ValidationError,
    EncodingError,
    DecodeError,
    InvalidJson,
}

/// An error of this library: a kind plus a human-readable message.
#[derive(Debug)]
pub struct VcxError {
    pub kind: VcxErrorKind,
    pub message: String,
}

impl VcxError {
    pub fn from_msg(kind: VcxErrorKind, message: String) -> (r: VcxError)
        ensures
            r.kind == kind,
            r.message@ == message@,
    {
        VcxError { kind: kind, message: message }
    }

    pub fn kind(&self) -> (r: VcxErrorKind)
        ensures
            r == self.kind,
    {
        self.kind
    }

    pub fn message(&self) -> (r: &String)
        ensures
            r@ == self.message@,
    {
        &self.message
    }
}

pub type VcxResult<T> = Result<T, VcxError>;

} // verus!
