use vstd::prelude::*;
use vstd::string::StrSliceExecFns;
use vstd::string::StringSliceAdditionalSpecFns;
use vstd::utf8::decode_utf8;
use vstd::utf8::encode_utf8;
use vstd::utf8::encode_utf8_decode_utf8;
use vstd::utf8::encode_utf8_valid_utf8;
use vstd::utf8::valid_utf8;
use crate::base64::b64_decode;
use crate::base64::b64_decode_seq;
use crate::base64::b64_encode;
use crate::base64::b64_encode_seq;
use crate::base64::lemma_b64_round_trip;
use crate::error::VcxError;
use crate::error::VcxErrorKind;
use crate::error::VcxResult;

verus! {

/// The transfer encodings an attachment body may declare. Only base64 is
/// in scope here; the tag is kept so that further encodings can join.
#[derive(Clone, Copy, Debug, PartialEq, Eq, Structural)]
pub enum AttachmentEncoding {
    Base64,
}

/// A JSON attachment: content text stored under a transfer encoding. The
/// body holds the encoded form of the content's UTF-8 bytes.
#[derive(Debug)]
pub struct Json {
    pub encoding: AttachmentEncoding,
    pub data: Vec<u8>,
}

/// The mathematical shape of a JSON attachment.
pub ghost struct JsonModel {
    pub encoding: AttachmentEncoding,
    pub data: Seq<u8>,
}

impl View for Json {
    type V = JsonModel;

    open spec fn view(&self) -> JsonModel {
        JsonModel { encoding: self.encoding, data: self.data@ }
    }
}

/// A tagged attachment variant; the JSON variant is the only one this
/// message family uses.
#[derive(Debug)]
pub enum Attachment {
    Json(Json),
}

impl View for Attachment {
    type V = JsonModel;

    open spec fn view(&self) -> JsonModel {
        match self {
            Attachment::Json(j) => j@,
        }
    }
}

/// The ordered list of attachments a message carries.
#[derive(Debug)]
pub struct Attachments {
    pub attachments: Vec<Attachment>,
}

impl View for Attachments {
    type V = Seq<JsonModel>;

    open spec fn view(&self) -> Seq<JsonModel> {
        self.attachments@.map_values(|a: Attachment| a@)
    }
}

/// The body a wrapped content text is stored as: base64 of its UTF-8
/// bytes.
pub open spec fn wrapped_data(content: Seq<char>) -> Seq<u8> {
    b64_encode_seq(encode_utf8(content))
}

/// The content text recovered from an attachment list: the first
/// attachment's body, base64-decoded and read back as UTF-8 text; `None`
/// where no attachment stands or the body does not decode.
pub open spec fn content_model(atts: Seq<JsonModel>) -> Option<Seq<char>> {
    if atts.len() == 0 {
        None
    } else {
        match b64_decode_seq(atts[0].data) {
            Some(bytes) => if valid_utf8(bytes) {
                Some(decode_utf8(bytes))
            } else {
                None
            },
            None => None,
        }
    }
}

/// Relies on `String::from_utf8`: it succeeds exactly on valid UTF-8 and
/// returns the string those bytes encode.
#[verifier::external_body]
fn bytes_to_string(bytes: Vec<u8>) -> (r: Option<String>)
    ensures
        (r is Some) == valid_utf8(bytes@),
        r matches Some(s) ==> s@ == decode_utf8(bytes@),
{
    String::from_utf8(bytes).ok()
}

impl Json {
    /// Wraps content text as an attachment body under the given transfer
    /// encoding. With base64 the only encoding in scope, wrapping never
    /// fails; the result is reported as fallible for the day another
    /// encoding rejects a content.
    pub fn new(content: &str, encoding: AttachmentEncoding) -> (r: VcxResult<Json>)
        ensures
            r matches Ok(j) && j@ == (JsonModel { encoding: encoding, data: wrapped_data(content@) }),
    {
        let bytes = content.as_bytes_vec();
        let data = b64_encode(&bytes);
        Ok(Json { encoding: encoding, data: data })
    }
}

impl Attachments {
    /// An empty attachment list.
    pub fn new() -> (r: Attachments)
        ensures
            r@ == Seq::<JsonModel>::empty(),
    {
        let r = Attachments { attachments: Vec::new() };
        proof {
            assert(r@ =~= Seq::<JsonModel>::empty());
        }
        r
    }

    /// Appends one attachment at the end of the list.
    pub fn add(&mut self, attachment: Attachment)
        ensures
            final(self)@ == old(self)@.push(attachment@),
    {
        let ghost a = attachment@;
        self.attachments.push(attachment);
        proof {
            assert(self@ =~= old(self)@.push(a));
        }
    }

    /// The content text of the first attachment, decoded from its
    /// transfer encoding. Fails with `DecodeError` where no attachment
    /// stands, the body is not base64, or the decoded bytes are not text.
    pub fn content(&self) -> (r: VcxResult<String>)
        ensures
            (r is Ok) == (content_model(self@) is Some),
            r matches Ok(s) ==> Some(s@) == content_model(self@),
            r matches Err(e) ==> e.kind == VcxErrorKind::DecodeError,
    {
        if self.attachments.len() == 0 {
            return Err(
                VcxError::from_msg(VcxErrorKind::DecodeError, "no attachment to decode".to_owned()),
            );
        }
        proof {
            assert(self@[0] == self.attachments@[0]@);
        }
        let att = &self.attachments[0];
        match att {
            Attachment::Json(j) => {
                match b64_decode(&j.data) {
                    Some(bytes) => match bytes_to_string(bytes) {
                        Some(s) => Ok(s),
                        None => Err(
                            VcxError::from_msg(
                                VcxErrorKind::DecodeError,
                                "attachment body does not decode to text".to_owned(),
                            ),
                        ),
                    },
                    None => Err(
                        VcxError::from_msg(
                            VcxErrorKind::DecodeError,
                            "attachment body is not base64".to_owned(),
                        ),
                    ),
                }
            },
        }
    }
}

/// Law: extracting what wrapping stored gives the content text back,
/// byte for byte, whatever the text.
pub proof fn lemma_wrap_extract(encoding: AttachmentEncoding, s: Seq<char>)
    ensures
        content_model(seq![JsonModel { encoding: encoding, data: wrapped_data(s) }]) == Some(s),
{
    lemma_b64_round_trip(encode_utf8(s));
    encode_utf8_valid_utf8(s);
    encode_utf8_decode_utf8(s);
}

} // verus!
