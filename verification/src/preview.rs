use vstd::prelude::*;
use crate::error::VcxResult;

verus! {

/// The mime types a preview attribute may declare. Only plain text is in
/// scope; the tag is kept extensible.
#[derive(Clone, Copy, Debug, PartialEq, Eq, Structural)]
pub enum MimeType {
    Plain,
}

/// One attribute descriptor of a credential preview: a name, a value and
/// the mime type under which the value is to be read.
#[derive(Debug, PartialEq)]
pub struct CredentialValue {
    pub name: String,
    pub value: String,
    pub mime_type: MimeType,
}

/// The mathematical shape of a preview attribute.
pub ghost struct AttrModel {
    pub name: Seq<char>,
    pub value: Seq<char>,
    pub mime_type: MimeType,
}

impl View for CredentialValue {
    type V = AttrModel;

    open spec fn view(&self) -> AttrModel {
        AttrModel { name: self.name@, value: self.value@, mime_type: self.mime_type }
    }
}

/// The ordered attribute list a credential preview carries. Names need
/// not be unique in storage; conversion to the legacy schema collapses
/// duplicates, the last occurrence winning.
#[derive(Debug)]
pub struct CredentialPreviewData {
    pub attributes: Vec<CredentialValue>,
}

impl View for CredentialPreviewData {
    type V = Seq<AttrModel>;

    open spec fn view(&self) -> Seq<AttrModel> {
        self.attributes@.map_values(|a: CredentialValue| a@)
    }
}

/// Whether a value string is representable under a mime type: plain text
/// accepts every string.
pub open spec fn representable(value: Seq<char>, mime_type: MimeType) -> bool {
    match mime_type {
        MimeType::Plain => true,
    }
}

impl CredentialPreviewData {
    /// An empty preview.
    pub fn new() -> (r: CredentialPreviewData)
        ensures
            r@ == Seq::<AttrModel>::empty(),
    {
        let r = CredentialPreviewData { attributes: Vec::new() };
        proof {
            assert(r@ =~= Seq::<AttrModel>::empty());
        }
        r
    }

    /// Appends one attribute descriptor after checking that the value is
    /// representable under the mime type. Plain text accepts every value,
    /// so with it this step never fails; the preview grows by exactly
    /// one, the new descriptor last.
    pub fn add_value(self, name: &str, value: &str, mime_type: MimeType) -> (r: VcxResult<
        CredentialPreviewData,
    >)
        ensures
            (r is Ok) == representable(value@, mime_type),
            r matches Ok(p) ==> p@ == self@.push(
                AttrModel { name: name@, value: value@, mime_type: mime_type },
            ),
    {
        match mime_type {
            MimeType::Plain => {
                let mut attributes = self.attributes;
                let descriptor = CredentialValue {
                    name: name.to_owned(),
                    value: value.to_owned(),
                    mime_type: mime_type,
                };
                let ghost d = descriptor@;
                let ghost before = attributes@;
                attributes.push(descriptor);
                let p = CredentialPreviewData { attributes: attributes };
                proof {
                    assert(p@ =~= before.map_values(|a: CredentialValue| a@).push(d));
                }
                Ok(p)
            },
        }
    }
}

} // verus!
