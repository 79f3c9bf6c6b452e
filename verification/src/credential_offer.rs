use vstd::prelude::*;
use crate::a2a::A2AMessage;
use crate::a2a::MessageId;
use crate::attachment::content_model;
use crate::attachment::lemma_wrap_extract;
use crate::attachment::wrapped_data;
use crate::attachment::Attachment;
use crate::attachment::AttachmentEncoding;
use crate::attachment::Attachments;
use crate::attachment::Json;
use crate::attachment::JsonModel;
use crate::error::VcxError;
use crate::error::VcxErrorKind;
use crate::error::VcxResult;
use crate::json_text::parse_cred_def_id;
use crate::json_text::parsed_offer;
use crate::legacy::attrs_model;
use crate::legacy::attrs_of_preview;
use crate::legacy::coerced_text;
use crate::legacy::insert_attr;
use crate::legacy::keys_unique;
use crate::legacy::lemma_attrs_round_trip;
use crate::legacy::preview_of_attrs;
use crate::legacy::AttrValModel;
use crate::legacy::CredentialOfferV1;
use crate::legacy::LegacyAttrValue;
use crate::legacy::LegacyModel;
use crate::preview::AttrModel;
use crate::preview::CredentialPreviewData;
use crate::thread::Thread;
use crate::thread::ThreadModel;
use crate::preview::MimeType;

verus! {

/// The credential offer message in the current schema: an identifier, a
/// comment, a credential preview, the offer payload as an attachment, and
/// an optional thread reference.
#[derive(Debug)]
pub struct CredentialOffer {
    pub id: MessageId,
    pub comment: String,
    pub credential_preview: CredentialPreviewData,
    pub offers_attach: Attachments,
    pub thread: Option<Thread>,
}

/// The mathematical shape of a current-schema credential offer.
pub ghost struct OfferModel {
    pub id: Seq<char>,
    pub comment: Seq<char>,
    pub credential_preview: Seq<AttrModel>,
    pub offers_attach: Seq<JsonModel>,
    pub thread: Option<ThreadModel>,
}

impl View for CredentialOffer {
    type V = OfferModel;

    open spec fn view(&self) -> OfferModel {
        OfferModel {
            id: self.id@,
            comment: self.comment@,
            credential_preview: self.credential_preview@,
            offers_attach: self.offers_attach@,
            thread: match self.thread {
                Some(t) => Some(t@),
                None => None,
            },
        }
    }
}

/// The current-schema shape the legacy import produces: attributes carried
/// over in mapping order under the plain-text mime type, the identifier
/// taken from the legacy thread id (empty where absent), the raw payload
/// wrapped verbatim, comment and thread left at their defaults.
pub open spec fn current_of_legacy(l: LegacyModel) -> OfferModel {
    OfferModel {
        id: match l.thread_id {
            Some(t) => t,
            None => Seq::<char>::empty(),
        },
        comment: Seq::<char>::empty(),
        credential_preview: preview_of_attrs(l.credential_attrs),
        offers_attach: seq![
            JsonModel { encoding: AttachmentEncoding::Base64, data: wrapped_data(l.libindy_offer) },
        ],
        thread: None,
    }
}

/// The legacy shape the export produces, or `None` where the attachment
/// yields no valid JSON text. The attribute mapping collapses duplicate
/// preview names, last occurrence winning; a missing or non-string
/// `cred_def_id` field degrades to the empty string; every legacy field
/// with no current equivalent is zero or empty — this direction is lossy.
pub open spec fn legacy_of_current(c: OfferModel) -> Option<LegacyModel> {
    match content_model(c.offers_attach) {
        Some(content) => match parsed_offer(content) {
            Some(f) => Some(
                LegacyModel {
                    msg_type: "CRED_OFFER"@,
                    version: "0.1"@,
                    to_did: Seq::<char>::empty(),
                    from_did: Seq::<char>::empty(),
                    credential_attrs: attrs_of_preview(c.credential_preview),
                    schema_seq_no: 0u64,
                    claim_name: Seq::<char>::empty(),
                    claim_id: Seq::<char>::empty(),
                    msg_ref_id: None,
                    cred_def_id: match f {
                        Some(x) => x,
                        None => Seq::<char>::empty(),
                    },
                    libindy_offer: content,
                    thread_id: Some(c.id),
                },
            ),
            None => None,
        },
        None => None,
    }
}

impl CredentialOffer {
    /// A fresh offer: a newly generated identifier, empty comment, empty
    /// preview, no attachment, no thread. Never fails.
    pub fn create() -> (r: CredentialOffer)
        ensures
            r@.comment == Seq::<char>::empty(),
            r@.credential_preview == Seq::<AttrModel>::empty(),
            r@.offers_attach == Seq::<JsonModel>::empty(),
            r@.thread is None,
    {
        CredentialOffer {
            id: MessageId::new(),
            comment: String::new(),
            credential_preview: CredentialPreviewData::new(),
            offers_attach: Attachments::new(),
            thread: None,
        }
    }

    /// Replaces the identifier; every other field stays.
    pub fn set_id(self, id: String) -> (r: CredentialOffer)
        ensures
            r@ == (OfferModel { id: id@, ..self@ }),
    {
        CredentialOffer { id: MessageId(id), ..self }
    }

    /// Replaces the comment; every other field stays.
    pub fn set_comment(self, comment: String) -> (r: CredentialOffer)
        ensures
            r@ == (OfferModel { comment: comment@, ..self@ }),
    {
        CredentialOffer { comment: comment, ..self }
    }

    /// Wraps the given offer payload text verbatim as a JSON attachment
    /// under the base64 transfer encoding and appends it. With base64 the
    /// only encoding in scope this never fails; the result stays fallible
    /// for the day another encoding rejects a payload.
    pub fn set_offers_attach(self, credential_offer: &str) -> (r: VcxResult<CredentialOffer>)
        ensures
            r matches Ok(c) && c@ == (OfferModel {
                offers_attach: self@.offers_attach.push(
                    JsonModel {
                        encoding: AttachmentEncoding::Base64,
                        data: wrapped_data(credential_offer@),
                    },
                ),
                ..self@
            }),
    {
        let json = match Json::new(credential_offer, AttachmentEncoding::Base64) {
            Ok(j) => j,
            Err(e) => {
                return Err(e);
            },
        };
        let mut updated = self;
        updated.offers_attach.add(Attachment::Json(json));
        Ok(updated)
    }

    /// Replaces the whole preview. Validation is deferred to individual
    /// attribute addition, so this never fails.
    pub fn set_credential_preview_data(self, credential_preview: CredentialPreviewData) -> (r:
        VcxResult<CredentialOffer>)
        ensures
            r matches Ok(c) && c@ == (OfferModel {
                credential_preview: credential_preview@,
                ..self@
            }),
    {
        Ok(CredentialOffer { credential_preview: credential_preview, ..self })
    }

    /// Appends one preview attribute after the mime-type check: the
    /// preview grows by exactly one and its last descriptor is the given
    /// (name, value, mime type). Plain text accepts every value, so with
    /// it this never fails.
    pub fn add_credential_preview_data(self, name: &str, value: &str, mime_type: MimeType) -> (r:
        VcxResult<CredentialOffer>)
        ensures
            r matches Ok(c) && c@ == (OfferModel {
                credential_preview: self@.credential_preview.push(
                    AttrModel { name: name@, value: value@, mime_type: mime_type },
                ),
                ..self@
            }),
    {
        let preview = match self.credential_preview.add_value(name, value, mime_type) {
            Ok(p) => p,
            Err(e) => {
                return Err(e);
            },
        };
        Ok(
            CredentialOffer {
                id: self.id,
                comment: self.comment,
                credential_preview: preview,
                offers_attach: self.offers_attach,
                thread: self.thread,
            },
        )
    }

    /// Sets the thread reference; every other field stays.
    pub fn set_thread(self, thread: Thread) -> (r: CredentialOffer)
        ensures
            r@ == (OfferModel { thread: Some(thread@), ..self@ }),
    {
        CredentialOffer { thread: Some(thread), ..self }
    }

    /// Moves this offer into the enclosing protocol envelope.
    pub fn to_a2a_message(self) -> (r: A2AMessage)
        ensures
            r matches A2AMessage::CredentialOffer(c) && c@ == self@,
    {
        A2AMessage::CredentialOffer(self)
    }

    /// Adapts a legacy offer to the current schema: each mapping entry
    /// becomes a plain-text preview attribute (a non-string value degrades
    /// to the empty string — a deliberate leniency), the identifier comes
    /// from the legacy thread id (empty where absent), and the raw payload
    /// is wrapped verbatim, byte for byte. Never fails.
    pub fn from_legacy(legacy: CredentialOfferV1) -> (r: VcxResult<CredentialOffer>)
        ensures
            r matches Ok(c) && c@ == current_of_legacy(legacy@),
    {
        let CredentialOfferV1 { credential_attrs, thread_id, libindy_offer, .. } = legacy;
        let mut credential_preview = CredentialPreviewData::new();
        let n = credential_attrs.len();
        let mut i: usize = 0;
        proof {
            assert(attrs_model(credential_attrs@).take(0) =~= Seq::<(
                Seq<char>,
                AttrValModel,
            )>::empty());
            assert(preview_of_attrs(attrs_model(credential_attrs@).take(0)) =~= Seq::<
                AttrModel,
            >::empty());
        }
        while i < n
            invariant
                n == credential_attrs.len(),
                i <= n,
                credential_preview@ == preview_of_attrs(
                    attrs_model(credential_attrs@).take(i as int),
                ),
            decreases n - i,
        {
            let pair = &credential_attrs[i];
            let value_text = match &pair.1 {
                LegacyAttrValue::Text(s) => s.clone(),
                LegacyAttrValue::Other => String::new(),
            };
            let appended = match credential_preview.add_value(
                pair.0.as_str(),
                value_text.as_str(),
                MimeType::Plain,
            ) {
                Ok(p) => p,
                Err(e) => {
                    return Err(e);
                },
            };
            credential_preview = appended;
            proof {
                let am = attrs_model(credential_attrs@);
                assert(am[i as int] == (credential_attrs@[i as int].0@, credential_attrs@[
                    i as int
                ].1@));
                assert(value_text@ == coerced_text(am[i as int].1));
                assert(am.take(i as int + 1) =~= am.take(i as int).push(am[i as int]));
                assert(preview_of_attrs(am.take(i as int + 1)) =~= preview_of_attrs(
                    am.take(i as int),
                ).push(
                    AttrModel {
                        name: am[i as int].0,
                        value: coerced_text(am[i as int].1),
                        mime_type: MimeType::Plain,
                    },
                ));
            }
            i = i + 1;
        }
        proof {
            assert(attrs_model(credential_attrs@).take(n as int) =~= attrs_model(
                credential_attrs@,
            ));
        }
        let id = match thread_id {
            Some(t) => t,
            None => String::new(),
        };
        let created = CredentialOffer::create();
        let with_id = created.set_id(id);
        let with_preview = match with_id.set_credential_preview_data(credential_preview) {
            Ok(o) => o,
            Err(e) => {
                return Err(e);
            },
        };
        let with_attach = match with_preview.set_offers_attach(libindy_offer.as_str()) {
            Ok(o) => o,
            Err(e) => {
                return Err(e);
            },
        };
        proof {
            assert(Seq::<JsonModel>::empty().push(
                JsonModel {
                    encoding: AttachmentEncoding::Base64,
                    data: wrapped_data(libindy_offer@),
                },
            ) =~= seq![
                JsonModel { encoding: AttachmentEncoding::Base64, data: wrapped_data(libindy_offer@) },
            ]);
        }
        Ok(with_attach)
    }

    /// Adapts this offer to the legacy schema. The attachment content is
    /// extracted and must parse as JSON (else the export fails); the
    /// `cred_def_id` string field is read from it, degrading to the empty
    /// string where missing or not a string; the attribute mapping is
    /// rebuilt from the preview, duplicate names collapsing to the last
    /// occurrence; the thread id takes this offer's identifier. Every
    /// legacy field with no current equivalent is zero or empty: this
    /// direction is lossy, and the comment is dropped.
    pub fn to_legacy(self) -> (r: VcxResult<CredentialOfferV1>)
        ensures
            (r is Ok) == (legacy_of_current(self@) is Some),
            r matches Ok(v) ==> Some(v@) == legacy_of_current(self@),
            r matches Err(e) ==> e.kind == (if content_model(self@.offers_attach) is None {
                VcxErrorKind::DecodeError
            } else {
                VcxErrorKind::InvalidJson
            }),
    {
        let CredentialOffer { id, credential_preview, offers_attach, .. } = self;
        let indy_cred_offer_json = match offers_attach.content() {
            Ok(s) => s,
            Err(e) => {
                return Err(e);
            },
        };
        let cred_def_id = match parse_cred_def_id(indy_cred_offer_json.as_str()) {
            Some(field) => match field {
                Some(s) => s,
                None => String::new(),
            },
            None => {
                return Err(
                    VcxError::from_msg(
                        VcxErrorKind::InvalidJson,
                        "cannot deserialize the offer payload: not valid JSON".to_owned(),
                    ),
                );
            },
        };
        let mut credential_attrs: Vec<(String, LegacyAttrValue)> = Vec::new();
        let n = credential_preview.attributes.len();
        let mut i: usize = 0;
        proof {
            assert(attrs_model(credential_attrs@) =~= Seq::<(Seq<char>, AttrValModel)>::empty());
            assert(credential_preview@.take(0) =~= Seq::<AttrModel>::empty());
        }
        while i < n
            invariant
                n == credential_preview.attributes.len(),
                i <= n,
                attrs_model(credential_attrs@) == attrs_of_preview(
                    credential_preview@.take(i as int),
                ),
            decreases n - i,
        {
            let attr = &credential_preview.attributes[i];
            insert_attr(&mut credential_attrs, attr.name.clone(), attr.value.clone());
            proof {
                let p = credential_preview@;
                assert(p[i as int] == credential_preview.attributes@[i as int]@);
                assert(p.take(i as int + 1).drop_last() =~= p.take(i as int));
                assert(p.take(i as int + 1).last() == p[i as int]);
            }
            i = i + 1;
        }
        proof {
            assert(credential_preview@.take(n as int) =~= credential_preview@);
        }
        Ok(
            CredentialOfferV1 {
                msg_type: "CRED_OFFER".to_owned(),
                version: "0.1".to_owned(),
                to_did: String::new(),
                from_did: String::new(),
                credential_attrs: credential_attrs,
                schema_seq_no: 0,
                claim_name: String::new(),
                claim_id: String::new(),
                msg_ref_id: None,
                cred_def_id: cred_def_id,
                libindy_offer: indy_cred_offer_json,
                thread_id: Some(id.0),
            },
        )
    }
}

/// Law (round trip, legacy to current and back): a legacy offer with a
/// thread id, pairwise-distinct attribute names, only string attribute
/// values, and a payload that is valid JSON whose `cred_def_id` string
/// field equals the offer's own, comes back from the current schema with
/// the same attribute mapping, the same `cred_def_id`, the same thread id,
/// and its payload byte for byte.
pub proof fn lemma_round_trip_legacy(l: LegacyModel)
    requires
        l.thread_id is Some,
        keys_unique(l.credential_attrs),
        forall|j: int| 0 <= j < l.credential_attrs.len() ==> l.credential_attrs[j].1 is Text,
        parsed_offer(l.libindy_offer) == Some(Some(l.cred_def_id)),
    ensures
        legacy_of_current(current_of_legacy(l)) matches Some(back)
            && back.credential_attrs == l.credential_attrs && back.cred_def_id == l.cred_def_id
            && back.thread_id == l.thread_id && back.libindy_offer == l.libindy_offer,
{
    let c = current_of_legacy(l);
    lemma_wrap_extract(AttachmentEncoding::Base64, l.libindy_offer);
    assert(content_model(c.offers_attach) == Some(l.libindy_offer));
    lemma_attrs_round_trip(l.credential_attrs);
}

/// Law (round trip, current to legacy and back): wherever the export
/// succeeds, re-importing its result preserves the identifier exactly and
/// resets the comment to empty — the comment loss is an expected lossy
/// step of the legacy schema, not an accident.
pub proof fn lemma_round_trip_current(c: OfferModel)
    ensures
        legacy_of_current(c) matches Some(l) ==> current_of_legacy(l).id == c.id,
        legacy_of_current(c) matches Some(l) ==> current_of_legacy(l).comment == Seq::<
            char,
        >::empty(),
{
}

} // verus!
