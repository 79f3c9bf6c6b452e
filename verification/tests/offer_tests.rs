use cred_offer::a2a::A2AMessage;
use cred_offer::attachment::Attachment;
use cred_offer::attachment::AttachmentEncoding;
use cred_offer::attachment::Attachments;
use cred_offer::attachment::Json;
use cred_offer::credential_offer::CredentialOffer;
use cred_offer::error::VcxErrorKind;
use cred_offer::legacy::CredentialOfferV1;
use cred_offer::legacy::LegacyAttrValue;
use cred_offer::preview::CredentialPreviewData;
use cred_offer::preview::MimeType;
use cred_offer::thread::Thread;

fn legacy_offer(
    attrs: Vec<(String, LegacyAttrValue)>,
    libindy_offer: &str,
    thread_id: Option<&str>,
) -> CredentialOfferV1 {
    CredentialOfferV1 {
        msg_type: "CRED_OFFER".to_string(),
        version: "0.1".to_string(),
        to_did: String::new(),
        from_did: String::new(),
        credential_attrs: attrs,
        schema_seq_no: 0,
        claim_name: String::new(),
        claim_id: String::new(),
        msg_ref_id: None,
        cred_def_id: "did:sov:ABC:3:CL:1:tag".to_string(),
        libindy_offer: libindy_offer.to_string(),
        thread_id: thread_id.map(String::from),
    }
}

const PAYLOAD: &str = "{\"cred_def_id\":\"did:sov:ABC:3:CL:1:tag\"}";

#[test]
fn builder_steps_set_fields() {
    let thread = Thread::new().set_thid("th-7".to_string());
    let offer = CredentialOffer::create()
        .set_id("id-1".to_string())
        .set_comment("a comment".to_string())
        .set_thread(thread);
    assert_eq!(offer.id.0, "id-1");
    assert_eq!(offer.comment, "a comment");
    assert_eq!(offer.thread.as_ref().unwrap().thid.as_deref(), Some("th-7"));
    assert!(offer.credential_preview.attributes.is_empty());
    assert!(offer.offers_attach.attachments.is_empty());
}

#[test]
fn create_generates_fresh_identifiers() {
    let first = CredentialOffer::create();
    let second = CredentialOffer::create();
    assert_ne!(first.id.0, second.id.0);
}

#[test]
fn builder_monotonicity() {
    let offer = CredentialOffer::create()
        .add_credential_preview_data("name", "Alice", MimeType::Plain)
        .unwrap();
    assert_eq!(offer.credential_preview.attributes.len(), 1);
    let offer = offer
        .add_credential_preview_data("age", "30", MimeType::Plain)
        .unwrap();
    assert_eq!(offer.credential_preview.attributes.len(), 2);
    let last = offer.credential_preview.attributes.last().unwrap();
    assert_eq!(last.name, "age");
    assert_eq!(last.value, "30");
    assert_eq!(last.mime_type, MimeType::Plain);
}

#[test]
fn attachment_wrap_and_extract_round_trip() {
    let offer = CredentialOffer::create().set_offers_attach(PAYLOAD).unwrap();
    assert_eq!(offer.offers_attach.attachments.len(), 1);
    let content = offer.offers_attach.content().unwrap();
    assert_eq!(content, PAYLOAD);
}

#[test]
fn extract_without_attachment_is_decode_error() {
    let attachments = Attachments::new();
    let err = attachments.content().unwrap_err();
    assert_eq!(err.kind(), VcxErrorKind::DecodeError);
}

#[test]
fn extract_corrupt_body_is_decode_error() {
    let mut attachments = Attachments::new();
    attachments.add(Attachment::Json(Json {
        encoding: AttachmentEncoding::Base64,
        data: b"!!!!".to_vec(),
    }));
    let err = attachments.content().unwrap_err();
    assert_eq!(err.kind(), VcxErrorKind::DecodeError);
}

#[test]
fn extract_non_text_body_is_decode_error() {
    let body = cred_offer::base64::b64_encode(&vec![0xff, 0xfe, 0xfd]);
    let mut attachments = Attachments::new();
    attachments.add(Attachment::Json(Json {
        encoding: AttachmentEncoding::Base64,
        data: body,
    }));
    let err = attachments.content().unwrap_err();
    assert_eq!(err.kind(), VcxErrorKind::DecodeError);
}

#[test]
fn legacy_converts_to_current_concrete_scenario() {
    let legacy = legacy_offer(
        vec![("name".to_string(), LegacyAttrValue::Text("Alice".to_string()))],
        PAYLOAD,
        Some("t1"),
    );
    let current = CredentialOffer::from_legacy(legacy).unwrap();
    assert_eq!(current.id.0, "t1");
    assert_eq!(current.comment, "");
    assert!(current.thread.is_none());
    assert_eq!(current.credential_preview.attributes.len(), 1);
    let attr = &current.credential_preview.attributes[0];
    assert_eq!(attr.name, "name");
    assert_eq!(attr.value, "Alice");
    assert_eq!(attr.mime_type, MimeType::Plain);
    assert_eq!(current.offers_attach.content().unwrap(), PAYLOAD);
}

#[test]
fn legacy_import_coerces_non_string_values_to_empty() {
    let legacy = legacy_offer(
        vec![("age".to_string(), LegacyAttrValue::Other)],
        PAYLOAD,
        None,
    );
    let current = CredentialOffer::from_legacy(legacy).unwrap();
    assert_eq!(current.id.0, "");
    let attr = &current.credential_preview.attributes[0];
    assert_eq!(attr.name, "age");
    assert_eq!(attr.value, "");
}

#[test]
fn round_trip_legacy_to_current_to_legacy() {
    let legacy = legacy_offer(
        vec![
            ("name".to_string(), LegacyAttrValue::Text("Alice".to_string())),
            ("degree".to_string(), LegacyAttrValue::Text("maths".to_string())),
        ],
        PAYLOAD,
        Some("t1"),
    );
    let current = CredentialOffer::from_legacy(legacy).unwrap();
    let back = current.to_legacy().unwrap();
    assert_eq!(
        back.credential_attrs,
        vec![
            ("name".to_string(), LegacyAttrValue::Text("Alice".to_string())),
            ("degree".to_string(), LegacyAttrValue::Text("maths".to_string())),
        ]
    );
    assert_eq!(back.cred_def_id, "did:sov:ABC:3:CL:1:tag");
    assert_eq!(back.thread_id.as_deref(), Some("t1"));
    assert_eq!(back.libindy_offer, PAYLOAD);
}

#[test]
fn round_trip_current_to_legacy_to_current() {
    let current = CredentialOffer::create()
        .set_id("abc-42".to_string())
        .set_comment("will be dropped".to_string())
        .set_offers_attach(PAYLOAD)
        .unwrap();
    let legacy = current.to_legacy().unwrap();
    let back = CredentialOffer::from_legacy(legacy).unwrap();
    assert_eq!(back.id.0, "abc-42");
    // the comment is an expected casualty of the legacy schema
    assert_eq!(back.comment, "");
}

#[test]
fn export_rebuilds_mapping_last_duplicate_wins() {
    let current = CredentialOffer::create()
        .add_credential_preview_data("name", "Alice", MimeType::Plain)
        .unwrap()
        .add_credential_preview_data("name", "Bob", MimeType::Plain)
        .unwrap()
        .add_credential_preview_data("age", "30", MimeType::Plain)
        .unwrap()
        .set_offers_attach(PAYLOAD)
        .unwrap();
    let legacy = current.to_legacy().unwrap();
    assert_eq!(
        legacy.credential_attrs,
        vec![
            ("name".to_string(), LegacyAttrValue::Text("Bob".to_string())),
            ("age".to_string(), LegacyAttrValue::Text("30".to_string())),
        ]
    );
}

#[test]
fn malformed_attachment_yields_invalid_json() {
    let current = CredentialOffer::create()
        .set_offers_attach("this is not json")
        .unwrap();
    let err = current.to_legacy().unwrap_err();
    assert_eq!(err.kind(), VcxErrorKind::InvalidJson);
}

#[test]
fn export_without_attachment_is_decode_error() {
    let err = CredentialOffer::create().to_legacy().unwrap_err();
    assert_eq!(err.kind(), VcxErrorKind::DecodeError);
}

#[test]
fn missing_cred_def_id_degrades_to_empty() {
    let current = CredentialOffer::create()
        .set_offers_attach("{\"other_field\":1}")
        .unwrap();
    let legacy = current.to_legacy().unwrap();
    assert_eq!(legacy.cred_def_id, "");
}

#[test]
fn non_string_cred_def_id_degrades_to_empty() {
    let current = CredentialOffer::create()
        .set_offers_attach("{\"cred_def_id\":17}")
        .unwrap();
    let legacy = current.to_legacy().unwrap();
    assert_eq!(legacy.cred_def_id, "");
}

#[test]
fn export_fills_legacy_defaults() {
    let current = CredentialOffer::create()
        .set_id("t9".to_string())
        .set_offers_attach(PAYLOAD)
        .unwrap();
    let legacy = current.to_legacy().unwrap();
    assert_eq!(legacy.msg_type, "CRED_OFFER");
    assert_eq!(legacy.version, "0.1");
    assert_eq!(legacy.to_did, "");
    assert_eq!(legacy.from_did, "");
    assert_eq!(legacy.schema_seq_no, 0);
    assert_eq!(legacy.claim_name, "");
    assert_eq!(legacy.claim_id, "");
    assert!(legacy.msg_ref_id.is_none());
    assert_eq!(legacy.thread_id.as_deref(), Some("t9"));
}

#[test]
fn set_preview_replaces_whole_preview() {
    let preview = CredentialPreviewData::new()
        .add_value("a", "1", MimeType::Plain)
        .unwrap();
    let offer = CredentialOffer::create()
        .add_credential_preview_data("old", "x", MimeType::Plain)
        .unwrap()
        .set_credential_preview_data(preview)
        .unwrap();
    assert_eq!(offer.credential_preview.attributes.len(), 1);
    assert_eq!(offer.credential_preview.attributes[0].name, "a");
}

#[test]
fn to_a2a_message_carries_the_offer() {
    let offer = CredentialOffer::create().set_id("env-1".to_string());
    let A2AMessage::CredentialOffer(inner) = offer.to_a2a_message();
    assert_eq!(inner.id.0, "env-1");
}
