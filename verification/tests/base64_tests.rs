use cred_offer::base64::b64_decode;
use cred_offer::base64::b64_encode;

#[test]
fn encode_known_vectors() {
    assert_eq!(b64_encode(&b"Man".to_vec()), b"TWFu".to_vec());
    assert_eq!(b64_encode(&b"Ma".to_vec()), b"TWE=".to_vec());
    assert_eq!(b64_encode(&b"M".to_vec()), b"TQ==".to_vec());
    assert_eq!(b64_encode(&Vec::new()), Vec::<u8>::new());
    assert_eq!(
        b64_encode(&b"any carnal pleasure.".to_vec()),
        b"YW55IGNhcm5hbCBwbGVhc3VyZS4=".to_vec()
    );
}

#[test]
fn decode_known_vectors() {
    assert_eq!(b64_decode(&b"TWFu".to_vec()), Some(b"Man".to_vec()));
    assert_eq!(b64_decode(&b"TWE=".to_vec()), Some(b"Ma".to_vec()));
    assert_eq!(b64_decode(&b"TQ==".to_vec()), Some(b"M".to_vec()));
    assert_eq!(b64_decode(&Vec::new()), Some(Vec::<u8>::new()));
}

#[test]
fn decode_rejects_malformed_text() {
    // not a multiple of four alphabet bytes
    assert_eq!(b64_decode(&b"TWE".to_vec()), None);
    // bytes outside the alphabet
    assert_eq!(b64_decode(&b"!!!!".to_vec()), None);
    // padding in the middle
    assert_eq!(b64_decode(&b"TW==TWFu".to_vec()), None);
    // padding bits that are not zero
    assert_eq!(b64_decode(&b"TWF=".to_vec()), None);
    assert_eq!(b64_decode(&b"TW5=".to_vec()), None);
}

#[test]
fn round_trips_arbitrary_bytes() {
    let samples: Vec<Vec<u8>> = vec![
        vec![],
        vec![0],
        vec![255],
        vec![0, 1, 2, 3, 4, 5, 6, 7],
        vec![250, 251, 252, 253, 254, 255, 0],
        b"{\"cred_def_id\":\"did:sov:ABC:3:CL:1:tag\"}".to_vec(),
    ];
    for bytes in samples {
        let encoded = b64_encode(&bytes);
        assert_eq!(b64_decode(&encoded), Some(bytes));
    }
}
