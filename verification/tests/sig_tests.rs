use m3kern::sig::{verify_chain, verify_signature, CertLayer, PublicKey, SigError};

fn hex(s: &str) -> Vec<u8> {
    (0..s.len()).step_by(2).map(|i| u8::from_str_radix(&s[i..i + 2], 16).unwrap()).collect()
}

fn key() -> [u8; 32] {
    hex("d75a980182b10ab7d54bfed3c964073a0ee172f3daa62325af021a68f707511a").try_into().unwrap()
}

fn sig() -> [u8; 64] {
    hex("e5564300c360ac729086e2cc806e828a84877f1eb8e5d974d873e065224901555fb8821590a33bacc61e39701cf9b46bd25bf5f0595bbe24655141438e7a100b")
        .try_into()
        .unwrap()
}

#[test]
fn signature_of_empty_message_verifies() {
    assert_eq!(verify_signature(key(), &vec![], sig()), Ok(()));
}

#[test]
fn tampered_signature_or_message_is_refused() {
    let mut bad = sig();
    bad[0] ^= 1;
    assert_eq!(verify_signature(key(), &vec![], bad), Err(SigError::BadSignature));
    assert_eq!(verify_signature(key(), &vec![1], sig()), Err(SigError::BadSignature));
}

#[test]
fn undecodable_key_is_refused() {
    // y = 2 is not the y-coordinate of a curve point
    let mut k = [0u8; 32];
    k[0] = 2;
    assert!(PublicKey::decode(k).is_none());
    assert_eq!(verify_signature(k, &vec![], sig()), Err(SigError::BadKey));
    assert!(PublicKey::decode(key()).is_some());
}

#[test]
fn chain_reports_first_bad_layer() {
    let good = CertLayer { pub_key: key(), signature: sig(), payload: vec![] };
    let bad = CertLayer { pub_key: key(), signature: sig(), payload: vec![7] };
    assert_eq!(verify_chain(&vec![]), Ok(()));
    assert_eq!(
        verify_chain(&vec![CertLayer { pub_key: key(), signature: sig(), payload: vec![] }, good]),
        Ok(())
    );
    let good2 = CertLayer { pub_key: key(), signature: sig(), payload: vec![] };
    assert_eq!(verify_chain(&vec![good2, bad]), Err((1, SigError::BadSignature)));
}
