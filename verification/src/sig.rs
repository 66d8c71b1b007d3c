//! Ed25519 signatures on attestation certificates: decoding keys and signatures and verifying
//! a chain of certificates, each signed with the key of the layer below.
use vstd::prelude::*;

use ed25519_dalek::{Signature, VerifyingKey};

verus! {

/// `ed25519_dalek::VerifyingKey`, a decoded public key, carried through opaquely.
#[verifier::external_type_specification]
#[verifier::external_body]
pub struct ExVerifyingKey(VerifyingKey);

/// `ed25519_dalek::Signature`, a decoded signature, carried through opaquely.
#[verifier::external_type_specification]
#[verifier::external_body]
pub struct ExSignature(Signature);

/// Do these 32 bytes encode a public key, i.e., decompress to a point of the curve?
pub uninterp spec fn key_decodes(bytes: Seq<u8>) -> bool;

/// Is `sig` a valid signature of `msg` under the public key encoded as `key`?
pub uninterp spec fn signature_valid(key: Seq<u8>, msg: Seq<u8>, sig: Seq<u8>) -> bool;

/// `VerifyingKey::from_bytes`: decompresses the encoded point; it gives a key exactly when the
/// bytes decode, which depends on the bytes alone.
#[verifier::external_body]
fn decode_key(bytes: &[u8; 32]) -> (r: Option<VerifyingKey>)
    ensures
        r is Some == key_decodes(bytes@),
{
    VerifyingKey::from_bytes(bytes).ok()
}

/// `Signature::from_bytes`: splits the bytes into the signature's two components; it cannot
/// fail, and nothing is claimed of the result beyond that.
#[verifier::external_body]
fn decode_signature(bytes: &[u8; 64]) -> (r: Signature) {
    Signature::from_bytes(bytes)
}

/// A public key together with the bytes it was decoded from.
pub struct PublicKey {
    bytes: [u8; 32],
    key: VerifyingKey,
}

impl View for PublicKey {
    type V = Seq<u8>;

    closed spec fn view(&self) -> Seq<u8> {
        self.bytes@
    }
}

/// A signature together with the bytes it was made of.
pub struct Sig {
    bytes: [u8; 64],
    sig: Signature,
}

impl View for Sig {
    type V = Seq<u8>;

    closed spec fn view(&self) -> Seq<u8> {
        self.bytes@
    }
}

/// `Verifier::verify` of the key on `msg` and the signature: whether the signature of the
/// message is valid under the key. Both objects are only ever made from their bytes (by
/// `PublicKey::decode` and `Sig::decode`), and verification depends on the bytes alone, so the
/// verdict is named over them.
#[verifier::external_body]
fn verify_raw(key: &PublicKey, msg: &[u8], sig: &Sig) -> (r: bool)
    ensures
        r == signature_valid(key@, msg@, sig@),
{
    ed25519_dalek::Verifier::verify(&key.key, msg, &sig.sig).is_ok()
}

impl PublicKey {
    /// Decodes a public key; `None` if the bytes do not decode.
    pub fn decode(bytes: [u8; 32]) -> (r: Option<PublicKey>)
        ensures
            r is Some == key_decodes(bytes@),
            r matches Some(k) ==> k@ == bytes@,
    {
        match decode_key(&bytes) {
            Some(key) => Some(PublicKey { bytes, key }),
            None => None,
        }
    }
}

impl Sig {
    /// Decodes a signature.
    pub fn decode(bytes: [u8; 64]) -> (r: Sig)
        ensures
            r@ == bytes@,
    {
        let sig = decode_signature(&bytes);
        Sig { bytes, sig }
    }
}

/// Why a signature was refused.
#[derive(Clone, Copy, Debug, PartialEq, Eq, Structural)]
pub enum SigError {
    /// The public key does not decode.
    BadKey,
    /// The signature is not valid for the message under the key.
    BadSignature,
}

/// The verdict on signature `sig` of `msg` under public key `key`.
pub open spec fn spec_verify(key: Seq<u8>, msg: Seq<u8>, sig: Seq<u8>) -> Result<(), SigError> {
    if !key_decodes(key) {
        Err(SigError::BadKey)
    } else if !signature_valid(key, msg, sig) {
        Err(SigError::BadSignature)
    } else {
        Ok(())
    }
}

/// Verifies signature `sig` of `msg` under public key `pub_key` (see `spec_verify`).
pub fn verify_signature(pub_key: [u8; 32], msg: &Vec<u8>, sig: [u8; 64]) -> (r: Result<(), SigError>)
    ensures
        r == spec_verify(pub_key@, msg@, sig@),
{
    let key = match PublicKey::decode(pub_key) {
        None => {
            return Err(SigError::BadKey);
        },
        Some(k) => k,
    };
    let s = Sig::decode(sig);
    if verify_raw(&key, msg.as_slice(), &s) {
        Ok(())
    } else {
        Err(SigError::BadSignature)
    }
}

/// One layer of a certificate chain: the payload, the public key it is signed with and the
/// signature.
pub struct CertLayer {
    pub pub_key: [u8; 32],
    pub signature: [u8; 64],
    pub payload: Vec<u8>,
}

/// The verdicts on the layers from `i` on: the first layer that fails, with why.
pub open spec fn spec_verify_chain(layers: Seq<CertLayer>, i: int) -> Result<(), (usize, SigError)>
    decreases layers.len() - i,
{
    if i < 0 || i >= layers.len() {
        Ok(())
    } else {
        match spec_verify(layers[i].pub_key@, layers[i].payload@, layers[i].signature@) {
            Err(e) => Err((i as usize, e)),
            Ok(_) => spec_verify_chain(layers, i + 1),
        }
    }
}

/// The chain from layer `i` on is accepted exactly when every layer from `i` on verifies;
/// when it is refused, the reported layer is the first one from `i` on that does not verify,
/// with that layer's error.
proof fn lemma_verify_chain_from(layers: Seq<CertLayer>, i: int)
    requires
        0 <= i <= layers.len(),
        layers.len() <= usize::MAX,
    ensures
        spec_verify_chain(layers, i) is Ok <==> forall|k: int|
            i <= k < layers.len() ==> #[trigger] spec_verify(
                layers[k].pub_key@,
                layers[k].payload@,
                layers[k].signature@,
            ) is Ok,
        forall|j: usize, e: SigError|
            spec_verify_chain(layers, i) == Err::<(), (usize, SigError)>((j, e)) ==> {
                &&& i <= j < layers.len()
                &&& spec_verify(layers[j as int].pub_key@, layers[j as int].payload@, layers[j as int].signature@)
                    == Err::<(), SigError>(e)
                &&& forall|k: int|
                    i <= k < j ==> #[trigger] spec_verify(
                        layers[k].pub_key@,
                        layers[k].payload@,
                        layers[k].signature@,
                    ) is Ok
            },
    decreases layers.len() - i,
{
    if i < layers.len() {
        lemma_verify_chain_from(layers, i + 1);
    }
}

/// A certificate chain is accepted exactly when the signature of every layer verifies; when
/// it is refused, the reported layer is the first one whose signature does not verify, and the
/// error is that signature's.
pub proof fn lemma_verify_chain_all(layers: Seq<CertLayer>)
    requires
        layers.len() <= usize::MAX,
    ensures
        spec_verify_chain(layers, 0) is Ok <==> forall|k: int|
            0 <= k < layers.len() ==> #[trigger] spec_verify(
                layers[k].pub_key@,
                layers[k].payload@,
                layers[k].signature@,
            ) is Ok,
        forall|j: usize, e: SigError|
            spec_verify_chain(layers, 0) == Err::<(), (usize, SigError)>((j, e)) ==> {
                &&& j < layers.len()
                &&& spec_verify(layers[j as int].pub_key@, layers[j as int].payload@, layers[j as int].signature@)
                    == Err::<(), SigError>(e)
                &&& forall|k: int|
                    0 <= k < j ==> #[trigger] spec_verify(
                        layers[k].pub_key@,
                        layers[k].payload@,
                        layers[k].signature@,
                    ) is Ok
            },
{
    lemma_verify_chain_from(layers, 0);
}

/// Verifies the signatures of a certificate chain, layer by layer; fails with the first layer
/// whose signature is refused (see `spec_verify_chain`).
pub fn verify_chain(layers: &Vec<CertLayer>) -> (r: Result<(), (usize, SigError)>)
    ensures
        r == spec_verify_chain(layers@, 0),
{
    let mut i: usize = 0;
    while i < layers.len()
        invariant
            i <= layers@.len(),
            spec_verify_chain(layers@, 0) == spec_verify_chain(layers@, i as int),
        decreases layers@.len() - i,
    {
        let l = &layers[i];
        match verify_signature(l.pub_key, &l.payload, l.signature) {
            Err(e) => {
                return Err((i, e));
            },
            Ok(_) => {},
        }
        i += 1;
    }
    Ok(())
}

} // verus!
