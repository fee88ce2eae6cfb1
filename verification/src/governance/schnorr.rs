//! Guardian override proofs in the shape of a Schnorr signature, with
//! SHA-256 standing in for the curve operations.

use vstd::prelude::*;
use vstd::utf8::encode_utf8;
use crate::codec::{push_bytes, push_str_bytes, sha256, spec_sha256};
use crate::keyed::ExecKey;

verus! {

/// A guardian's proof: commitment `r`, response `s`, public key and message.
pub struct SchnorrProof {
    /// Commitment nonce R (32 bytes)
    pub r_bytes: [u8; 32],
    /// Signature scalar s (32 bytes)
    pub s_bytes: [u8; 32],
    /// Public key of the guardian
    pub pubkey: [u8; 32],
    /// The message that was signed
    pub message: Vec<u8>,
}

/// The challenge: H(R ∥ pubkey ∥ message).
pub open spec fn challenge(r: Seq<u8>, pubkey: Seq<u8>, message: Seq<u8>) -> Seq<u8> {
    spec_sha256(r + pubkey + message)
}

/// The check of `verify_schnorr_proof`: H(s ∥ "generator_point") equals
/// H(R ∥ H(e ∥ pubkey)) for the challenge e.
pub open spec fn schnorr_relation(p: SchnorrProof) -> bool {
    let e = challenge(p.r_bytes@, p.pubkey@, p.message@);
    spec_sha256(p.s_bytes@ + encode_utf8("generator_point"@))
        == spec_sha256(p.r_bytes@ + spec_sha256(e + p.pubkey@))
}

/// The check of `verify_schnorr_proof_test_compat`: s equals
/// H(R ∥ pubkey ∥ e) for the challenge e.
pub open spec fn commitment_relation(p: SchnorrProof) -> bool {
    let e = challenge(p.r_bytes@, p.pubkey@, p.message@);
    p.s_bytes@ == spec_sha256(p.r_bytes@ + p.pubkey@ + e)
}

/// The public key of a private key: H(privkey ∥ "pubkey").
pub open spec fn derived_pubkey(privkey: Seq<u8>) -> Seq<u8> {
    spec_sha256(privkey + encode_utf8("pubkey"@))
}

/// The nonce for a message: H(privkey ∥ message).
pub open spec fn derived_nonce(privkey: Seq<u8>, message: Seq<u8>) -> Seq<u8> {
    spec_sha256(privkey + message)
}

fn hash2(a: &[u8], b: &[u8]) -> (h: [u8; 32])
    ensures
        h@ == spec_sha256(a@ + b@),
{
    let mut buf: Vec<u8> = Vec::new();
    push_bytes(&mut buf, a);
    push_bytes(&mut buf, b);
    sha256(buf.as_slice())
}

fn hash3(a: &[u8], b: &[u8], c: &[u8]) -> (h: [u8; 32])
    ensures
        h@ == spec_sha256(a@ + b@ + c@),
{
    let mut buf: Vec<u8> = Vec::new();
    push_bytes(&mut buf, a);
    push_bytes(&mut buf, b);
    push_bytes(&mut buf, c);
    assert(buf@ =~= a@ + b@ + c@);
    sha256(buf.as_slice())
}

/// Checks H(s ∥ "generator_point") == H(R ∥ H(e ∥ pubkey)), where
/// e = H(R ∥ pubkey ∥ message).
pub fn verify_schnorr_proof(proof: &SchnorrProof) -> (ok: bool)
    ensures
        ok == schnorr_relation(*proof),
{
    let e = hash3(proof.r_bytes.as_slice(), proof.pubkey.as_slice(), proof.message.as_slice());
    let lhs = hash2(proof.s_bytes.as_slice(), "generator_point".as_bytes());
    let ep = hash2(e.as_slice(), proof.pubkey.as_slice());
    let rhs = hash2(proof.r_bytes.as_slice(), ep.as_slice());
    lhs.key_eq(&rhs)
}

/// Builds a test proof from a private key that `verify_schnorr_proof_test_compat`
/// accepts: pubkey = H(privkey ∥ "pubkey"), k = H(privkey ∥ message),
/// R = H(k ∥ "generator_point_r"), e = H(R ∥ pubkey ∥ message),
/// s = H(R ∥ pubkey ∥ e).
pub fn create_test_schnorr_proof(privkey: &[u8; 32], message: &[u8]) -> (p: SchnorrProof)
    ensures
        p.pubkey@ == derived_pubkey(privkey@),
        p.r_bytes@ == spec_sha256(derived_nonce(privkey@, message@) + encode_utf8("generator_point_r"@)),
        p.s_bytes@ == spec_sha256(p.r_bytes@ + p.pubkey@ + challenge(p.r_bytes@, p.pubkey@, message@)),
        p.message@ == message@,
        commitment_relation(p),
{
    let pubkey = hash2(privkey.as_slice(), "pubkey".as_bytes());
    let k = hash2(privkey.as_slice(), message);
    let r_bytes = hash2(k.as_slice(), "generator_point_r".as_bytes());
    let e = hash3(r_bytes.as_slice(), pubkey.as_slice(), message);
    let s_bytes = hash3(r_bytes.as_slice(), pubkey.as_slice(), e.as_slice());
    let mut msg: Vec<u8> = Vec::new();
    push_bytes(&mut msg, message);
    SchnorrProof { r_bytes, s_bytes, pubkey, message: msg }
}

/// Checks s == H(R ∥ pubkey ∥ e), where e = H(R ∥ pubkey ∥ message).
pub fn verify_schnorr_proof_test_compat(proof: &SchnorrProof) -> (ok: bool)
    ensures
        ok == commitment_relation(*proof),
{
    let e = hash3(proof.r_bytes.as_slice(), proof.pubkey.as_slice(), proof.message.as_slice());
    let expected_s = hash3(proof.r_bytes.as_slice(), proof.pubkey.as_slice(), e.as_slice());
    proof.s_bytes.key_eq(&expected_s)
}

/// Builds a proof that `verify_schnorr_proof_test_compat` accepts:
/// pubkey = H(privkey ∥ "pubkey"), k = H(privkey ∥ message), R = H(k ∥ "r"),
/// e = H(R ∥ pubkey ∥ message), s = H(R ∥ pubkey ∥ e).
pub fn make_schnorr_proof(privkey: &[u8; 32], message: &[u8]) -> (p: SchnorrProof)
    ensures
        p.pubkey@ == derived_pubkey(privkey@),
        p.r_bytes@ == spec_sha256(derived_nonce(privkey@, message@) + encode_utf8("r"@)),
        p.message@ == message@,
        commitment_relation(p),
{
    let pubkey = hash2(privkey.as_slice(), "pubkey".as_bytes());
    let k = hash2(privkey.as_slice(), message);
    let r_bytes = hash2(k.as_slice(), "r".as_bytes());
    let e = hash3(r_bytes.as_slice(), pubkey.as_slice(), message);
    let s_bytes = hash3(r_bytes.as_slice(), pubkey.as_slice(), e.as_slice());
    let mut msg: Vec<u8> = Vec::new();
    push_bytes(&mut msg, message);
    SchnorrProof { r_bytes, s_bytes, pubkey, message: msg }
}

} // verus!
