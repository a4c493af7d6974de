//! Transaction model: the two transaction variants, their payloads, and the
//! canonical unsigned byte encoding that signatures are produced over.

use vstd::prelude::*;

verus! {

/// Opaque fixed-length byte identity for a user's signing key. Equality is
/// byte-exact; it is the primary key of the user registry.
#[derive(Clone, Copy)]
pub struct PublicKey(pub [u8; 32]);

impl View for PublicKey {
    type V = Seq<u8>;

    open spec fn view(&self) -> Seq<u8> {
        self.0@
    }
}

impl PublicKey {
    /// Byte-exact equality of public keys.
    pub fn key_eq(&self, other: &PublicKey) -> (r: bool)
        ensures
            r == (self@ == other@),
    {
        let mut i: usize = 0;
        while i < 32
            invariant
                i <= 32,
                forall|j: int| 0 <= j < i ==> self.0@[j] == other.0@[j],
            decreases 32 - i,
        {
            if self.0[i] != other.0[i] {
                return false;
            }
            i = i + 1;
        }
        assert(self@ =~= other@);
        true
    }
}

/// A detached Ed25519 signature over a transaction's unsigned encoding.
#[derive(Clone, Copy)]
pub struct Signature(pub [u8; 64]);

impl View for Signature {
    type V = Seq<u8>;

    open spec fn view(&self) -> Seq<u8> {
        self.0@
    }
}

/// Payload of a registration request: register `signer_pubkey` under
/// `display_id`. Holds no signature, so that the encoding that gets signed
/// structurally excludes the signature.
pub struct RegisterPayload {
    pub signer_pubkey: PublicKey,
    pub display_id: String,
}

/// Payload of a message post: append `contents` to `channel` as
/// `signer_pubkey`. Holds no signature, so that the encoding that gets
/// signed structurally excludes the signature.
pub struct SendMessagePayload {
    pub signer_pubkey: PublicKey,
    pub channel: String,
    pub contents: String,
}

/// A signed request to mutate ledger state: a payload together with an
/// Ed25519 signature over the payload's canonical unsigned encoding.
pub enum Transaction {
    Register { payload: RegisterPayload, signature: Signature },
    SendMessage { payload: SendMessagePayload, signature: Signature },
}

/// Leading tag byte of the unsigned encoding of a Register transaction.
pub const REGISTER_TAG: u8 = 0;

/// Leading tag byte of the unsigned encoding of a SendMessage transaction.
pub const SEND_MESSAGE_TAG: u8 = 1;

/// A string field in the unsigned encoding: the length of its UTF-8 form as
/// eight little-endian bytes, then the UTF-8 bytes themselves.
pub open spec fn spec_encode_str(s: Seq<char>) -> Seq<u8> {
    vstd::bytes::spec_u64_to_le_bytes(vstd::utf8::encode_utf8(s).len() as u64)
        + vstd::utf8::encode_utf8(s)
}

/// Canonical unsigned encoding: a deterministic, fixed-order byte
/// serialization of the payload fields, excluding the signature. This is the
/// exact byte string that is signed and verified.
pub open spec fn spec_unsigned_encoding(tx: Transaction) -> Seq<u8> {
    match tx {
        Transaction::Register { payload, .. } => seq![REGISTER_TAG] + payload.signer_pubkey@
            + spec_encode_str(payload.display_id@),
        Transaction::SendMessage { payload, .. } => seq![SEND_MESSAGE_TAG]
            + payload.signer_pubkey@ + spec_encode_str(payload.channel@) + spec_encode_str(
            payload.contents@,
        ),
    }
}

impl Transaction {
    /// The public key the transaction claims as its signer.
    pub open spec fn spec_signer_pubkey(self) -> Seq<u8> {
        match self {
            Transaction::Register { payload, .. } => payload.signer_pubkey@,
            Transaction::SendMessage { payload, .. } => payload.signer_pubkey@,
        }
    }

    /// The attached signature bytes.
    pub open spec fn spec_signature(self) -> Seq<u8> {
        match self {
            Transaction::Register { signature, .. } => signature@,
            Transaction::SendMessage { signature, .. } => signature@,
        }
    }

    /// The public key the transaction claims as its signer.
    pub fn signer_pubkey(&self) -> (r: &PublicKey)
        ensures
            r@ == self.spec_signer_pubkey(),
    {
        match self {
            Transaction::Register { payload, .. } => &payload.signer_pubkey,
            Transaction::SendMessage { payload, .. } => &payload.signer_pubkey,
        }
    }

    /// The attached signature.
    pub fn signature(&self) -> (r: &Signature)
        ensures
            r@ == self.spec_signature(),
    {
        match self {
            Transaction::Register { signature, .. } => signature,
            Transaction::SendMessage { signature, .. } => signature,
        }
    }

    /// Computes the canonical unsigned encoding of this transaction's
    /// payload: the byte string that its signature must verify against.
    pub fn unsigned_encoding(&self) -> (r: Vec<u8>)
        ensures
            r@ == spec_unsigned_encoding(*self),
    {
        let mut out: Vec<u8> = Vec::new();
        match self {
            Transaction::Register { payload, .. } => {
                out.push(REGISTER_TAG);
                encode_bytes(&mut out, payload.signer_pubkey.0.as_slice());
                encode_str(&mut out, &payload.display_id);
            },
            Transaction::SendMessage { payload, .. } => {
                out.push(SEND_MESSAGE_TAG);
                encode_bytes(&mut out, payload.signer_pubkey.0.as_slice());
                encode_str(&mut out, &payload.channel);
                encode_str(&mut out, &payload.contents);
            },
        }
        out
    }
}

/// Appends raw bytes to the encoding buffer.
fn encode_bytes(out: &mut Vec<u8>, bytes: &[u8])
    ensures
        final(out)@ == old(out)@ + bytes@,
{
    out.extend_from_slice(bytes);
    assert(out@ =~= old(out)@ + bytes@);
}

/// Appends a length-prefixed string field to the encoding buffer.
fn encode_str(out: &mut Vec<u8>, s: &String)
    ensures
        final(out)@ == old(out)@ + spec_encode_str(s@),
{
    let bytes: &[u8] = s.as_str().as_bytes();
    let len_bytes: Vec<u8> = vstd::bytes::u64_to_le_bytes(bytes.len() as u64);
    encode_bytes(out, len_bytes.as_slice());
    encode_bytes(out, bytes);
    assert(out@ =~= old(out)@ + spec_encode_str(s@));
}

} // verus!
