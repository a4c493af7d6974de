//! Tests of the canonical unsigned encoding and the transaction accessors.

use ledger_core::tx::{PublicKey, RegisterPayload, SendMessagePayload, Signature, Transaction};

fn register(display_id: &str, key_byte: u8, sig_byte: u8) -> Transaction {
    Transaction::Register {
        payload: RegisterPayload {
            signer_pubkey: PublicKey([key_byte; 32]),
            display_id: display_id.to_string(),
        },
        signature: Signature([sig_byte; 64]),
    }
}

fn send(channel: &str, contents: &str, key_byte: u8, sig_byte: u8) -> Transaction {
    Transaction::SendMessage {
        payload: SendMessagePayload {
            signer_pubkey: PublicKey([key_byte; 32]),
            channel: channel.to_string(),
            contents: contents.to_string(),
        },
        signature: Signature([sig_byte; 64]),
    }
}

#[test]
fn register_encoding_exact_bytes() {
    let tx = register("ab", 7, 9);
    let mut expected: Vec<u8> = Vec::new();
    expected.push(0); // Register tag
    expected.extend_from_slice(&[7u8; 32]);
    expected.extend_from_slice(&[2, 0, 0, 0, 0, 0, 0, 0]); // length of "ab", little-endian
    expected.extend_from_slice(b"ab");
    assert_eq!(tx.unsigned_encoding(), expected);
}

#[test]
fn send_message_encoding_exact_bytes() {
    let tx = send("general", "hi", 3, 4);
    let mut expected: Vec<u8> = Vec::new();
    expected.push(1); // SendMessage tag
    expected.extend_from_slice(&[3u8; 32]);
    expected.extend_from_slice(&[7, 0, 0, 0, 0, 0, 0, 0]);
    expected.extend_from_slice(b"general");
    expected.extend_from_slice(&[2, 0, 0, 0, 0, 0, 0, 0]);
    expected.extend_from_slice(b"hi");
    assert_eq!(tx.unsigned_encoding(), expected);
}

#[test]
fn encoding_is_deterministic() {
    let a = send("general", "hello there", 5, 1);
    let b = send("general", "hello there", 5, 200);
    // Identical payloads encode identically, whatever the call site and
    // whatever signature is attached: the signature is structurally excluded.
    assert_eq!(a.unsigned_encoding(), a.unsigned_encoding());
    assert_eq!(a.unsigned_encoding(), b.unsigned_encoding());
}

#[test]
fn encoding_reflects_every_payload_field() {
    let base = send("general", "hi", 5, 1);
    assert_ne!(
        base.unsigned_encoding(),
        send("general", "ho", 5, 1).unsigned_encoding()
    );
    assert_ne!(
        base.unsigned_encoding(),
        send("lounge", "hi", 5, 1).unsigned_encoding()
    );
    assert_ne!(
        base.unsigned_encoding(),
        send("general", "hi", 6, 1).unsigned_encoding()
    );
    assert_ne!(
        register("hi", 5, 1).unsigned_encoding(),
        base.unsigned_encoding()
    );
}

#[test]
fn multibyte_text_is_length_prefixed_in_utf8() {
    let tx = send("general", "héllo", 2, 0);
    let mut expected: Vec<u8> = Vec::new();
    expected.push(1);
    expected.extend_from_slice(&[2u8; 32]);
    expected.extend_from_slice(&[7, 0, 0, 0, 0, 0, 0, 0]);
    expected.extend_from_slice(b"general");
    expected.extend_from_slice(&[6, 0, 0, 0, 0, 0, 0, 0]); // "héllo" is six UTF-8 bytes
    expected.extend_from_slice("héllo".as_bytes());
    assert_eq!(tx.unsigned_encoding(), expected);
}

#[test]
fn accessors_return_the_attached_parts() {
    let tx = register("ab", 7, 9);
    assert_eq!(tx.signer_pubkey().0, [7u8; 32]);
    assert_eq!(tx.signature().0, [9u8; 64]);
    let tx = send("general", "hi", 3, 4);
    assert_eq!(tx.signer_pubkey().0, [3u8; 32]);
    assert_eq!(tx.signature().0, [4u8; 64]);
}

#[test]
fn key_equality_is_byte_exact() {
    let a = PublicKey([1u8; 32]);
    let b = PublicKey([1u8; 32]);
    let mut c_bytes = [1u8; 32];
    c_bytes[31] = 2;
    let c = PublicKey(c_bytes);
    assert!(a.key_eq(&b));
    assert!(!a.key_eq(&c));
}
