//! Who a guest is: a fingerprint of what little is known of them, and the
//! ghost identity that it names.

use vstd::prelude::*;
use vstd::string::*;
use vstd::utf8::encode_utf8;
use crate::encoding::{
    hex_of, length_bytes, lemma_length_bytes_injective, push_bytes, push_length,
};
use crate::foreign::{hex_encode, is_user_id, sha256, sha256_digest, user_id_well_formed};

verus! {

/// The bytes of an optional text: those of the text, or none.
pub open spec fn opt_bytes(o: Option<Seq<char>>) -> Seq<u8> {
    match o {
        Some(s) => encode_utf8(s),
        None => Seq::<u8>::empty(),
    }
}

/// The bytes that are hashed into a fingerprint. Each part but the last is
/// led by its length, and a flag says whether there is an address at all, so
/// that no two different pairs of address and token give the same bytes.
pub open spec fn fingerprint_message(
    email: Option<Seq<char>>,
    guest_token: Seq<char>,
    salt: Seq<char>,
) -> Seq<u8> {
    length_bytes(encode_utf8(salt).len() as u64) + encode_utf8(salt) + seq![
        if email is Some {
            1u8
        } else {
            0u8
        },
    ] + length_bytes(opt_bytes(email).len() as u64) + opt_bytes(email) + encode_utf8(guest_token)
}

/// The fingerprint of a guest: the salted digest of address and token, in
/// hexadecimal digits.
pub open spec fn fingerprint_of(
    email: Option<Seq<char>>,
    guest_token: Seq<char>,
    salt: Seq<char>,
) -> Seq<char> {
    hex_of(sha256_digest(fingerprint_message(email, guest_token, salt)))
}

/// The view of an optional borrowed text.
pub open spec fn opt_str_view(o: Option<&str>) -> Option<Seq<char>> {
    match o {
        Some(s) => Some(s@),
        None => None,
    }
}

/// The fingerprint of a guest author. It depends on the three values alone:
/// the same guest is known again by it.
pub fn compute_user_fingerprint(email: Option<&str>, guest_token: &str, salt: &str) -> (fp: String)
    ensures
        fp@ == fingerprint_of(opt_str_view(email), guest_token@, salt@),
{
    let mut msg: Vec<u8> = Vec::new();
    let salt_bytes = salt.as_bytes();
    push_length(&mut msg, salt_bytes.len() as u64);
    push_bytes(&mut msg, salt_bytes);
    match email {
        Some(e) => {
            let email_bytes = e.as_bytes();
            msg.push(1u8);
            push_length(&mut msg, email_bytes.len() as u64);
            push_bytes(&mut msg, email_bytes);
        },
        None => {
            msg.push(0u8);
            push_length(&mut msg, 0u64);
        },
    }
    push_bytes(&mut msg, guest_token.as_bytes());
    assert(msg@ =~= fingerprint_message(opt_str_view(email), guest_token@, salt@));
    let digest = sha256(msg.as_slice());
    hex_encode(digest.as_slice())
}

/// Text is known by its bytes.
pub proof fn lemma_encode_utf8_injective(a: Seq<char>, b: Seq<char>)
    requires
        encode_utf8(a) == encode_utf8(b),
    ensures
        a == b,
{
    vstd::utf8::encode_utf8_decode_utf8(a);
    vstd::utf8::encode_utf8_decode_utf8(b);
}

/// Under one salt, two guests who differ in address or token have
/// different bytes hashed: their fingerprints differ unless the digest
/// itself collides.
pub proof fn lemma_fingerprint_message_injective(
    email1: Option<Seq<char>>,
    token1: Seq<char>,
    email2: Option<Seq<char>>,
    token2: Seq<char>,
    salt: Seq<char>,
)
    requires
        fingerprint_message(email1, token1, salt) == fingerprint_message(email2, token2, salt),
        opt_bytes(email1).len() <= u64::MAX,
        opt_bytes(email2).len() <= u64::MAX,
    ensures
        email1 == email2,
        token1 == token2,
{
    let m1 = fingerprint_message(email1, token1, salt);
    let m2 = fingerprint_message(email2, token2, salt);
    let p = encode_utf8(salt).len() as int + 8;
    let e1 = opt_bytes(email1);
    let e2 = opt_bytes(email2);
    let l1 = length_bytes(e1.len() as u64);
    let l2 = length_bytes(e2.len() as u64);
    assert(m1[p] == if email1 is Some { 1u8 } else { 0u8 });
    assert(m2[p] == if email2 is Some { 1u8 } else { 0u8 });
    assert(l1 =~= m1.subrange(p + 1, p + 9));
    assert(l2 =~= m2.subrange(p + 1, p + 9));
    lemma_length_bytes_injective(e1.len() as u64, e2.len() as u64);
    let n = e1.len() as int;
    assert(e1 =~= m1.subrange(p + 9, p + 9 + n));
    assert(e2 =~= m2.subrange(p + 9, p + 9 + n));
    assert(encode_utf8(token1) =~= m1.subrange(p + 9 + n, m1.len() as int));
    assert(encode_utf8(token2) =~= m2.subrange(p + 9 + n, m2.len() as int));
    lemma_encode_utf8_injective(token1, token2);
    if email1 is Some {
        lemma_encode_utf8_injective(email1->0, email2->0);
    }
}

/// The local part of a ghost identity: the service's own, a separator, and
/// the guest's fingerprint.
pub open spec fn ghost_localpart_of(bot_localpart: Seq<char>, fingerprint: Seq<char>) -> Seq<char> {
    bot_localpart + "_"@ + fingerprint
}

/// A full user identifier.
pub open spec fn user_id_of(localpart: Seq<char>, server_name: Seq<char>) -> Seq<char> {
    "@"@ + localpart + ":"@ + server_name
}

/// What every ghost identity of a service begins with.
pub open spec fn ghost_prefix_of(bot_localpart: Seq<char>) -> Seq<char> {
    "@"@ + bot_localpart + "_"@
}

/// Builds a full user identifier from its two parts.
pub fn user_id(localpart: &str, server_name: &str) -> (id: String)
    ensures
        id@ == user_id_of(localpart@, server_name@),
{
    let mut id = "@".to_string();
    id.append(localpart);
    id.append(":");
    id.append(server_name);
    id
}

/// The user identifier of the ghost that posts for a guest, or none where
/// the room protocol does not take the result for a user identifier.
pub fn ghost_user_id(bot_localpart: &str, fingerprint: &str, server_name: &str) -> (r: Option<
    String,
>)
    ensures
        match r {
            Some(id) => id@ == user_id_of(
                ghost_localpart_of(bot_localpart@, fingerprint@),
                server_name@,
            ) && user_id_well_formed(id@),
            None => !user_id_well_formed(
                user_id_of(ghost_localpart_of(bot_localpart@, fingerprint@), server_name@),
            ),
        },
{
    let mut localpart = bot_localpart.to_owned();
    localpart.append("_");
    localpart.append(fingerprint);
    let id = user_id(localpart.as_str(), server_name);
    if is_user_id(id.as_str()) {
        Some(id)
    } else {
        None
    }
}

/// The key of a keyed digest, brought to one block: a longer key is
/// replaced by its digest, a shorter one followed by zeros.
pub open spec fn key_block(key: Seq<u8>) -> Seq<u8> {
    let k = if key.len() > 64 {
        sha256_digest(key)
    } else {
        key
    };
    Seq::new(
        64,
        |i: int|
            if i < k.len() {
                k[i]
            } else {
                0u8
            },
    )
}

/// A block with every byte combined with `pad`.
pub open spec fn padded(block: Seq<u8>, pad: u8) -> Seq<u8> {
    Seq::new(block.len(), |i: int| block[i] ^ pad)
}

/// The keyed digest HMAC-SHA-256 of a message.
pub open spec fn keyed_digest(key: Seq<u8>, msg: Seq<u8>) -> Seq<u8> {
    let block = key_block(key);
    sha256_digest(padded(block, 0x5c) + sha256_digest(padded(block, 0x36) + msg))
}

/// Computes the keyed digest HMAC-SHA-256 of `msg` under `key`.
pub fn hmac_sha256(key: &[u8], msg: &[u8]) -> (out: Vec<u8>)
    ensures
        out@ == keyed_digest(key@, msg@),
        out@.len() == 32,
{
    let hashed: Vec<u8>;
    let k: &[u8] = if key.len() > 64 {
        hashed = sha256(key);
        hashed.as_slice()
    } else {
        key
    };
    let mut inner: Vec<u8> = Vec::new();
    let mut outer: Vec<u8> = Vec::new();
    let mut i: usize = 0;
    while i < 64
        invariant
            i <= 64,
            k@.len() <= 64,
            k@ == (if key@.len() > 64 {
                sha256_digest(key@)
            } else {
                key@
            }),
            inner@ == padded(key_block(key@), 0x36).take(i as int),
            outer@ == padded(key_block(key@), 0x5c).take(i as int),
        decreases 64 - i,
    {
        let b: u8 = if i < k.len() {
            k[i]
        } else {
            0u8
        };
        inner.push(b ^ 0x36);
        outer.push(b ^ 0x5c);
        assert(inner@ =~= padded(key_block(key@), 0x36).take(i + 1));
        assert(outer@ =~= padded(key_block(key@), 0x5c).take(i + 1));
        i += 1;
    }
    assert(inner@ =~= padded(key_block(key@), 0x36));
    assert(outer@ =~= padded(key_block(key@), 0x5c));
    push_bytes(&mut inner, msg);
    let first = sha256(inner.as_slice());
    push_bytes(&mut outer, first.as_slice());
    sha256(outer.as_slice())
}

} // verus!
