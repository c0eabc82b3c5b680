//! Session identifiers in the shape of version-4 UUIDs: derived from a
//! sticky key by SHA-256, or drawn at random.

use vstd::prelude::*;
use vstd::string::*;
use vstd::utf8::*;
use crate::text::push_char;
use rand::RngCore;
use sha2::Digest;

verus! {

/// The lower-case hexadecimal digit of `v`, for `v < 16`.
pub open spec fn hex_digit(v: u8) -> char {
    if v < 10 {
        ((v + 48) as u8) as char
    } else {
        ((v + 87) as u8) as char
    }
}

/// Two lower-case hexadecimal digits per byte, as `{:02x}` prints them.
pub open spec fn hex_of(b: Seq<u8>) -> Seq<char>
    decreases b.len(),
{
    if b.len() == 0 {
        Seq::empty()
    } else {
        hex_of(b.drop_last()) + seq![hex_digit(b.last() / 16), hex_digit(b.last() % 16)]
    }
}

/// The first 16 bytes of `raw` with the RFC 4122 version (4) and variant
/// bits forced.
pub open spec fn uuid_v4_bytes(raw: Seq<u8>) -> Seq<u8> {
    raw.subrange(0, 16).update(6, (raw[6] & 0x0f) | 0x40).update(8, (raw[8] & 0x3f) | 0x80)
}

/// The 8-4-4-4-12 text form of 16 bytes.
pub open spec fn uuid_text(b: Seq<u8>) -> Seq<char> {
    hex_of(b.subrange(0, 4)) + seq!['-'] + hex_of(b.subrange(4, 6)) + seq!['-'] + hex_of(
        b.subrange(6, 8),
    ) + seq!['-'] + hex_of(b.subrange(8, 10)) + seq!['-'] + hex_of(b.subrange(10, 16))
}

/// `s` is the text of a version-4 UUID built from some 16 bytes.
pub open spec fn is_uuid_v4_text(s: Seq<char>) -> bool {
    exists|raw: Seq<u8>| raw.len() == 16 && s == uuid_text(uuid_v4_bytes(raw))
}

/// The SHA-256 digest of `data`.
pub uninterp spec fn sha256_of(data: Seq<u8>) -> Seq<u8>;

/// Relies on `sha2::Sha256::digest`: the 32-byte SHA-256 digest of the input.
#[verifier::external_body]
pub(crate) fn sha256(data: &[u8]) -> (r: Vec<u8>)
    ensures
        r@ == sha256_of(data@),
        r@.len() == 32,
{
    sha2::Sha256::digest(data).to_vec()
}

/// Relies on `rand::rngs::OsRng` through `RngCore::fill_bytes`: `n` bytes
/// from the operating system's generator.
#[verifier::external_body]
pub(crate) fn os_random_bytes(n: usize) -> (r: Vec<u8>)
    ensures
        r@.len() == n,
{
    let mut b = vec![0u8; n];
    rand::rngs::OsRng.fill_bytes(&mut b);
    b
}

fn hex_digit_char(v: u8) -> (r: char)
    requires
        v < 16,
    ensures
        r == hex_digit(v),
{
    if v < 10 {
        (v + 48) as char
    } else {
        (v + 87) as char
    }
}

/// Appends the hexadecimal form of `b[from..to]` to `out`.
fn push_hex(out: &mut String, b: &[u8], from: usize, to: usize)
    requires
        from <= to <= b@.len(),
    ensures
        final(out)@ == old(out)@ + hex_of(b@.subrange(from as int, to as int)),
{
    let mut i: usize = from;
    assert(b@.subrange(from as int, from as int).len() == 0);
    assert(old(out)@ + hex_of(b@.subrange(from as int, from as int)) =~= old(out)@);
    while i < to
        invariant
            from <= i <= to,
            to <= b@.len(),
            out@ == old(out)@ + hex_of(b@.subrange(from as int, i as int)),
        decreases to - i,
    {
        let v = b[i];
        push_char(out, hex_digit_char(v / 16));
        push_char(out, hex_digit_char(v % 16));
        let ghost s = b@.subrange(from as int, i + 1);
        assert(s.drop_last() =~= b@.subrange(from as int, i as int));
        assert(s.last() == v);
        i = i + 1;
        assert(out@ =~= old(out)@ + hex_of(b@.subrange(from as int, i as int)));
    }
}

/// The hexadecimal text of `b`, two lower-case digits per byte.
pub fn hex_string(b: &[u8]) -> (r: String)
    ensures
        r@ == hex_of(b@),
{
    let mut out = String::new();
    push_hex(&mut out, b, 0, b.len());
    assert(b@.subrange(0, b@.len() as int) =~= b@);
    assert(out@ =~= hex_of(b@));
    out
}

/// The UUID text of the first 16 bytes of `raw`, with the version-4 and
/// variant bits forced.
pub fn format_uuid_v4(raw: &[u8]) -> (r: String)
    requires
        raw@.len() >= 16,
    ensures
        r@ == uuid_text(uuid_v4_bytes(raw@)),
{
    let mut b: Vec<u8> = Vec::new();
    let mut i: usize = 0;
    while i < 16
        invariant
            i <= 16,
            raw@.len() >= 16,
            b@ == raw@.subrange(0, i as int),
        decreases 16 - i,
    {
        b.push(raw[i]);
        i = i + 1;
        assert(b@ =~= raw@.subrange(0, i as int));
    }
    let b6 = (raw[6] & 0x0f) | 0x40;
    let b8 = (raw[8] & 0x3f) | 0x80;
    b.set(6, b6);
    b.set(8, b8);
    assert(b@ =~= uuid_v4_bytes(raw@));
    let mut out = String::new();
    push_hex(&mut out, b.as_slice(), 0, 4);
    push_char(&mut out, '-');
    push_hex(&mut out, b.as_slice(), 4, 6);
    push_char(&mut out, '-');
    push_hex(&mut out, b.as_slice(), 6, 8);
    push_char(&mut out, '-');
    push_hex(&mut out, b.as_slice(), 8, 10);
    push_char(&mut out, '-');
    push_hex(&mut out, b.as_slice(), 10, 16);
    assert(out@ =~= uuid_text(uuid_v4_bytes(raw@)));
    out
}

/// The text that a sticky key is hashed from: `salt`, a colon, the key.
pub open spec fn sticky_material(salt: Seq<char>, key: Seq<char>) -> Seq<char> {
    salt + seq![':'] + key
}

/// The session id derived from `key` under `salt`: the UUID text of the
/// SHA-256 digest of the UTF-8 bytes of `salt:key`.
pub open spec fn derived_session_id(salt: Seq<char>, key: Seq<char>) -> Seq<char> {
    uuid_text(uuid_v4_bytes(sha256_of(encode_utf8(sticky_material(salt, key)))))
}

proof fn lemma_hex_len(b: Seq<u8>)
    ensures
        hex_of(b).len() == 2 * b.len(),
    decreases b.len(),
{
    if b.len() > 0 {
        lemma_hex_len(b.drop_last());
    }
}

/// The UUID text of 16 bytes has 36 characters.
proof fn lemma_uuid_text_len(b: Seq<u8>)
    requires
        b.len() == 16,
    ensures
        uuid_text(b).len() == 36,
{
    lemma_hex_len(b.subrange(0, 4));
    lemma_hex_len(b.subrange(4, 6));
    lemma_hex_len(b.subrange(6, 8));
    lemma_hex_len(b.subrange(8, 10));
    lemma_hex_len(b.subrange(10, 16));
}

/// The UUID text of the first 16 of `raw`'s bytes is a version-4 UUID of
/// 36 characters.
proof fn lemma_uuid_v4_shape(raw: Seq<u8>)
    requires
        raw.len() >= 16,
    ensures
        is_uuid_v4_text(uuid_text(uuid_v4_bytes(raw))),
        uuid_text(uuid_v4_bytes(raw)).len() == 36,
{
    let head = raw.subrange(0, 16);
    assert(uuid_v4_bytes(head) =~= uuid_v4_bytes(raw));
    assert(head.len() == 16 && uuid_text(uuid_v4_bytes(raw)) == uuid_text(uuid_v4_bytes(head)));
    lemma_uuid_text_len(uuid_v4_bytes(raw));
}

/// A deterministic session id for `key_material`, or `None` without one.
/// A derived id is a version-4 UUID in its 36-character text form.
pub fn derive_session_id(key_material: Option<&str>, salt: &str) -> (r: Option<String>)
    ensures
        key_material is None ==> r is None,
        key_material matches Some(k) ==> (r matches Some(s) && s@ == derived_session_id(
            salt@,
            k@,
        )),
        r matches Some(s) ==> s@.len() == 36 && is_uuid_v4_text(s@),
{
    match key_material {
        None => None,
        Some(k) => {
            let mut text = salt.to_owned();
            push_char(&mut text, ':');
            text.append(k);
            assert(text@ =~= sticky_material(salt@, k@));
            let digest = sha256(text.as_str().as_bytes());
            proof {
                lemma_uuid_v4_shape(digest@);
            }
            Some(format_uuid_v4(digest.as_slice()))
        },
    }
}

/// A fresh random session id in version-4 UUID form.
pub fn random_session_id() -> (r: String)
    ensures
        is_uuid_v4_text(r@),
        r@.len() == 36,
{
    let raw = os_random_bytes(16);
    proof {
        lemma_uuid_v4_shape(raw@);
    }
    let r = format_uuid_v4(raw.as_slice());
    assert(raw@.len() == 16 && r@ == uuid_text(uuid_v4_bytes(raw@)));
    r
}

/// A fresh gateway API key: `sk-` followed by 32 random hexadecimal digits.
pub fn generate_proxy_api_key() -> (r: String)
    ensures
        exists|raw: Seq<u8>| raw.len() == 16 && r@ == seq!['s', 'k', '-'] + hex_of(raw),
{
    let raw = os_random_bytes(16);
    let mut out = String::new();
    push_char(&mut out, 's');
    push_char(&mut out, 'k');
    push_char(&mut out, '-');
    push_hex(&mut out, raw.as_slice(), 0, 16);
    assert(raw@.subrange(0, 16) =~= raw@);
    assert(out@ =~= seq!['s', 'k', '-'] + hex_of(raw@));
    out
}

} // verus!
