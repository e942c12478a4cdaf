//! The byte form of a profile as it is kept in the store.
//!
//! A record is three tagged fields, in the order name, user@host, key path.
//! Each field is one tag byte, the length of its text in bytes as eight
//! little-endian bytes, then the UTF-8 bytes of the text.
use vstd::bytes::{
    lemma_auto_spec_u64_to_from_le_bytes, spec_u64_from_le_bytes, spec_u64_to_le_bytes,
    u64_from_le_bytes, u64_to_le_bytes,
};
use vstd::prelude::*;
use vstd::slice::{slice_subrange, slice_to_vec};
use vstd::utf8::{
    decode_utf8, decode_utf8_encode_utf8, encode_utf8, encode_utf8_decode_utf8,
    encode_utf8_valid_utf8, valid_utf8,
};

use crate::profile::{ProfileView, ServerProfile};

verus! {

/// Tag of the field that holds the name.
pub const TAG_NAME: u8 = 1;

/// Tag of the field that holds the `user@host` token.
pub const TAG_USER_IP: u8 = 2;

/// Tag of the field that holds the key path.
pub const TAG_KEY_PATH: u8 = 3;

/// Bytes that hold the tag and the length before the text of a field.
pub const FIELD_HEADER_LEN: usize = 9;

/// One field: its tag, the byte length of the text, the text in UTF-8.
pub open spec fn field_bytes(tag: u8, text: Seq<char>) -> Seq<u8> {
    seq![tag] + spec_u64_to_le_bytes(encode_utf8(text).len() as u64) + encode_utf8(text)
}

/// The record of a profile.
pub open spec fn record_bytes(p: ProfileView) -> Seq<u8> {
    field_bytes(TAG_NAME, p.name) + field_bytes(TAG_USER_IP, p.user_ip) + field_bytes(
        TAG_KEY_PATH,
        p.key_path,
    )
}

/// The field with this tag and text stands in `b` from `pos` on.
pub open spec fn field_at(b: Seq<u8>, pos: int, tag: u8, text: Seq<char>) -> bool {
    &&& 0 <= pos
    &&& pos + field_bytes(tag, text).len() <= b.len()
    &&& b.subrange(pos, pos + field_bytes(tag, text).len()) == field_bytes(tag, text)
}

/// The store key of a name: its UTF-8 bytes.
pub open spec fn key_of(name: Seq<char>) -> Seq<u8> {
    encode_utf8(name)
}

/// Relies on std::str::from_utf8: it accepts exactly the well-formed UTF-8
/// byte strings, and then yields the text that they encode.
#[verifier::external_body]
fn utf8_text(b: &[u8]) -> (r: Option<&str>)
    ensures
        r is Some <==> valid_utf8(b@),
        r matches Some(s) ==> s@ == decode_utf8(b@),
{
    std::str::from_utf8(b).ok()
}

/// Appends the field with this tag and text to `out`.
fn push_field(out: &mut Vec<u8>, tag: u8, text: &str)
    ensures
        final(out)@ == old(out)@ + field_bytes(tag, text@),
{
    let bytes = text.as_bytes();
    out.push(tag);
    let mut len = u64_to_le_bytes(bytes.len() as u64);
    out.append(&mut len);
    let mut body = slice_to_vec(bytes);
    out.append(&mut body);
    assert(out@ =~= old(out)@ + field_bytes(tag, text@));
}

/// The record of a profile.
pub fn encode(p: &ServerProfile) -> (r: Vec<u8>)
    ensures
        r@ == record_bytes(p@),
{
    let mut out: Vec<u8> = Vec::new();
    push_field(&mut out, TAG_NAME, p.name.as_str());
    push_field(&mut out, TAG_USER_IP, p.user_ip.as_str());
    push_field(&mut out, TAG_KEY_PATH, p.key_path.as_str());
    assert(out@ =~= record_bytes(p@));
    out
}

/// What a field at `pos` says of the bytes there, piece by piece.
proof fn lemma_field_parts(b: Seq<u8>, pos: int, tag: u8, text: Seq<char>)
    requires
        field_at(b, pos, tag, text),
        b.len() <= usize::MAX,
    ensures
        ({
            let n = encode_utf8(text).len();
            &&& pos + FIELD_HEADER_LEN + n <= b.len()
            &&& b[pos] == tag
            &&& b.subrange(pos + 1, pos + FIELD_HEADER_LEN) == spec_u64_to_le_bytes(n as u64)
            &&& spec_u64_from_le_bytes(b.subrange(pos + 1, pos + FIELD_HEADER_LEN)) == n
            &&& b.subrange(pos + FIELD_HEADER_LEN, pos + FIELD_HEADER_LEN + n) == encode_utf8(text)
        }),
{
    lemma_auto_spec_u64_to_from_le_bytes();
    let n = encode_utf8(text).len();
    let f = field_bytes(tag, text);
    let w = b.subrange(pos, pos + f.len());
    assert(spec_u64_to_le_bytes(n as u64).len() == 8);
    assert(w[0] == f[0]);
    assert(b.subrange(pos + 1, pos + FIELD_HEADER_LEN) =~= f.subrange(1, 9));
    assert(f.subrange(1, 9) =~= spec_u64_to_le_bytes(n as u64));
    assert(b.subrange(pos + FIELD_HEADER_LEN, pos + FIELD_HEADER_LEN + n) =~= f.subrange(
        9,
        f.len() as int,
    ));
    assert(f.subrange(9, f.len() as int) =~= encode_utf8(text));
}

/// Reads the field with this tag that starts at `pos`, and returns its text
/// and the position just past it.
fn read_field(b: &[u8], pos: usize, tag: u8) -> (r: Option<(String, usize)>)
    requires
        pos <= b@.len(),
    ensures
        r matches Some((s, next)) ==> field_at(b@, pos as int, tag, s@) && next == pos
            + field_bytes(tag, s@).len(),
        r is None ==> forall|t: Seq<char>| !field_at(b@, pos as int, tag, t),
{
    proof {
        lemma_auto_spec_u64_to_from_le_bytes();
    }
    if b.len() - pos < FIELD_HEADER_LEN || b[pos] != tag {
        assert forall|t: Seq<char>| !field_at(b@, pos as int, tag, t) by {
            if field_at(b@, pos as int, tag, t) {
                lemma_field_parts(b@, pos as int, tag, t);
            }
        }
        return None;
    }
    let n = u64_from_le_bytes(slice_subrange(b, pos + 1, pos + FIELD_HEADER_LEN));
    if n > (b.len() - pos - FIELD_HEADER_LEN) as u64 {
        assert forall|t: Seq<char>| !field_at(b@, pos as int, tag, t) by {
            if field_at(b@, pos as int, tag, t) {
                lemma_field_parts(b@, pos as int, tag, t);
            }
        }
        return None;
    }
    let end = pos + FIELD_HEADER_LEN + n as usize;
    let body = slice_subrange(b, pos + FIELD_HEADER_LEN, end);
    match utf8_text(body) {
        None => {
            assert forall|t: Seq<char>| !field_at(b@, pos as int, tag, t) by {
                if field_at(b@, pos as int, tag, t) {
                    lemma_field_parts(b@, pos as int, tag, t);
                    encode_utf8_valid_utf8(t);
                }
            }
            None
        },
        Some(s) => {
            let text = s.to_owned();
            proof {
                decode_utf8_encode_utf8(body@);
                let f = field_bytes(tag, text@);
                assert(encode_utf8(text@) == body@);
                assert(b@.subrange(pos as int, end as int) =~= f);
            }
            Some((text, end))
        },
    }
}

/// Two fields with one tag that start at one position hold the same text.
proof fn lemma_field_unique(b: Seq<u8>, pos: int, tag: u8, t1: Seq<char>, t2: Seq<char>)
    requires
        field_at(b, pos, tag, t1),
        field_at(b, pos, tag, t2),
        b.len() <= usize::MAX,
    ensures
        t1 == t2,
{
    lemma_field_parts(b, pos, tag, t1);
    lemma_field_parts(b, pos, tag, t2);
    encode_utf8_decode_utf8(t1);
    encode_utf8_decode_utf8(t2);
}

/// The profile whose record `b` is, if it is the record of one.
pub fn decode(b: &[u8]) -> (r: Option<ServerProfile>)
    ensures
        r matches Some(p) ==> record_bytes(p@) == b@,
        r is None ==> forall|v: ProfileView| record_bytes(v) != b@,
{
    let ghost bs = b@;
    let total = b.len();
    let (name, p1) = match read_field(b, 0, TAG_NAME) {
        Some(f) => f,
        None => {
            assert forall|v: ProfileView| record_bytes(v) != bs by {
                if record_bytes(v) == bs {
                    lemma_record_fields(v, bs);
                }
            }
            return None;
        },
    };
    let (user_ip, p2) = match read_field(b, p1, TAG_USER_IP) {
        Some(f) => f,
        None => {
            assert forall|v: ProfileView| record_bytes(v) != bs by {
                if record_bytes(v) == bs {
                    lemma_record_fields(v, bs);
                    lemma_field_unique(bs, 0, TAG_NAME, v.name, name@);
                }
            }
            return None;
        },
    };
    let (key_path, p3) = match read_field(b, p2, TAG_KEY_PATH) {
        Some(f) => f,
        None => {
            assert forall|v: ProfileView| record_bytes(v) != bs by {
                if record_bytes(v) == bs {
                    lemma_record_fields(v, bs);
                    lemma_field_unique(bs, 0, TAG_NAME, v.name, name@);
                    lemma_field_unique(bs, p1 as int, TAG_USER_IP, v.user_ip, user_ip@);
                }
            }
            return None;
        },
    };
    if p3 != total {
        assert forall|v: ProfileView| record_bytes(v) != bs by {
            if record_bytes(v) == bs {
                lemma_record_fields(v, bs);
                lemma_field_unique(bs, 0, TAG_NAME, v.name, name@);
                lemma_field_unique(bs, p1 as int, TAG_USER_IP, v.user_ip, user_ip@);
                lemma_field_unique(bs, p2 as int, TAG_KEY_PATH, v.key_path, key_path@);
            }
        }
        return None;
    }
    let p = ServerProfile { name, user_ip, key_path };
    proof {
        let f1 = field_bytes(TAG_NAME, p@.name);
        let f2 = field_bytes(TAG_USER_IP, p@.user_ip);
        let f3 = field_bytes(TAG_KEY_PATH, p@.key_path);
        assert(bs =~= bs.subrange(0, p1 as int) + bs.subrange(p1 as int, p2 as int)
            + bs.subrange(p2 as int, p3 as int));
        assert(bs.subrange(0, p1 as int) == f1);
    }
    Some(p)
}

/// A record that can be held in memory.
pub open spec fn record_fits(v: ProfileView) -> bool {
    record_bytes(v).len() <= usize::MAX
}

/// Distinct profiles have distinct records.
pub proof fn lemma_record_injective(v1: ProfileView, v2: ProfileView)
    requires
        record_bytes(v1) == record_bytes(v2),
        record_fits(v1),
    ensures
        v1 == v2,
{
    let b = record_bytes(v1);
    lemma_record_fields(v1, b);
    lemma_record_fields(v2, b);
    lemma_field_unique(b, 0, TAG_NAME, v1.name, v2.name);
    let p1 = field_bytes(TAG_NAME, v1.name).len() as int;
    lemma_field_unique(b, p1, TAG_USER_IP, v1.user_ip, v2.user_ip);
    let p2 = p1 + field_bytes(TAG_USER_IP, v1.user_ip).len();
    lemma_field_unique(b, p2, TAG_KEY_PATH, v1.key_path, v2.key_path);
}

/// Distinct names have distinct keys.
pub proof fn lemma_key_injective(n1: Seq<char>, n2: Seq<char>)
    requires
        key_of(n1) == key_of(n2),
    ensures
        n1 == n2,
{
    encode_utf8_decode_utf8(n1);
    encode_utf8_decode_utf8(n2);
}

/// Where the three fields of a record stand in it.
proof fn lemma_record_fields(v: ProfileView, b: Seq<u8>)
    requires
        record_bytes(v) == b,
    ensures
        field_at(b, 0, TAG_NAME, v.name),
        field_at(b, field_bytes(TAG_NAME, v.name).len() as int, TAG_USER_IP, v.user_ip),
        field_at(
            b,
            (field_bytes(TAG_NAME, v.name).len() + field_bytes(TAG_USER_IP, v.user_ip).len()) as int,
            TAG_KEY_PATH,
            v.key_path,
        ),
        field_bytes(TAG_NAME, v.name).len() + field_bytes(TAG_USER_IP, v.user_ip).len()
            + field_bytes(TAG_KEY_PATH, v.key_path).len() == b.len(),
{
    let f1 = field_bytes(TAG_NAME, v.name);
    let f2 = field_bytes(TAG_USER_IP, v.user_ip);
    let f3 = field_bytes(TAG_KEY_PATH, v.key_path);
    let (n1, n2, n3) = (f1.len() as int, f2.len() as int, f3.len() as int);
    assert(b.subrange(0, n1) =~= f1);
    assert(b.subrange(n1, n1 + n2) =~= f2);
    assert(b.subrange(n1 + n2, n1 + n2 + n3) =~= f3);
}

} // verus!
