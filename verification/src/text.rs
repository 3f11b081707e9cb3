//! UTF-8 text, as far as the ledger needs it.

use vstd::prelude::*;
use vstd::string::*;
use vstd::utf8::*;

verus! {

/// The error of `core::str::from_utf8`. Nothing is read from it.
#[verifier::external_type_specification]
#[verifier::external_body]
pub struct ExUtf8Error(core::str::Utf8Error);

/// `core::str::from_utf8` succeeds exactly on valid UTF-8, and the string it
/// returns is made of the very bytes it was given.
pub assume_specification[ core::str::from_utf8 ](v: &[u8]) -> (r: Result<&str, core::str::Utf8Error>)
    ensures
        r is Ok <==> valid_utf8(v@),
        r matches Ok(s) ==> s.spec_bytes() == v@,
;

/// The characters of each string of `v`.
pub open spec fn names(v: Seq<String>) -> Seq<Seq<char>> {
    v.map_values(|s: String| s@)
}

/// The text that `bytes` encode, where they are valid UTF-8.
pub fn decode(bytes: &[u8]) -> (r: Option<String>)
    ensures
        valid_utf8(bytes@) <==> r is Some,
        r matches Some(s) ==> s@ == decode_utf8(bytes@) && encode_utf8(s@) == bytes@,
{
    match core::str::from_utf8(bytes) {
        Ok(s) => {
            proof {
                encode_utf8_decode_utf8(s@);
            }
            Some(s.to_owned())
        },
        Err(_) => None,
    }
}

/// A character below 0x80 and the byte of its number stand for each other.
pub proof fn lemma_ascii_cast(c: char, b: u8)
    requires
        b < 0x80,
    ensures
        c == b as char <==> (c as u32) < 0x80 && c as u8 == b,
{
    char_u32_cast(c, c as u32);
    char_u32_cast(b as char, b as u32);
}

/// A character below 0x80 is encoded as its own byte, and any other
/// character as bytes from 0x80 upwards.
pub proof fn lemma_encode_scalar(c: char)
    ensures
        (c as u32) < 0x80 ==> encode_scalar(c as u32) == seq![c as u8],
        (c as u32) >= 0x80 ==> forall|k: int|
            0 <= k < encode_scalar(c as u32).len() ==> #[trigger] encode_scalar(c as u32)[k]
                >= 0x80,
        1 <= encode_scalar(c as u32).len() <= 4,
{
    let v = c as u32;
    if v < 0x80 {
        assert((v & 0x7F) as u8 == v as u8) by (bit_vector)
            requires
                v < 0x80,
        ;
        assert(encode_scalar(v) =~= seq![c as u8]);
    } else {
        assert(forall|x: u8| 0x80u8 | x >= 0x80) by (bit_vector);
        assert(forall|x: u8| 0xC0u8 | x >= 0x80) by (bit_vector);
        assert(forall|x: u8| 0xE0u8 | x >= 0x80) by (bit_vector);
        assert(forall|x: u8| 0xF0u8 | x >= 0x80) by (bit_vector);
    }
}

/// The encoding of a text with one more character is the encoding of the
/// text followed by that of the character.
pub proof fn lemma_encode_push(s: Seq<char>, c: char)
    ensures
        encode_utf8(s.push(c)) == encode_utf8(s) + encode_scalar(c as u32),
    decreases s.len(),
{
    if s.len() == 0 {
        reveal_with_fuel(encode_utf8, 2);
        assert(s.push(c).drop_first() =~= s);
        assert(encode_utf8(s.push(c)) =~= encode_scalar(c as u32));
    } else {
        assert(s.push(c).drop_first() =~= s.drop_first().push(c));
        lemma_encode_push(s.drop_first(), c);
        assert(encode_utf8(s.push(c)) =~= encode_utf8(s) + encode_scalar(c as u32));
    }
}

/// A byte below 0x80 stands in the encoding of a text exactly where the
/// text holds the character of that number.
pub proof fn lemma_encode_contains(s: Seq<char>, b: u8)
    requires
        b < 0x80,
    ensures
        encode_utf8(s).contains(b) <==> s.contains(b as char),
    decreases s.len(),
{
    if s.len() > 0 {
        let head = encode_scalar(s[0] as u32);
        let rest = s.drop_first();
        let tail = encode_utf8(rest);
        lemma_encode_scalar(s[0]);
        lemma_ascii_cast(s[0], b);
        lemma_encode_contains(rest, b);
        if encode_utf8(s).contains(b) {
            let i = choose|i: int| 0 <= i < encode_utf8(s).len() && encode_utf8(s)[i] == b;
            if i < head.len() {
                assert(head[i] == b);
                assert(s[0] == b as char);
            } else {
                assert(tail[i - head.len()] == b);
                assert(tail.contains(b));
                let j = choose|j: int| 0 <= j < rest.len() && rest[j] == b as char;
                assert(s[j + 1] == b as char);
            }
        }
        if s.contains(b as char) {
            let j = choose|j: int| 0 <= j < s.len() && s[j] == b as char;
            if j == 0 {
                assert(encode_utf8(s)[0] == b);
            } else {
                assert(rest[j - 1] == b as char);
                assert(rest.contains(b as char));
                let i = choose|i: int| 0 <= i < tail.len() && tail[i] == b;
                assert(encode_utf8(s)[head.len() + i] == b);
            }
        }
    }
}

/// The encoding of a text that is not empty ends in a byte below 0x80
/// exactly where the text ends in the character of that number.
pub proof fn lemma_encode_last(s: Seq<char>, b: u8)
    requires
        b < 0x80,
        s.len() > 0,
    ensures
        encode_utf8(s).len() > 0,
        encode_utf8(s).last() == b <==> s.last() == b as char,
{
    let front = s.drop_last();
    assert(front.push(s.last()) =~= s);
    lemma_encode_push(front, s.last());
    lemma_encode_scalar(s.last());
    lemma_ascii_cast(s.last(), b);
    let tail = encode_scalar(s.last() as u32);
    assert(encode_utf8(s).last() == tail[tail.len() - 1]);
}

/// Bytes around a byte below 0x80 are valid UTF-8 exactly where the bytes
/// before it and the bytes after it are: such a byte is a character of its
/// own and part of no other.
pub proof fn lemma_valid_around_ascii(before: Seq<u8>, b: u8, after: Seq<u8>)
    requires
        b < 0x80,
    ensures
        valid_utf8(before + seq![b] + after) <==> valid_utf8(before) && valid_utf8(after),
{
    let middle = seq![b] + after;
    let whole = before + seq![b] + after;
    assert(whole =~= before + middle);
    assert(pop_first_scalar(middle) =~= after);
    assert(valid_utf8(middle) <==> valid_utf8(after));
    if valid_utf8(before) && valid_utf8(after) {
        valid_utf8_concat(before, middle);
    }
    if valid_utf8(whole) {
        let at = before.len() as int;
        assert(whole[at] == b);
        is_char_boundary_iff_not_is_continuation_byte(whole, at);
        valid_utf8_split(whole, at);
        assert(whole.subrange(0, at) =~= before);
        assert(whole.subrange(at, whole.len() as int) =~= middle);
    }
}

} // verus!
