//! Values in the shapes the Win32 API takes them.

use vstd::prelude::*;
use vstd::string::*;

verus! {

/// The bit of a file's attributes that hides the file from listings.
pub const FILE_ATTRIBUTE_HIDDEN: u32 = 0x2;

/// The UTF-16 code units of one character: the character's own number
/// below 0x10000, and a pair of surrogates from there on.
pub open spec fn utf16_units(c: char) -> Seq<u16> {
    let v = c as u32;
    if v < 0x10000 {
        seq![v as u16]
    } else {
        seq![(0xD800 + (v - 0x10000) / 0x400) as u16, (0xDC00 + (v - 0x10000) % 0x400) as u16]
    }
}

/// The UTF-16 encoding of a text.
pub open spec fn encode_utf16(s: Seq<char>) -> Seq<u16>
    decreases s.len(),
{
    if s.len() == 0 {
        Seq::empty()
    } else {
        encode_utf16(s.drop_last()) + utf16_units(s.last())
    }
}

/// Whether the attributes say that the file is hidden.
pub open spec fn is_hidden(attributes: u32) -> bool {
    attributes & FILE_ATTRIBUTE_HIDDEN != 0
}

/// The bytes of `s` followed by a terminating zero byte.
pub fn to_pcstr(s: &str) -> (r: Vec<u8>)
    ensures
        r@ == s.spec_bytes().push(0u8),
{
    let mut out = s.as_bytes_vec();
    out.push(0);
    out
}

/// The UTF-16 code units of `s` followed by a terminating zero unit.
pub fn to_pcwstr(s: &str) -> (r: Vec<u16>)
    ensures
        r@ == encode_utf16(s@).push(0u16),
{
    let mut out: Vec<u16> = Vec::new();
    for c in it: s.chars()
        invariant
            it.seq() == s@,
            out@ == encode_utf16(s@.take(it.index() as int)),
    {
        let ghost before = out@;
        assert(s@.take(it.index() + 1).drop_last() =~= s@.take(it.index() as int));
        let v: u32 = c as u32;
        if v < 0x10000 {
            out.push(v as u16);
        } else {
            let w: u32 = v - 0x10000;
            out.push((0xD800 + w / 0x400) as u16);
            out.push((0xDC00 + w % 0x400) as u16);
        }
        assert(out@ =~= before + utf16_units(c));
    }
    assert(s@.take(s@.len() as int) =~= s@);
    out.push(0);
    out
}

/// What to set the attributes of the ledger file to, so that the file is
/// hidden: nothing where they say so already, and otherwise the same
/// attributes with the hidden bit added.
pub fn ensure_hidden(attributes: u32) -> (r: Option<u32>)
    ensures
        r is None <==> is_hidden(attributes),
        r matches Some(hidden) ==> is_hidden(hidden) && hidden == attributes
            | FILE_ATTRIBUTE_HIDDEN,
{
    if attributes & FILE_ATTRIBUTE_HIDDEN != 0 {
        None
    } else {
        let hidden = attributes | FILE_ATTRIBUTE_HIDDEN;
        assert(hidden & 0x2 != 0) by (bit_vector)
            requires
                hidden == attributes | 0x2,
        ;
        Some(hidden)
    }
}

} // verus!
