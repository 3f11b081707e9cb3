//! The ledger file: UTF-8 text with one file name on each line.
//!
//! Lines end in a line feed. A last line without one is still a line. A
//! carriage return before the line feed is not part of the name. What this
//! crate writes has a line feed after every name and no carriage return.

use vstd::prelude::*;
use vstd::slice::*;
use vstd::string::*;
use vstd::utf8::*;
use crate::distinct::distinct;
use crate::error::Error;
use crate::text::{
    decode, lemma_encode_contains, lemma_encode_last, lemma_encode_push, lemma_encode_scalar,
    lemma_valid_around_ascii, names,
};

verus! {

/// The byte that ends a line.
pub const LINE_FEED: u8 = 0x0A;

/// The byte that some editors put before the line feed.
pub const CARRIAGE_RETURN: u8 = 0x0D;

/// The index of the first line feed of `s`, or the length of `s` where it
/// has none.
pub open spec fn line_end(s: Seq<u8>) -> nat
    decreases s.len(),
{
    if s.len() == 0 || s[0] == LINE_FEED {
        0
    } else {
        1 + line_end(s.drop_first())
    }
}

/// The lines of `s`, without their line feeds. What follows the last line
/// feed is a line too, unless it is empty.
pub open spec fn split_lines(s: Seq<u8>) -> Seq<Seq<u8>>
    decreases s.len(),
{
    if s.len() == 0 {
        Seq::empty()
    } else {
        let n = line_end(s) as int;
        if n >= s.len() {
            seq![s]
        } else {
            seq![s.take(n)] + split_lines(s.skip(n + 1))
        }
    }
}

/// `line` without the carriage return at its end, if it has one.
pub open spec fn trim_cr(line: Seq<u8>) -> Seq<u8> {
    if line.len() > 0 && line.last() == CARRIAGE_RETURN {
        line.drop_last()
    } else {
        line
    }
}

/// The lines of a ledger as bytes, each without line feed and carriage
/// return.
pub open spec fn lines_of(data: Seq<u8>) -> Seq<Seq<u8>> {
    split_lines(data).map_values(|line: Seq<u8>| trim_cr(line))
}

/// Whether every line of the ledger is valid UTF-8.
pub open spec fn well_encoded(data: Seq<u8>) -> bool {
    forall|i: int| 0 <= i < lines_of(data).len() ==> valid_utf8(#[trigger] lines_of(data)[i])
}

/// The text of each line of a ledger, in the order of the lines.
pub open spec fn texts_of(data: Seq<u8>) -> Seq<Seq<char>> {
    lines_of(data).map_values(|line: Seq<u8>| decode_utf8(line))
}

/// The names that a ledger holds: the texts of its lines, each name where it
/// first occurs.
pub open spec fn names_of(data: Seq<u8>) -> Seq<Seq<char>> {
    distinct(texts_of(data))
}

/// The bytes that one name takes in a ledger: its UTF-8 encoding and a line
/// feed.
pub open spec fn line_of(name: Seq<char>) -> Seq<u8> {
    encode_utf8(name).push(LINE_FEED)
}

/// The ledger that holds exactly `names`, in their order.
pub open spec fn render(names: Seq<Seq<char>>) -> Seq<u8>
    decreases names.len(),
{
    if names.len() == 0 {
        Seq::empty()
    } else {
        render(names.drop_last()) + line_of(names.last())
    }
}

/// Whether a ledger is empty or ends in a line feed, so that what is
/// appended to it starts a line of its own.
pub open spec fn terminated(data: Seq<u8>) -> bool {
    data.len() == 0 || data.last() == LINE_FEED
}

/// `line_end` gives the first line feed.
pub proof fn lemma_line_end(s: Seq<u8>)
    ensures
        0 <= line_end(s) <= s.len(),
        forall|k: int| 0 <= k < line_end(s) ==> s[k] != LINE_FEED,
        line_end(s) < s.len() ==> s[line_end(s) as int] == LINE_FEED,
    decreases s.len(),
{
    if s.len() > 0 && s[0] != LINE_FEED {
        let rest = s.drop_first();
        lemma_line_end(rest);
        assert forall|k: int| 0 <= k < line_end(s) implies s[k] != LINE_FEED by {
            if k > 0 {
                assert(rest[k - 1] == s[k]);
            }
        }
    }
}

/// An index with no line feed before it, and with a line feed or the end at
/// it, is `line_end`.
pub proof fn lemma_line_end_is(s: Seq<u8>, n: int)
    requires
        0 <= n <= s.len(),
        forall|k: int| 0 <= k < n ==> s[k] != LINE_FEED,
        n < s.len() ==> s[n] == LINE_FEED,
    ensures
        line_end(s) == n,
    decreases s.len(),
{
    if s.len() > 0 && s[0] != LINE_FEED {
        let rest = s.drop_first();
        assert forall|k: int| 0 <= k < n - 1 implies rest[k] != LINE_FEED by {
            assert(rest[k] == s[k + 1]);
        }
        lemma_line_end_is(rest, n - 1);
    }
}

/// `name` without the carriage return at its end, if it has one: what is
/// read back from a line that holds `name`.
pub open spec fn without_cr(name: Seq<char>) -> Seq<char> {
    if name.len() > 0 && name.last() == '\r' {
        name.drop_last()
    } else {
        name
    }
}

/// Whether a name can stand on a line: it holds no line feed.
pub open spec fn on_one_line(name: Seq<char>) -> bool {
    !name.contains('\n')
}

/// Whether a name comes back unchanged when it is written as a line and read
/// again: it holds no line feed and does not end in a carriage return.
pub open spec fn fits_line(name: Seq<char>) -> bool {
    on_one_line(name) && without_cr(name) == name
}

/// Whether every name of `names` fits a line.
pub open spec fn all_fit(names: Seq<Seq<char>>) -> bool {
    forall|i: int| 0 <= i < names.len() ==> fits_line(#[trigger] names[i])
}

/// Whether every name of `names` can stand on a line.
pub open spec fn all_on_one_line(names: Seq<Seq<char>>) -> bool {
    forall|i: int| 0 <= i < names.len() ==> on_one_line(#[trigger] names[i])
}

/// A line without line feed, appended with its line feed to a ledger that is
/// empty or ends in one, is one more line after those of the ledger.
pub proof fn lemma_split_append(data: Seq<u8>, line: Seq<u8>)
    requires
        terminated(data),
        !line.contains(LINE_FEED),
    ensures
        split_lines(data + line.push(LINE_FEED)) == split_lines(data).push(line),
    decreases data.len(),
{
    let added = line.push(LINE_FEED);
    let whole = data + added;
    if data.len() == 0 {
        assert(whole =~= added);
        assert forall|k: int| 0 <= k < line.len() implies added[k] != LINE_FEED by {
            if added[k] == LINE_FEED {
                assert(line[k] == LINE_FEED);
            }
        }
        lemma_line_end_is(added, line.len() as int);
        assert(added.take(line.len() as int) =~= line);
        assert(added.skip(line.len() as int + 1) =~= Seq::<u8>::empty());
        assert(split_lines(added.skip(line.len() as int + 1)) =~= Seq::<Seq<u8>>::empty());
        assert(split_lines(added) =~= seq![line]);
        assert(split_lines(data).push(line) =~= seq![line]);
    } else {
        lemma_line_end(data);
        let n = line_end(data) as int;
        assert(n < data.len()) by {
            if n >= data.len() {
                assert(data[data.len() - 1] != LINE_FEED);
            }
        }
        assert forall|k: int| 0 <= k < n implies whole[k] != LINE_FEED by {
            assert(whole[k] == data[k]);
        }
        lemma_line_end_is(whole, n);
        let rest = data.skip(n + 1);
        assert(terminated(rest)) by {
            if rest.len() > 0 {
                assert(rest.last() == data.last());
            }
        }
        lemma_split_append(rest, line);
        assert(whole.skip(n + 1) =~= rest + added);
        assert(whole.take(n) =~= data.take(n));
        assert(split_lines(whole) =~= split_lines(data).push(line));
    }
}

/// The line that holds a name is read back as the name without the
/// carriage return at its end.
pub proof fn lemma_line_read_back(name: Seq<char>)
    requires
        on_one_line(name),
    ensures
        !encode_utf8(name).contains(LINE_FEED),
        trim_cr(encode_utf8(name)) == encode_utf8(without_cr(name)),
        valid_utf8(trim_cr(encode_utf8(name))),
        decode_utf8(trim_cr(encode_utf8(name))) == without_cr(name),
{
    lemma_encode_contains(name, LINE_FEED);
    if name.len() > 0 {
        lemma_encode_last(name, CARRIAGE_RETURN);
        if name.last() == '\r' {
            let front = name.drop_last();
            assert(front.push('\r') =~= name);
            lemma_encode_push(front, '\r');
            lemma_encode_scalar('\r');
            assert(encode_utf8(name).drop_last() =~= encode_utf8(front));
        }
    } else {
        assert(encode_utf8(name) =~= Seq::<u8>::empty());
    }
    encode_utf8_decode_utf8(without_cr(name));
    encode_utf8_valid_utf8(without_cr(name));
}

/// A name without line feed, appended as a line to a ledger that is empty
/// or ends in a line feed, is read back as one more text after those of the
/// ledger.
pub proof fn lemma_append_line(data: Seq<u8>, name: Seq<char>)
    requires
        terminated(data),
        on_one_line(name),
    ensures
        texts_of(data + line_of(name)) == texts_of(data).push(without_cr(name)),
        well_encoded(data + line_of(name)) <==> well_encoded(data),
        terminated(data + line_of(name)),
{
    let line = encode_utf8(name);
    lemma_line_read_back(name);
    lemma_split_append(data, line);
    let after = data + line_of(name);
    assert(lines_of(after) =~= lines_of(data).push(trim_cr(line)));
    assert(texts_of(after) =~= texts_of(data).push(without_cr(name)));
    if well_encoded(data) {
        assert forall|i: int| 0 <= i < lines_of(after).len() implies valid_utf8(
            #[trigger] lines_of(after)[i],
        ) by {
            if i < lines_of(data).len() {
                assert(lines_of(after)[i] == lines_of(data)[i]);
            }
        }
    }
    if well_encoded(after) {
        assert forall|i: int| 0 <= i < lines_of(data).len() implies valid_utf8(
            #[trigger] lines_of(data)[i],
        ) by {
            assert(lines_of(after)[i] == lines_of(data)[i]);
        }
    }
}

/// What `render` writes ends every line, is valid UTF-8, and reads back as
/// the names it was given, each without the carriage return at its end.
pub proof fn lemma_render(names: Seq<Seq<char>>)
    requires
        all_on_one_line(names),
    ensures
        terminated(render(names)),
        well_encoded(render(names)),
        texts_of(render(names)) == names.map_values(|name: Seq<char>| without_cr(name)),
        all_fit(names) ==> texts_of(render(names)) == names,
    decreases names.len(),
{
    let read = names.map_values(|name: Seq<char>| without_cr(name));
    if names.len() == 0 {
        assert(texts_of(render(names)) =~= read);
    } else {
        let front = names.drop_last();
        assert(all_on_one_line(front)) by {
            assert forall|i: int| 0 <= i < front.len() implies on_one_line(
                #[trigger] front[i],
            ) by {
                assert(front[i] == names[i]);
            }
        }
        lemma_render(front);
        lemma_append_line(render(front), names.last());
        assert(texts_of(render(names)) =~= read);
    }
    if all_fit(names) {
        assert(read =~= names);
    }
}

/// The texts of a ledger whose lines are valid UTF-8 hold no line feed.
pub proof fn lemma_texts_on_one_line(data: Seq<u8>)
    requires
        well_encoded(data),
    ensures
        all_on_one_line(texts_of(data)),
{
    assert forall|i: int| 0 <= i < texts_of(data).len() implies on_one_line(
        #[trigger] texts_of(data)[i],
    ) by {
        let line = split_lines(data)[i];
        lemma_split_lines_hold_no_line_feed(data);
        let trimmed = lines_of(data)[i];
        assert(trimmed == trim_cr(line));
        assert(!trimmed.contains(LINE_FEED)) by {
            if trimmed.contains(LINE_FEED) {
                let k = choose|k: int| 0 <= k < trimmed.len() && trimmed[k] == LINE_FEED;
                assert(line[k] == LINE_FEED);
            }
        }
        decode_utf8_encode_utf8(trimmed);
        lemma_encode_contains(decode_utf8(trimmed), LINE_FEED);
    }
}

/// No line that `split_lines` gives holds a line feed.
pub proof fn lemma_split_lines_hold_no_line_feed(data: Seq<u8>)
    ensures
        forall|i: int|
            0 <= i < split_lines(data).len() ==> !(#[trigger] split_lines(data)[i]).contains(
                LINE_FEED,
            ),
    decreases data.len(),
{
    if data.len() > 0 {
        lemma_line_end(data);
        let n = line_end(data) as int;
        let first = data.take(n);
        assert(!first.contains(LINE_FEED)) by {
            if first.contains(LINE_FEED) {
                let k = choose|k: int| 0 <= k < first.len() && first[k] == LINE_FEED;
                assert(data[k] == LINE_FEED);
            }
        }
        if n >= data.len() {
            assert(first =~= data);
        } else {
            let rest = data.skip(n + 1);
            lemma_split_lines_hold_no_line_feed(rest);
            assert forall|i: int| 0 <= i < split_lines(data).len() implies !(
            #[trigger] split_lines(data)[i]).contains(LINE_FEED) by {
                if i > 0 {
                    assert(split_lines(data)[i] == split_lines(rest)[i - 1]);
                }
            }
        }
    }
}

/// A line is valid UTF-8 with the carriage return at its end exactly where
/// it is valid UTF-8 without it.
pub proof fn lemma_trim_cr_keeps_validity(line: Seq<u8>)
    ensures
        valid_utf8(trim_cr(line)) <==> valid_utf8(line),
{
    if line.len() > 0 && line.last() == CARRIAGE_RETURN {
        let front = line.drop_last();
        lemma_valid_around_ascii(front, CARRIAGE_RETURN, Seq::empty());
        assert(front + seq![CARRIAGE_RETURN] + Seq::<u8>::empty() =~= line);
    }
}

/// Every line of a ledger is valid UTF-8 exactly where the ledger as a
/// whole is.
pub proof fn lemma_well_encoded_is_valid_utf8(data: Seq<u8>)
    ensures
        well_encoded(data) <==> valid_utf8(data),
    decreases data.len(),
{
    if data.len() == 0 {
        assert(lines_of(data) =~= Seq::<Seq<u8>>::empty());
    } else {
        lemma_line_end(data);
        let n = line_end(data) as int;
        let first = data.take(n);
        lemma_trim_cr_keeps_validity(first);
        if n >= data.len() {
            assert(first =~= data);
            assert(lines_of(data) =~= seq![trim_cr(data)]);
            assert(lines_of(data)[0] == trim_cr(data));
        } else {
            let rest = data.skip(n + 1);
            lemma_well_encoded_is_valid_utf8(rest);
            lemma_valid_around_ascii(first, LINE_FEED, rest);
            assert(first + seq![LINE_FEED] + rest =~= data);
            assert(lines_of(data) =~= seq![trim_cr(first)] + lines_of(rest));
            assert(lines_of(data)[0] == trim_cr(first));
            if well_encoded(data) {
                assert forall|i: int| 0 <= i < lines_of(rest).len() implies valid_utf8(
                    #[trigger] lines_of(rest)[i],
                ) by {
                    assert(lines_of(rest)[i] == lines_of(data)[i + 1]);
                }
            }
            if valid_utf8(first) && well_encoded(rest) {
                assert forall|i: int| 0 <= i < lines_of(data).len() implies valid_utf8(
                    #[trigger] lines_of(data)[i],
                ) by {
                    if i > 0 {
                        assert(lines_of(data)[i] == lines_of(rest)[i - 1]);
                    }
                }
            }
        }
    }
}

/// Splits `data` into its lines and decodes each.
pub fn read_lines(data: &[u8]) -> (r: Result<Vec<String>, Error>)
    ensures
        well_encoded(data@) ==> r is Ok && names(r->Ok_0@) == texts_of(data@),
        !well_encoded(data@) ==> r == Err::<Vec<String>, Error>(Error::Encoding),
        r is Ok <==> valid_utf8(data@),
{
    proof {
        lemma_well_encoded_is_valid_utf8(data@);
    }
    let mut out: Vec<String> = Vec::new();
    let mut start: usize = 0;
    assert(data@.skip(0) =~= data@);
    while start < data.len()
        invariant
            start <= data.len(),
            well_encoded(data@) <==> valid_utf8(data@),
            out.len() <= split_lines(data@).len(),
            split_lines(data@).skip(out.len() as int) == split_lines(data@.skip(start as int)),
            forall|i: int| 0 <= i < out.len() ==> valid_utf8(#[trigger] lines_of(data@)[i]),
            forall|i: int| 0 <= i < out.len() ==> (#[trigger] out@[i])@ == decode_utf8(lines_of(data@)[i]),
        decreases data.len() - start,
    {
        let ghost rest = data@.skip(start as int);
        let mut end = start;
        while end < data.len() && data[end] != LINE_FEED
            invariant
                start <= end <= data.len(),
                forall|k: int| start <= k < end ==> data@[k] != LINE_FEED,
            decreases data.len() - end,
        {
            end += 1;
        }
        let mut stop = end;
        if stop > start && data[stop - 1] == CARRIAGE_RETURN {
            stop -= 1;
        }
        let piece = slice_subrange(data, start, stop);
        proof {
            assert forall|k: int| 0 <= k < end - start implies rest[k] != LINE_FEED by {
                assert(rest[k] == data@[start + k]);
            }
            lemma_line_end_is(rest, end - start);
            let line = rest.take(end - start);
            assert(split_lines(rest)[0] == line);
            assert(split_lines(rest).len() >= 1);
            assert(split_lines(data@).skip(out.len() as int).len() == split_lines(data@).len()
                - out.len());
            assert(split_lines(data@).skip(out.len() as int)[0] == split_lines(data@)[out.len() as int]);
            assert(split_lines(data@)[out.len() as int] == line);
            assert(line =~= data@.subrange(start as int, end as int));
            assert(trim_cr(line) =~= piece@);
            assert(lines_of(data@)[out.len() as int] == piece@);
            if end < data.len() {
                assert(split_lines(rest).skip(1) =~= split_lines(rest.skip(end - start + 1)));
                assert(rest.skip(end - start + 1) =~= data@.skip(end + 1));
            } else {
                assert(split_lines(rest).skip(1) =~= Seq::<Seq<u8>>::empty());
                assert(split_lines(data@.skip(end as int)) =~= Seq::<Seq<u8>>::empty());
            }
            assert(split_lines(data@).skip(out.len() + 1) =~= split_lines(rest).skip(1));
        }
        match decode(piece) {
            Some(name) => {
                out.push(name);
            },
            None => {
                return Err(Error::Encoding);
            },
        }
        start = if end < data.len() {
            end + 1
        } else {
            end
        };
    }
    proof {
        assert(split_lines(data@.skip(start as int)) =~= Seq::<Seq<u8>>::empty());
        assert(split_lines(data@).len() == out.len());
        assert(names(out@) =~= texts_of(data@));
    }
    Ok(out)
}

/// Puts the bytes of `bytes` at the end of `out`.
fn append_bytes(out: &mut Vec<u8>, bytes: &[u8])
    ensures
        final(out)@ == old(out)@ + bytes@,
{
    let mut i: usize = 0;
    while i < bytes.len()
        invariant
            i <= bytes.len(),
            out@ == old(out)@ + bytes@.take(i as int),
        decreases bytes.len() - i,
    {
        out.push(bytes[i]);
        assert(bytes@.take(i + 1) =~= bytes@.take(i as int).push(bytes@[i as int]));
        i += 1;
    }
    assert(bytes@.take(i as int) =~= bytes@);
}

/// The line that holds `name`: its bytes and a line feed.
pub fn encode_line(name: &str) -> (r: Vec<u8>)
    ensures
        r@ == line_of(name@),
{
    let mut out = name.as_bytes_vec();
    out.push(LINE_FEED);
    out
}

/// The ledger that holds `lines`, one name on each line.
pub fn write_lines(lines: &Vec<String>) -> (r: Vec<u8>)
    ensures
        r@ == render(names(lines@)),
{
    let mut out: Vec<u8> = Vec::new();
    let mut i: usize = 0;
    while i < lines.len()
        invariant
            i <= lines.len(),
            out@ == render(names(lines@).take(i as int)),
        decreases lines.len() - i,
    {
        append_bytes(&mut out, lines[i].as_str().as_bytes());
        out.push(LINE_FEED);
        proof {
            let upto = names(lines@).take(i + 1);
            assert(upto.drop_last() =~= names(lines@).take(i as int));
            assert(upto.last() == lines@[i as int]@);
            assert(out@ =~= render(upto.drop_last()) + line_of(upto.last()));
        }
        i += 1;
    }
    assert(names(lines@).take(i as int) =~= names(lines@));
    out
}

} // verus!
