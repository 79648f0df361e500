//! Splitting file content into raw lines and normalizing line endings.
//!
//! A raw line is a maximal chunk of the content ending with a linefeed,
//! except possibly the last chunk, which may be unterminated. Normalization
//! rewrites a trailing carriage-return+linefeed to a single linefeed and (for
//! the initial tail) appends a linefeed to an unterminated final line.

use vstd::prelude::*;

verus! {

/// The lines of `rest`, given that the bytes of `cur` have already been read
/// from the current, still unterminated, line.
pub open spec fn split_lines_from(rest: Seq<u8>, cur: Seq<u8>) -> Seq<Seq<u8>>
    decreases rest.len(),
{
    if rest.len() == 0 {
        if cur.len() == 0 {
            Seq::empty()
        } else {
            seq![cur]
        }
    } else if rest[0] == 10u8 {
        seq![cur.push(10u8)] + split_lines_from(rest.skip(1), Seq::empty())
    } else {
        split_lines_from(rest.skip(1), cur.push(rest[0]))
    }
}

/// A file's content split into raw lines. An empty file has no lines.
pub open spec fn split_lines(s: Seq<u8>) -> Seq<Seq<u8>> {
    split_lines_from(s, Seq::empty())
}

/// The line ends with a carriage-return+linefeed pair.
pub open spec fn ends_crlf(l: Seq<u8>) -> bool {
    l.len() >= 2 && l[l.len() - 2] == 13u8 && l[l.len() - 1] == 10u8
}

/// The line ends with a linefeed.
pub open spec fn ends_lf(l: Seq<u8>) -> bool {
    l.len() >= 1 && l[l.len() - 1] == 10u8
}

/// A trailing carriage-return+linefeed becomes a single linefeed; any other
/// line is unchanged. This is the whole normalization applied in follow mode.
pub open spec fn normalize_crlf(l: Seq<u8>) -> Seq<u8> {
    if ends_crlf(l) {
        l.take(l.len() - 2).push(10u8)
    } else {
        l
    }
}

/// Full normalization of an initial-tail line: a trailing CRLF becomes a
/// single linefeed, and a line lacking any terminator has one appended.
pub open spec fn normalize_line(l: Seq<u8>) -> Seq<u8> {
    let m = normalize_crlf(l);
    if ends_lf(m) {
        m
    } else {
        m.push(10u8)
    }
}

/// Rewrites a trailing CRLF to a single LF, in place.
pub fn normalize_crlf_line(line: &mut Vec<u8>)
    ensures
        final(line)@ == normalize_crlf(old(line)@),
{
    let n = line.len();
    if n >= 2 && line[n - 2] == 13u8 && line[n - 1] == 10u8 {
        line.truncate(n - 2);
        line.push(10u8);
        assert(line@ =~= normalize_crlf(old(line)@));
    }
}

/// Rewrites a trailing CRLF to a single LF and appends an LF to a line that
/// has no terminator, in place.
pub fn normalize_tail_line(line: &mut Vec<u8>)
    ensures
        final(line)@ == normalize_line(old(line)@),
{
    normalize_crlf_line(line);
    let n = line.len();
    if n == 0 || line[n - 1] != 10u8 {
        line.push(10u8);
    }
}

/// Law: the raw lines of a byte sequence concatenate back to exactly that
/// sequence — splitting into lines loses no byte and duplicates none, and
/// keeps their order.
pub proof fn lemma_split_lines_partition(s: Seq<u8>)
    ensures
        split_lines(s).flatten() == s,
{
    lemma_split_lines_from_flatten(s, Seq::empty());
    assert(Seq::<u8>::empty() + s =~= s);
}

proof fn lemma_flatten_cons(x: Seq<u8>, rest: Seq<Seq<u8>>)
    ensures
        (seq![x] + rest).flatten() == x + rest.flatten(),
{
    let s = seq![x] + rest;
    assert(s.first() == x);
    assert(s.drop_first() =~= rest);
}

proof fn lemma_split_lines_from_flatten(rest: Seq<u8>, cur: Seq<u8>)
    ensures
        split_lines_from(rest, cur).flatten() == cur + rest,
    decreases rest.len(),
{
    if rest.len() == 0 {
        if cur.len() == 0 {
            assert(split_lines_from(rest, cur).flatten() =~= cur + rest);
        } else {
            seq![cur].lemma_flatten_one_element();
            assert(cur + rest =~= cur);
        }
    } else if rest[0] == 10u8 {
        lemma_split_lines_from_flatten(rest.skip(1), Seq::empty());
        lemma_flatten_cons(cur.push(10u8), split_lines_from(rest.skip(1), Seq::empty()));
        assert(Seq::<u8>::empty() + rest.skip(1) =~= rest.skip(1));
        assert(cur.push(10u8) + rest.skip(1) =~= cur + rest);
    } else {
        lemma_split_lines_from_flatten(rest.skip(1), cur.push(rest[0]));
        assert(cur.push(rest[0]) + rest.skip(1) =~= cur + rest);
    }
}

/// Law: every normalized line ends with a single linefeed, whatever the
/// source line's ending style was.
pub proof fn lemma_normalize_ends_lf(l: Seq<u8>)
    ensures
        ends_lf(normalize_line(l)),
{
}

/// Law: a line lacking any terminator gets exactly one linefeed appended.
pub proof fn lemma_normalize_appends_lf(l: Seq<u8>)
    requires
        !ends_lf(l),
    ensures
        normalize_line(l) == l.push(10u8),
{
}

/// Law: normalizing an already normalized line changes nothing. The inputs
/// left out are those whose normal form itself ends in CRLF: a line whose
/// content ends with a bare carriage return.
pub proof fn lemma_normalize_idempotent(l: Seq<u8>)
    requires
        ends_crlf(l) ==> l.len() == 2 || l[l.len() - 3] != 13u8,
        !ends_lf(l) ==> l.len() == 0 || l[l.len() - 1] != 13u8,
    ensures
        normalize_line(normalize_line(l)) == normalize_line(l),
{
    let m = normalize_line(l);
    assert(ends_lf(m));
    assert(!ends_crlf(m));
}

} // verus!
