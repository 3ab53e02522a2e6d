//! Turning the speech engine's text output into a one-line transcript.

use vstd::prelude::*;
use crate::text::{
    lemma_trim_drops_crlf,
    chars_of, is_trimmed, is_white_space, lemma_replaced_chars, lemma_replaced_ends,
    lemma_replaced_len, lemma_replaced_removes, lemma_trimmed_shape, replace_chars, replaced,
    string_from_chars, trim_chars, trimmed,
};

verus! {

/// The transcript made of the engine's raw text output: trimmed, each line
/// break turned into a space, then each pair of spaces (from the left, not
/// overlapping) turned into one.
pub open spec fn normalized(raw: Seq<char>) -> Seq<char> {
    replaced(replaced(trimmed(raw), seq!['\n'], seq![' ']), seq![' ', ' '], seq![' '])
}

/// The one-line transcript of the engine's raw text output (`raw.trim()`,
/// then `'\n'` replaced by `' '`, then `"  "` replaced by `" "`).
pub fn normalize_transcript(raw: &str) -> (t: String)
    ensures
        t@ == normalized(raw@),
{
    let cs = chars_of(raw);
    let trimmed_cs = trim_chars(&cs);
    let line_break = vec!['\n'];
    let space = vec![' '];
    let two_spaces = vec![' ', ' '];
    assert(line_break@ =~= seq!['\n']);
    assert(space@ =~= seq![' ']);
    assert(two_spaces@ =~= seq![' ', ' ']);
    let one_line = replace_chars(&trimmed_cs, &line_break, &space);
    let joined = replace_chars(&one_line, &two_spaces, &space);
    string_from_chars(&joined)
}

/// A normalised transcript holds no line break, has no white space at either
/// end, and is no longer than the raw text.
pub proof fn lemma_normalized_is_one_trimmed_line(raw: Seq<char>)
    ensures
        !normalized(raw).contains('\n'),
        is_trimmed(normalized(raw)),
        normalized(raw).len() <= raw.len(),
{
    let t = trimmed(raw);
    let nl = seq!['\n'];
    let sp = seq![' '];
    let sp2 = seq![' ', ' '];
    let u = replaced(t, nl, sp);
    let v = replaced(u, sp2, sp);
    lemma_trimmed_shape(raw);
    lemma_replaced_chars(t, nl, sp);
    lemma_replaced_chars(u, sp2, sp);
    assert(!sp.contains('\n')) by {
        if sp.contains('\n') {
            let k = choose|k: int| 0 <= k < sp.len() && sp[k] == '\n';
        }
    }
    lemma_replaced_removes(t, nl, sp);
    assert(nl[0] == '\n');
    if v.contains('\n') {
        assert(u.contains('\n') || sp.contains('\n'));
    }
    lemma_replaced_len(t, nl, sp);
    lemma_replaced_len(u, sp2, sp);
    if t.len() > 0 {
        assert(is_white_space('\n'));
        assert(is_white_space(' '));
        lemma_replaced_ends(t, nl, sp);
        lemma_replaced_ends(u, sp2, sp);
    }
}

/// A Windows line ending at the end of the engine's output (each of its
/// lines ends in `"\r\n"` there) leaves the transcript as it would be
/// without it: no carriage return is left behind to be typed.
pub proof fn lemma_normalized_ignores_crlf(raw: Seq<char>)
    ensures
        normalized(raw + seq!['\r', '\n']) == normalized(raw),
{
    lemma_trim_drops_crlf(raw);
}

} // verus!
