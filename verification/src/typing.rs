//! Typing text out through the keyboard in chunks.

use vstd::prelude::*;
use crate::text::{chars_of, slice_chars, string_from_chars};

verus! {

/// Most characters handed to the keyboard in one go (longer strings lose
/// their tail on some systems).
pub const CHUNK_CHARS: usize = 50;

/// Pause before typing starts, in milliseconds.
pub const TYPING_START_PAUSE_MS: u64 = 100;

/// The `i`-th chunk of `s`: characters `50 i` up to `50 i + 50` (or the end).
pub open spec fn chunk_of(s: Seq<char>, i: int) -> Seq<char> {
    let start = 50 * i;
    let end = if start + 50 <= s.len() {
        start + 50
    } else {
        s.len() as int
    };
    s.subrange(start, end)
}

/// How many chunks `s` is typed in.
pub open spec fn chunk_count(s: Seq<char>) -> nat {
    ((s.len() + 49) / 50) as nat
}

/// The chunks laid end to end.
pub open spec fn joined(chunks: Seq<Seq<char>>) -> Seq<char>
    decreases chunks.len(),
{
    if chunks.len() == 0 {
        seq![]
    } else {
        joined(chunks.drop_last()) + chunks.last()
    }
}

/// `text` cut into consecutive chunks of 50 characters, the last one shorter
/// when the length is not a multiple of 50.
pub fn text_chunks(text: &str) -> (chunks: Vec<String>)
    ensures
        chunks.len() == chunk_count(text@),
        forall|i: int| 0 <= i < chunks.len() ==> #[trigger] chunks@[i]@ == chunk_of(text@, i),
{
    let cs = chars_of(text);
    let n = cs.len();
    let mut chunks: Vec<String> = Vec::new();
    let mut start: usize = 0;
    while start < n
        invariant
            n == cs.len(),
            cs@ == text@,
            start <= n,
            start < n ==> start == 50 * chunks.len(),
            start == n ==> 50 * chunks.len() >= n,
            50 * chunks.len() <= n + 49,
            forall|i: int| 0 <= i < chunks.len() ==> #[trigger] chunks@[i]@ == chunk_of(text@, i),
        decreases n - start,
    {
        let end = if n - start > CHUNK_CHARS {
            start + CHUNK_CHARS
        } else {
            n
        };
        let piece = slice_chars(&cs, start, end);
        let ghost k = chunks.len() as int;
        chunks.push(string_from_chars(&piece));
        assert(chunks@[k]@ == chunk_of(text@, k));
        start = end;
    }
    chunks
}

/// What typing a text takes: the chunks, in order, and the pause after each
/// chunk (none when the configured delay is zero).
#[derive(Clone, Debug)]
pub struct TypingPlan {
    /// The pieces handed to the keyboard one after another.
    pub chunks: Vec<String>,
    /// Milliseconds to wait after each piece, if any.
    pub pause_after_chunk_ms: Option<u64>,
}

/// How to type `text` with `delay_ms` between chunks.
pub fn typing_plan(text: &str, delay_ms: u64) -> (plan: TypingPlan)
    ensures
        plan.chunks.len() == chunk_count(text@),
        forall|i: int|
            0 <= i < plan.chunks.len() ==> #[trigger] plan.chunks@[i]@ == chunk_of(text@, i),
        delay_ms > 0 ==> plan.pause_after_chunk_ms == Some(delay_ms),
        delay_ms == 0 ==> plan.pause_after_chunk_ms is None,
{
    let chunks = text_chunks(text);
    let pause_after_chunk_ms = if delay_ms > 0 {
        Some(delay_ms)
    } else {
        None
    };
    TypingPlan { chunks, pause_after_chunk_ms }
}

/// The chunks of `s`, as a sequence.
pub open spec fn chunks_of(s: Seq<char>) -> Seq<Seq<char>> {
    Seq::new(chunk_count(s), |i: int| chunk_of(s, i))
}

proof fn lemma_chunk_prefix(s: Seq<char>, k: nat)
    requires
        k <= chunk_count(s),
    ensures
        joined(chunks_of(s).take(k as int)) == s.take(
            if 50 * k <= s.len() {
                (50 * k) as int
            } else {
                s.len() as int
            },
        ),
    decreases k,
{
    if k == 0 {
        assert(chunks_of(s).take(0) =~= Seq::<Seq<char>>::empty());
        assert(s.take(0) =~= Seq::<char>::empty());
    } else {
        let k1 = (k - 1) as nat;
        lemma_chunk_prefix(s, k1);
        assert(chunks_of(s).take(k as int).drop_last() =~= chunks_of(s).take(k1 as int));
        assert(chunks_of(s).take(k as int).last() == chunk_of(s, k1 as int));
        assert(50 * k1 < s.len());
        let e = if 50 * k <= s.len() {
            (50 * k) as int
        } else {
            s.len() as int
        };
        assert(s.take((50 * k1) as int) + s.subrange((50 * k1) as int, e) =~= s.take(e));
    }
}

/// Laid end to end, the chunks give back the text; each chunk holds between
/// one and fifty characters.
pub proof fn lemma_chunks_rebuild_text(s: Seq<char>)
    ensures
        joined(chunks_of(s)) == s,
        forall|i: int|
            0 <= i < chunk_count(s) ==> 0 < (#[trigger] chunk_of(s, i)).len() <= CHUNK_CHARS,
{
    lemma_chunk_prefix(s, chunk_count(s));
    assert(chunks_of(s).take(chunk_count(s) as int) =~= chunks_of(s));
    assert(s.take(s.len() as int) =~= s);
    assert forall|i: int| 0 <= i < chunk_count(s) implies 0 < (#[trigger] chunk_of(s, i)).len()
        <= CHUNK_CHARS by {
        assert(50 * i < s.len());
    }
}

} // verus!
