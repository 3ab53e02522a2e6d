//! Character-level string operations shared by the rest of the library.

use vstd::prelude::*;

verus! {

/// Unicode `White_Space`: the characters that `char::is_whitespace` accepts.
pub open spec fn is_white_space(c: char) -> bool {
    let u = c as u32;
    ||| 0x9 <= u <= 0xd
    ||| u == 0x20
    ||| u == 0x85
    ||| u == 0xa0
    ||| u == 0x1680
    ||| 0x2000 <= u <= 0x200a
    ||| u == 0x2028
    ||| u == 0x2029
    ||| u == 0x202f
    ||| u == 0x205f
    ||| u == 0x3000
}

/// Whether `c` is a Unicode white-space character.
pub fn is_white_space_char(c: char) -> (b: bool)
    ensures
        b == is_white_space(c),
{
    let u = c as u32;
    (0x9 <= u && u <= 0xd) || u == 0x20 || u == 0x85 || u == 0xa0 || u == 0x1680 || (0x2000 <= u
        && u <= 0x200a) || u == 0x2028 || u == 0x2029 || u == 0x202f || u == 0x205f || u == 0x3000
}

/// The characters of `s`, in order.
pub fn chars_of(s: &str) -> (v: Vec<char>)
    ensures
        v@ == s@,
{
    let mut v: Vec<char> = Vec::new();
    for c in it: s.chars()
        invariant
            v@ == it.seq().take(it.index() as int),
    {
        v.push(c);
    }
    v
}


/// `s` without its leading white space.
pub open spec fn trim_start(s: Seq<char>) -> Seq<char>
    decreases s.len(),
{
    if s.len() > 0 && is_white_space(s[0]) {
        trim_start(s.drop_first())
    } else {
        s
    }
}

/// `s` without its trailing white space.
pub open spec fn trim_end(s: Seq<char>) -> Seq<char>
    decreases s.len(),
{
    if s.len() > 0 && is_white_space(s.last()) {
        trim_end(s.drop_last())
    } else {
        s
    }
}

/// `s` without its leading and trailing white space, as `str::trim` gives it.
pub open spec fn trimmed(s: Seq<char>) -> Seq<char> {
    trim_end(trim_start(s))
}

/// A string whose first and last characters (if any) are not white space.
pub open spec fn is_trimmed(s: Seq<char>) -> bool {
    s.len() > 0 ==> !is_white_space(s[0]) && !is_white_space(s.last())
}

proof fn lemma_trim_start_skip(s: Seq<char>, i: int)
    requires
        0 <= i < s.len(),
        is_white_space(s[i]),
    ensures
        trim_start(s.skip(i)) == trim_start(s.skip(i + 1)),
{
    assert(s.skip(i).drop_first() =~= s.skip(i + 1));
}

proof fn lemma_trim_end_sub(s: Seq<char>, i: int, j: int)
    requires
        0 <= i < j <= s.len(),
        is_white_space(s[j - 1]),
    ensures
        trim_end(s.subrange(i, j)) == trim_end(s.subrange(i, j - 1)),
{
    assert(s.subrange(i, j).drop_last() =~= s.subrange(i, j - 1));
}

proof fn trim_start_index(s: Seq<char>) -> (i: int)
    ensures
        0 <= i <= s.len(),
        trim_start(s) == s.skip(i),
        forall|k: int| 0 <= k < i ==> is_white_space(#[trigger] s[k]),
        i < s.len() ==> !is_white_space(s[i]),
    decreases s.len(),
{
    if s.len() > 0 && is_white_space(s[0]) {
        let i0 = trim_start_index(s.drop_first());
        assert(s.drop_first().skip(i0) =~= s.skip(i0 + 1));
        assert forall|k: int| 0 <= k < i0 + 1 implies is_white_space(#[trigger] s[k]) by {
            if k > 0 {
                assert(s[k] == s.drop_first()[k - 1]);
            }
        }
        i0 + 1
    } else {
        assert(s.skip(0) =~= s);
        0
    }
}

proof fn trim_end_index(s: Seq<char>) -> (j: int)
    ensures
        0 <= j <= s.len(),
        trim_end(s) == s.take(j),
        forall|k: int| j <= k < s.len() ==> is_white_space(#[trigger] s[k]),
        j > 0 ==> !is_white_space(s[j - 1]),
    decreases s.len(),
{
    if s.len() > 0 && is_white_space(s.last()) {
        let j0 = trim_end_index(s.drop_last());
        assert(s.drop_last().take(j0) =~= s.take(j0));
        assert forall|k: int| j0 <= k < s.len() implies is_white_space(#[trigger] s[k]) by {
            if k < s.len() - 1 {
                assert(s[k] == s.drop_last()[k]);
            }
        }
        j0
    } else {
        assert(s.take(s.len() as int) =~= s);
        s.len() as int
    }
}

/// `trimmed(s)` is a run `s[i..j]` of `s` with only white space before and
/// after it, and with no white space at either of its own ends.
pub proof fn lemma_trimmed_shape(s: Seq<char>)
    ensures
        exists|i: int, j: int|
            0 <= i <= j <= s.len() && trimmed(s) == s.subrange(i, j) && (forall|k: int|
                0 <= k < i ==> is_white_space(#[trigger] s[k])) && (forall|k: int|
                j <= k < s.len() ==> is_white_space(#[trigger] s[k])),
        is_trimmed(trimmed(s)),
        trimmed(s).len() <= s.len(),
{
    let i = trim_start_index(s);
    let t = s.skip(i);
    let j = trim_end_index(t);
    assert(t.take(j) =~= s.subrange(i, i + j));
    assert forall|k: int| i + j <= k < s.len() implies is_white_space(#[trigger] s[k]) by {
        assert(s[k] == t[k - i]);
    }
    if j > 0 {
        assert(t[0] == s[i]);
        assert(t[j - 1] == s[i + j - 1]);
    }
    assert(exists|a: int, b: int|
        0 <= a <= b <= s.len() && trimmed(s) == s.subrange(a, b) && (forall|k: int|
            0 <= k < a ==> is_white_space(#[trigger] s[k])) && (forall|k: int|
            b <= k < s.len() ==> is_white_space(#[trigger] s[k]))) by {
        assert(0 <= i <= i + j <= s.len());
    }
}

proof fn lemma_trim_start_push(s: Seq<char>, c: char)
    ensures
        is_white_space(c) ==> trim_start(s.push(c)) == (if trim_start(s).len() > 0 {
            trim_start(s).push(c)
        } else {
            Seq::<char>::empty()
        }),
        !is_white_space(c) ==> trim_start(s.push(c)) == trim_start(s).push(c),
    decreases s.len(),
{
    if s.len() == 0 {
        assert(s.push(c).drop_first() =~= Seq::<char>::empty());
        assert(s.push(c) =~= seq![c]);
        assert(trim_start(Seq::<char>::empty()) == Seq::<char>::empty());
        assert(trim_start(s) == s);
        assert(s =~= Seq::<char>::empty());
    } else if is_white_space(s[0]) {
        assert(s.push(c).drop_first() =~= s.drop_first().push(c));
        lemma_trim_start_push(s.drop_first(), c);
    } else {
        assert(s.push(c)[0] == s[0]);
    }
}

proof fn lemma_trim_end_push_white(s: Seq<char>, c: char)
    requires
        is_white_space(c),
    ensures
        trim_end(s.push(c)) == trim_end(s),
{
    assert(s.push(c).drop_last() =~= s);
}

proof fn lemma_trim_end_push_kept(s: Seq<char>, c: char)
    requires
        !is_white_space(c),
    ensures
        trim_end(s.push(c)) == s.push(c),
{
}

/// The 25 characters of Unicode `White_Space` (the ones `char::is_whitespace`
/// accepts): tab, line feed, vertical tab, form feed, carriage return, space,
/// next line, no-break space, ogham space mark, the spaces U+2000 to U+200A,
/// line separator, paragraph separator, narrow no-break space, medium
/// mathematical space and ideographic space.
pub proof fn lemma_unicode_white_space(c: char)
    ensures
        is_white_space(c) <==> (c == '\t' || c == '\n' || c == '\u{b}' || c == '\u{c}' || c == '\r'
            || c == ' ' || c == '\u{85}' || c == '\u{a0}' || c == '\u{1680}' || c == '\u{2000}' || c
            == '\u{2001}' || c == '\u{2002}' || c == '\u{2003}' || c == '\u{2004}' || c
            == '\u{2005}' || c == '\u{2006}' || c == '\u{2007}' || c == '\u{2008}' || c
            == '\u{2009}' || c == '\u{200a}' || c == '\u{2028}' || c == '\u{2029}' || c
            == '\u{202f}' || c == '\u{205f}' || c == '\u{3000}'),
{
}

/// Trimming ignores one white-space character added at either end of any
/// text, and keeps any other character added at either end: the added
/// character is then the first (or last) of the trimmed text.
pub proof fn lemma_trim_edges(s: Seq<char>, c: char)
    ensures
        is_white_space(c) ==> trimmed(s.push(c)) == trimmed(s) && trimmed(seq![c] + s) == trimmed(
            s,
        ),
        !is_white_space(c) ==> trimmed(s.push(c)).len() > 0 && trimmed(s.push(c)).last() == c
            && trimmed(seq![c] + s).len() > 0 && trimmed(seq![c] + s)[0] == c,
{
    lemma_trim_start_push(s, c);
    let t = trim_start(s);
    assert((seq![c] + s).drop_first() =~= s);
    if is_white_space(c) {
        if t.len() > 0 {
            lemma_trim_end_push_white(t, c);
        }
    } else {
        lemma_trim_end_push_kept(t, c);
        assert(trim_start(seq![c] + s) == seq![c] + s);
        let u = seq![c] + s;
        let j = trim_end_index(u);
        assert(trim_end(u) == u.take(j));
        if j == 0 {
            assert(is_white_space(u[0]));
        }
        assert(u.take(j)[0] == u[0]);
    }
}

/// A Windows line ending (`"\r\n"`) after any text is dropped by trimming.
pub proof fn lemma_trim_drops_crlf(s: Seq<char>)
    ensures
        trimmed(s + seq!['\r', '\n']) == trimmed(s),
{
    assert(s + seq!['\r', '\n'] =~= s.push('\r').push('\n'));
    lemma_trim_edges(s.push('\r'), '\n');
    lemma_trim_edges(s, '\r');
}

/// The characters of `s` with leading and trailing white space removed
/// (`str::trim`).
pub fn trim_chars(s: &Vec<char>) -> (r: Vec<char>)
    ensures
        r@ == trimmed(s@),
{
    let n = s.len();
    let mut i: usize = 0;
    assert(s@.skip(0) =~= s@);
    while i < n && is_white_space_char(s[i])
        invariant
            n == s.len(),
            0 <= i <= n,
            trim_start(s@) == trim_start(s@.skip(i as int)),
        decreases n - i,
    {
        proof {
            lemma_trim_start_skip(s@, i as int);
        }
        i = i + 1;
    }
    assert(trim_start(s@.skip(i as int)) == s@.skip(i as int));
    assert(s@.skip(i as int) =~= s@.subrange(i as int, n as int));
    let mut j: usize = n;
    while j > i && is_white_space_char(s[j - 1])
        invariant
            n == s.len(),
            i <= j <= n,
            trim_end(s@.subrange(i as int, n as int)) == trim_end(s@.subrange(i as int, j as int)),
        decreases j - i,
    {
        proof {
            lemma_trim_end_sub(s@, i as int, j as int);
        }
        j = j - 1;
    }
    assert(trim_end(s@.subrange(i as int, j as int)) == s@.subrange(i as int, j as int));
    slice_chars(s, i, j)
}

/// The characters `s[from..to]`.
pub fn slice_chars(s: &Vec<char>, from: usize, to: usize) -> (r: Vec<char>)
    requires
        from <= to <= s.len(),
    ensures
        r@ == s@.subrange(from as int, to as int),
{
    let mut r: Vec<char> = Vec::new();
    let mut k = from;
    while k < to
        invariant
            from <= k <= to <= s.len(),
            r@ == s@.subrange(from as int, k as int),
        decreases to - k,
    {
        r.push(s[k]);
        k = k + 1;
    }
    r
}

/// `std`'s `FromIterator<char>` for `String`: the string made of `cs`, in order.
#[verifier::external_body]
pub(crate) fn string_from_chars(cs: &Vec<char>) -> (s: String)
    ensures
        s@ == cs@,
{
    cs.iter().collect()
}

/// `str::trim`: `s` with leading and trailing white space removed.
pub fn trim(s: &str) -> (r: String)
    ensures
        r@ == trimmed(s@),
{
    let cs = chars_of(s);
    let t = trim_chars(&cs);
    string_from_chars(&t)
}

/// `s` with every non-overlapping occurrence of `pat`, taken from the left,
/// replaced by `rep` (`str::replace` for a non-empty pattern).
pub open spec fn replaced(s: Seq<char>, pat: Seq<char>, rep: Seq<char>) -> Seq<char>
    decreases s.len(),
{
    if pat.len() == 0 || s.len() < pat.len() {
        s
    } else if s.take(pat.len() as int) == pat {
        rep + replaced(s.skip(pat.len() as int), pat, rep)
    } else {
        seq![s[0]] + replaced(s.drop_first(), pat, rep)
    }
}

/// `p` is a prefix of `s` (`str::starts_with`).
pub open spec fn has_prefix(s: Seq<char>, p: Seq<char>) -> bool {
    p.len() <= s.len() && s.take(p.len() as int) == p
}

/// `p` is a suffix of `s` (`str::ends_with`).
pub open spec fn has_suffix(s: Seq<char>, p: Seq<char>) -> bool {
    p.len() <= s.len() && s.skip(s.len() - p.len()) == p
}

/// One step of `replaced` at position `i`: either the pattern starts there and
/// is replaced, or the character at `i` is kept.
proof fn lemma_replaced_step(s: Seq<char>, pat: Seq<char>, rep: Seq<char>, i: int)
    requires
        pat.len() > 0,
        0 <= i < s.len(),
    ensures
        i + pat.len() <= s.len() && s.subrange(i, i + pat.len()) == pat ==> replaced(
            s.skip(i),
            pat,
            rep,
        ) == rep + replaced(s.skip(i + pat.len()), pat, rep),
        !(i + pat.len() <= s.len() && s.subrange(i, i + pat.len()) == pat) ==> replaced(
            s.skip(i),
            pat,
            rep,
        ) == seq![s[i]] + replaced(s.skip(i + 1), pat, rep),
{
    let t = s.skip(i);
    assert(t.drop_first() =~= s.skip(i + 1));
    if i + pat.len() <= s.len() {
        assert(t.take(pat.len() as int) =~= s.subrange(i, i + pat.len()));
        assert(t.skip(pat.len() as int) =~= s.skip(i + pat.len()));
    } else {
        assert(replaced(s.skip(i + 1), pat, rep) == s.skip(i + 1));
        assert(t =~= seq![s[i]] + s.skip(i + 1));
    }
}

/// Every character of `replaced(s, pat, rep)` comes from `s` or from `rep`.
pub proof fn lemma_replaced_chars(s: Seq<char>, pat: Seq<char>, rep: Seq<char>)
    ensures
        forall|c: char|
            #[trigger] replaced(s, pat, rep).contains(c) ==> s.contains(c) || rep.contains(c),
    decreases s.len(),
{
    if pat.len() == 0 || s.len() < pat.len() {
    } else if s.take(pat.len() as int) == pat {
        let rest = s.skip(pat.len() as int);
        lemma_replaced_chars(rest, pat, rep);
        assert forall|c: char| #[trigger] replaced(s, pat, rep).contains(c) implies s.contains(c)
            || rep.contains(c) by {
            let out = replaced(s, pat, rep);
            let k = choose|k: int| 0 <= k < out.len() && out[k] == c;
            if k >= rep.len() {
                assert(replaced(rest, pat, rep)[k - rep.len()] == c);
                assert(replaced(rest, pat, rep).contains(c));
                if rest.contains(c) {
                    let q = choose|q: int| 0 <= q < rest.len() && rest[q] == c;
                    assert(s[q + pat.len()] == c);
                }
            } else {
                assert(rep[k] == c);
            }
        }
    } else {
        let rest = s.drop_first();
        lemma_replaced_chars(rest, pat, rep);
        assert forall|c: char| #[trigger] replaced(s, pat, rep).contains(c) implies s.contains(c)
            || rep.contains(c) by {
            let out = replaced(s, pat, rep);
            let k = choose|k: int| 0 <= k < out.len() && out[k] == c;
            if k >= 1 {
                assert(replaced(rest, pat, rep)[k - 1] == c);
                assert(replaced(rest, pat, rep).contains(c));
                if rest.contains(c) {
                    let q = choose|q: int| 0 <= q < rest.len() && rest[q] == c;
                    assert(s[q + 1] == c);
                }
            } else {
                assert(s[0] == c);
            }
        }
    }
}

/// Replacing by something no longer than the pattern never lengthens a string.
pub proof fn lemma_replaced_len(s: Seq<char>, pat: Seq<char>, rep: Seq<char>)
    requires
        rep.len() <= pat.len(),
    ensures
        replaced(s, pat, rep).len() <= s.len(),
    decreases s.len(),
{
    if pat.len() == 0 || s.len() < pat.len() {
    } else if s.take(pat.len() as int) == pat {
        lemma_replaced_len(s.skip(pat.len() as int), pat, rep);
    } else {
        lemma_replaced_len(s.drop_first(), pat, rep);
    }
}

/// A first character that cannot begin the pattern, and a last character that
/// cannot end it, both survive the replacement.
pub proof fn lemma_replaced_ends(s: Seq<char>, pat: Seq<char>, rep: Seq<char>)
    requires
        pat.len() > 0,
        s.len() > 0,
        s[0] != pat[0],
        s.last() != pat.last(),
    ensures
        replaced(s, pat, rep).len() > 0,
        replaced(s, pat, rep)[0] == s[0],
        replaced(s, pat, rep).last() == s.last(),
    decreases s.len(),
{
    if s.len() < pat.len() {
    } else {
        assert(s.take(pat.len() as int)[0] == s[0]);
        let rest = s.drop_first();
        if rest.len() > 0 {
            if rest[0] != pat[0] {
                lemma_replaced_ends(rest, pat, rep);
            } else {
                lemma_replaced_last(rest, pat, rep);
            }
        } else {
            assert(replaced(rest, pat, rep) =~= rest);
        }
    }
}

/// A last character that cannot end the pattern survives the replacement.
pub proof fn lemma_replaced_last(s: Seq<char>, pat: Seq<char>, rep: Seq<char>)
    requires
        pat.len() > 0,
        s.len() > 0,
        s.last() != pat.last(),
    ensures
        replaced(s, pat, rep).len() > 0,
        replaced(s, pat, rep).last() == s.last(),
    decreases s.len(),
{
    if s.len() < pat.len() {
    } else if s.take(pat.len() as int) == pat {
        let rest = s.skip(pat.len() as int);
        if rest.len() == 0 {
            assert(s.take(pat.len() as int) =~= s);
            assert(false);
        } else {
            assert(rest.last() == s.last());
            lemma_replaced_last(rest, pat, rep);
        }
    } else {
        let rest = s.drop_first();
        if rest.len() == 0 {
            assert(replaced(rest, pat, rep) =~= rest);
        } else {
            lemma_replaced_last(rest, pat, rep);
        }
    }
}

/// Replacing a single character by text that does not hold it leaves no
/// occurrence of that character.
pub proof fn lemma_replaced_removes(s: Seq<char>, pat: Seq<char>, rep: Seq<char>)
    requires
        pat.len() == 1,
        !rep.contains(pat[0]),
    ensures
        !replaced(s, pat, rep).contains(pat[0]),
    decreases s.len(),
{
    if s.len() < 1 {
    } else if s.take(1) == pat {
        let rest = s.skip(1);
        lemma_replaced_removes(rest, pat, rep);
        let out = replaced(s, pat, rep);
        if out.contains(pat[0]) {
            let k = choose|k: int| 0 <= k < out.len() && out[k] == pat[0];
            if k < rep.len() {
                assert(rep[k] == pat[0]);
            } else {
                assert(replaced(rest, pat, rep)[k - rep.len()] == pat[0]);
            }
        }
    } else {
        let rest = s.drop_first();
        lemma_replaced_removes(rest, pat, rep);
        assert(s.take(1)[0] == s[0]);
        if s[0] == pat[0] {
            assert(s.take(1) =~= pat);
        }
        let out = replaced(s, pat, rep);
        if out.contains(pat[0]) {
            let k = choose|k: int| 0 <= k < out.len() && out[k] == pat[0];
            if k > 0 {
                assert(replaced(rest, pat, rep)[k - 1] == pat[0]);
            }
        }
    }
}

/// `pat` occurs in `s` starting at position `i`.
pub open spec fn occurs_at_spec(s: Seq<char>, pat: Seq<char>, i: int) -> bool {
    0 <= i && i + pat.len() <= s.len() && s.subrange(i, i + pat.len()) == pat
}

/// `pat` occurs somewhere in `s`.
pub open spec fn contains_run(s: Seq<char>, pat: Seq<char>) -> bool {
    exists|i: int| occurs_at_spec(s, pat, i)
}

/// Where the pattern does not start anywhere in `s[j..k]`, the replacement
/// copies `s[j..k]` unchanged.
pub proof fn lemma_replaced_copies(s: Seq<char>, pat: Seq<char>, rep: Seq<char>, j: int, k: int)
    requires
        pat.len() > 0,
        0 <= j <= k <= s.len(),
        forall|i: int| j <= i < k ==> !occurs_at_spec(s, pat, i),
    ensures
        replaced(s.skip(j), pat, rep) == s.subrange(j, k) + replaced(s.skip(k), pat, rep),
    decreases k - j,
{
    if j == k {
        assert(s.subrange(j, k) =~= Seq::<char>::empty());
        assert(Seq::<char>::empty() + replaced(s.skip(k), pat, rep) =~= replaced(s.skip(k), pat, rep));
    } else {
        lemma_replaced_step(s, pat, rep, j);
        assert(!occurs_at_spec(s, pat, j));
        lemma_replaced_copies(s, pat, rep, j + 1, k);
        assert(seq![s[j]] + (s.subrange(j + 1, k) + replaced(s.skip(k), pat, rep)) =~= s.subrange(
            j,
            k,
        ) + replaced(s.skip(k), pat, rep));
    }
}

/// Where the pattern occurs at `j`, the replacement puts `rep` there.
pub proof fn lemma_replaced_hit(s: Seq<char>, pat: Seq<char>, rep: Seq<char>, j: int)
    requires
        pat.len() > 0,
        occurs_at_spec(s, pat, j),
    ensures
        replaced(s.skip(j), pat, rep) == rep + replaced(s.skip(j + pat.len()), pat, rep),
{
    lemma_replaced_step(s, pat, rep, j);
}

/// `xs` appended to `out`.
pub fn append_chars(out: &mut Vec<char>, xs: &Vec<char>)
    ensures
        final(out)@ == old(out)@ + xs@,
{
    let n = xs.len();
    let mut k: usize = 0;
    while k < n
        invariant
            n == xs.len(),
            0 <= k <= n,
            out@ == old(out)@ + xs@.take(k as int),
        decreases n - k,
    {
        out.push(xs[k]);
        k = k + 1;
        assert(xs@.take(k as int) =~= xs@.take(k - 1) + seq![xs@[k - 1]]);
    }
    assert(xs@.take(n as int) =~= xs@);
}

/// Whether `pat` occurs in `s` starting at position `i`.
pub fn occurs_at(s: &Vec<char>, i: usize, pat: &Vec<char>) -> (b: bool)
    requires
        i <= s.len(),
    ensures
        b == (i + pat.len() <= s.len() && s@.subrange(i as int, i + pat.len()) == pat@),
{
    let m = pat.len();
    if m > s.len() - i {
        return false;
    }
    let mut k: usize = 0;
    while k < m
        invariant
            m == pat.len(),
            i + m <= s.len(),
            0 <= k <= m,
            forall|q: int| 0 <= q < k ==> s@[i + q] == pat@[q],
        decreases m - k,
    {
        if s[i + k] != pat[k] {
            assert(s@.subrange(i as int, i + m)[k as int] != pat@[k as int]);
            return false;
        }
        k = k + 1;
    }
    assert(s@.subrange(i as int, i + m) =~= pat@);
    true
}

/// `s` with every non-overlapping occurrence of `pat` replaced by `rep`.
pub fn replace_chars(s: &Vec<char>, pat: &Vec<char>, rep: &Vec<char>) -> (r: Vec<char>)
    requires
        pat.len() > 0,
    ensures
        r@ == replaced(s@, pat@, rep@),
{
    let n = s.len();
    let m = pat.len();
    let mut out: Vec<char> = Vec::new();
    let mut i: usize = 0;
    assert(s@.skip(0) =~= s@);
    while i < n
        invariant
            n == s.len(),
            m == pat.len(),
            m > 0,
            0 <= i <= n,
            out@ + replaced(s@.skip(i as int), pat@, rep@) == replaced(s@, pat@, rep@),
        decreases n - i,
    {
        proof {
            lemma_replaced_step(s@, pat@, rep@, i as int);
        }
        let ghost before = out@;
        if occurs_at(s, i, pat) {
            append_chars(&mut out, rep);
            i = i + m;
            assert(out@ + replaced(s@.skip(i as int), pat@, rep@) =~= before + (rep@ + replaced(
                s@.skip(i as int),
                pat@,
                rep@,
            )));
        } else {
            out.push(s[i]);
            i = i + 1;
            assert(out@ + replaced(s@.skip(i as int), pat@, rep@) =~= before + (seq![s@[i - 1]]
                + replaced(s@.skip(i as int), pat@, rep@)));
        }
    }
    assert(s@.skip(n as int) =~= Seq::<char>::empty());
    assert(out@ + Seq::<char>::empty() =~= out@);
    out
}

/// Whether `s` begins with `p`.
pub fn starts_with_chars(s: &Vec<char>, p: &Vec<char>) -> (b: bool)
    ensures
        b == has_prefix(s@, p@),
{
    let b = occurs_at(s, 0, p);
    proof {
        if p.len() <= s.len() {
            assert(s@.subrange(0, p.len() as int) =~= s@.take(p.len() as int));
        }
    }
    b
}

/// Whether `s` ends with `p`.
pub fn ends_with_chars(s: &Vec<char>, p: &Vec<char>) -> (b: bool)
    ensures
        b == has_suffix(s@, p@),
{
    if p.len() > s.len() {
        return false;
    }
    let start = s.len() - p.len();
    let b = occurs_at(s, start, p);
    proof {
        assert(s@.subrange(start as int, start + p.len()) =~= s@.skip(start as int));
    }
    b
}

} // verus!
