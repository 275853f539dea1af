//! Character-level utilities shared by prompting and the textual format:
//! whitespace trimming, splitting a text into lines, and string equality.

use vstd::prelude::*;
use vstd::string::StrSliceExecFns;
use crate::config::ws_char;

verus! {

/// Drop leading whitespace.
pub open spec fn trim_front(s: Seq<char>) -> Seq<char>
    decreases s.len(),
{
    if s.len() > 0 && ws_char(s[0]) {
        trim_front(s.drop_first())
    } else {
        s
    }
}

/// Drop trailing whitespace.
pub open spec fn trim_back(s: Seq<char>) -> Seq<char>
    decreases s.len(),
{
    if s.len() > 0 && ws_char(s[s.len() - 1]) {
        trim_back(s.drop_last())
    } else {
        s
    }
}

/// Drop whitespace from both ends, as prompting and the parser do.
pub open spec fn spec_trim(s: Seq<char>) -> Seq<char> {
    trim_back(trim_front(s))
}

/// Trimming a single trailing space off `k + " "` gives back a clean `k`.
pub proof fn lemma_trim_key_pad(k: Seq<char>)
    requires
        k.len() > 0,
        !ws_char(k[0]),
        !ws_char(k[k.len() - 1]),
    ensures
        spec_trim(k + seq![' ']) == k,
{
    let p = k + seq![' '];
    assert(trim_front(p) == p);
    assert(p.drop_last() =~= k);
    assert(trim_back(p) == trim_back(k));
    assert(trim_back(k) == k);
}

/// Trimming a single leading space off `" " + v` gives back a clean `v`.
pub proof fn lemma_trim_value_pad(v: Seq<char>)
    requires
        v.len() > 0 ==> !ws_char(v[0]) && !ws_char(v[v.len() - 1]),
    ensures
        spec_trim(seq![' '] + v) == v,
{
    let p = seq![' '] + v;
    assert(p.drop_first() =~= v);
    assert(trim_front(p) == trim_front(v));
    assert(trim_front(v) == v);
    assert(trim_back(v) == v);
}

/// Strip whitespace from both ends of `s`, as the interactive prompt does to
/// each answer and as the parser does around `=`.
pub fn trimmed(s: &str) -> (r: String)
    ensures
        r@ == spec_trim(s@),
{
    let n = s.unicode_len();
    proof {
        assert(s@.skip(0) =~= s@);
    }
    let mut a: usize = 0;
    while a < n && is_ws(s.get_char(a))
        invariant
            0 <= a <= n,
            n == s@.len(),
            trim_front(s@) == trim_front(s@.skip(a as int)),
        decreases n - a,
    {
        proof {
            assert(s@.skip(a as int).drop_first() =~= s@.skip(a + 1));
        }
        a = a + 1;
    }
    proof {
        assert(trim_front(s@.skip(a as int)) == s@.skip(a as int));
    }
    let mut b: usize = n;
    while b > a && is_ws(s.get_char(b - 1))
        invariant
            a <= b <= n,
            n == s@.len(),
            trim_front(s@) == s@.skip(a as int),
            trim_back(s@.skip(a as int)) == trim_back(s@.subrange(a as int, b as int)),
        decreases b,
    {
        proof {
            assert(s@.subrange(a as int, b as int).drop_last() =~= s@.subrange(a as int, b - 1));
        }
        b = b - 1;
    }
    proof {
        assert(trim_back(s@.subrange(a as int, b as int)) == s@.subrange(a as int, b as int));
    }
    let piece = s.substring_char(a, b);
    String::from_str(piece)
}

/// Whether `c` counts as whitespace, matching [`ws_char`].
pub fn is_ws(c: char) -> (r: bool)
    ensures
        r == ws_char(c),
{
    c == ' ' || ('\u{0009}' <= c && c <= '\u{000D}') || c == '\u{0085}' || c == '\u{00A0}' || c
        == '\u{1680}' || ('\u{2000}' <= c && c <= '\u{200A}') || c == '\u{2028}' || c == '\u{2029}'
        || c == '\u{202F}' || c == '\u{205F}' || c == '\u{3000}'
}

/// Character-for-character string equality.
pub fn str_eq(a: &str, b: &str) -> (r: bool)
    ensures
        r == (a@ == b@),
{
    let na = a.unicode_len();
    let nb = b.unicode_len();
    if na != nb {
        return false;
    }
    let mut i: usize = 0;
    while i < na
        invariant
            0 <= i <= na,
            na == a@.len(),
            na == b@.len(),
            forall|j: int| 0 <= j < i ==> a@[j] == b@[j],
        decreases na - i,
    {
        if a.get_char(i) != b.get_char(i) {
            return false;
        }
        i = i + 1;
    }
    proof {
        assert(a@ =~= b@);
    }
    true
}

/// The lines of `s`, split at every `'\n'`. A terminator-free tail — in
/// particular the empty text — still yields one (possibly empty) line, so the
/// result is never empty.
pub open spec fn split_lines(s: Seq<char>) -> Seq<Seq<char>>
    decreases s.len(),
{
    if s.len() == 0 {
        seq![Seq::<char>::empty()]
    } else if s[0] == '\n' {
        seq![Seq::<char>::empty()] + split_lines(s.drop_first())
    } else {
        let rest = split_lines(s.drop_first());
        seq![seq![s[0]] + rest[0]] + rest.drop_first()
    }
}

/// A text without `'\n'` is a single line.
pub proof fn lemma_split_lines_whole(s: Seq<char>)
    requires
        forall|i: int| 0 <= i < s.len() ==> s[i] != '\n',
    ensures
        split_lines(s) =~~= seq![s],
    decreases s.len(),
{
    if s.len() > 0 {
        lemma_split_lines_whole(s.drop_first());
        let rest = split_lines(s.drop_first());
        assert(rest[0] == s.drop_first());
        assert(seq![s[0]] + s.drop_first() =~= s);
        assert(rest.drop_first() =~~= Seq::<Seq<char>>::empty());
        assert(split_lines(s) =~~= seq![s]);
    }
}

/// Peeling one terminated line off the front of a text splits the rest alone.
pub proof fn lemma_split_lines_step(line: Seq<char>, rest: Seq<char>)
    requires
        forall|i: int| 0 <= i < line.len() ==> line[i] != '\n',
    ensures
        split_lines(line + seq!['\n'] + rest) =~~= seq![line] + split_lines(rest),
    decreases line.len(),
{
    let s = line + seq!['\n'] + rest;
    if line.len() == 0 {
        assert(s =~= seq!['\n'] + rest);
        assert(s[0] == '\n');
        assert(s.drop_first() =~= rest);
        assert(split_lines(s) =~~= seq![line] + split_lines(rest));
    } else {
        assert(s[0] == line[0]);
        assert(s.drop_first() =~= line.drop_first() + seq!['\n'] + rest);
        lemma_split_lines_step(line.drop_first(), rest);
        let r = split_lines(s.drop_first());
        assert(r =~~= seq![line.drop_first()] + split_lines(rest));
        assert(r[0] == line.drop_first());
        assert(seq![s[0]] + r[0] =~= line);
        assert(r.drop_first() =~~= split_lines(rest));
        assert(split_lines(s) =~~= seq![line] + split_lines(rest));
    }
}

} // verus!
