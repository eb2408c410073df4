//! Verified text utilities shared by the patch splitter and the path
//! stripper: whitespace trimming, splitting on a separator character,
//! joining with a separator, and splitting a payload into lines.

use vstd::prelude::*;
use vstd::string::*;

verus! {

/// The characters that count as whitespace when trimming line ends,
/// mirroring the Unicode `White_Space` set that `char::is_whitespace` uses.
pub open spec fn is_space_char(c: char) -> bool {
    c == ' ' || c == '\t' || c == '\n' || c == '\r' || c == '\u{b}' || c == '\u{c}'
        || c == '\u{85}' || c == '\u{a0}' || c == '\u{1680}' || c == '\u{2000}'
        || c == '\u{2001}' || c == '\u{2002}' || c == '\u{2003}' || c == '\u{2004}'
        || c == '\u{2005}' || c == '\u{2006}' || c == '\u{2007}' || c == '\u{2008}'
        || c == '\u{2009}' || c == '\u{200a}' || c == '\u{2028}' || c == '\u{2029}'
        || c == '\u{202f}' || c == '\u{205f}' || c == '\u{3000}'
}

fn is_space(c: char) -> (r: bool)
    ensures
        r == is_space_char(c),
{
    c == ' ' || c == '\t' || c == '\n' || c == '\r' || c == '\u{b}' || c == '\u{c}'
        || c == '\u{85}' || c == '\u{a0}' || c == '\u{1680}' || c == '\u{2000}'
        || c == '\u{2001}' || c == '\u{2002}' || c == '\u{2003}' || c == '\u{2004}'
        || c == '\u{2005}' || c == '\u{2006}' || c == '\u{2007}' || c == '\u{2008}'
        || c == '\u{2009}' || c == '\u{200a}' || c == '\u{2028}' || c == '\u{2029}'
        || c == '\u{202f}' || c == '\u{205f}' || c == '\u{3000}'
}

/// `s` with trailing whitespace removed.
pub open spec fn spec_trim_end(s: Seq<char>) -> Seq<char>
    decreases s.len(),
{
    if s.len() == 0 {
        s
    } else if is_space_char(s.last()) {
        spec_trim_end(s.drop_last())
    } else {
        s
    }
}

/// `s` with leading whitespace removed.
pub open spec fn spec_trim_start(s: Seq<char>) -> Seq<char>
    decreases s.len(),
{
    if s.len() == 0 {
        s
    } else if is_space_char(s.first()) {
        spec_trim_start(s.drop_first())
    } else {
        s
    }
}

/// `s` with whitespace removed from both ends.
pub open spec fn spec_trim(s: Seq<char>) -> Seq<char> {
    spec_trim_start(spec_trim_end(s))
}

proof fn lemma_trim_end_take(s: Seq<char>, k: int)
    requires
        0 <= k <= s.len(),
        forall|j: int| k <= j < s.len() ==> is_space_char(s[j]),
        k > 0 ==> !is_space_char(s[k - 1]),
    ensures
        spec_trim_end(s) == s.take(k),
    decreases s.len(),
{
    if s.len() == k {
        assert(s.take(k) =~= s);
    } else {
        assert(is_space_char(s.last()));
        lemma_trim_end_take(s.drop_last(), k);
        assert(s.drop_last().take(k) =~= s.take(k));
    }
}

proof fn lemma_trim_start_skip(s: Seq<char>, m: int)
    requires
        0 <= m <= s.len(),
        forall|j: int| 0 <= j < m ==> is_space_char(s[j]),
        m < s.len() ==> !is_space_char(s[m]),
    ensures
        spec_trim_start(s) == s.skip(m),
    decreases s.len(),
{
    if m == 0 {
        assert(s.skip(0) =~= s);
    } else {
        assert(is_space_char(s.first()));
        lemma_trim_start_skip(s.drop_first(), m - 1);
        assert(s.drop_first().skip(m - 1) =~= s.skip(m));
    }
}

/// Trailing-whitespace trim over a borrowed string slice.
pub fn trim_end_str<'a>(s: &'a str) -> (r: &'a str)
    ensures
        r@ == spec_trim_end(s@),
{
    let len = s.unicode_len();
    let mut k: usize = len;
    while k > 0 && is_space(s.get_char(k - 1))
        invariant
            k <= len,
            len == s@.len(),
            forall|j: int| k <= j < s@.len() ==> is_space_char(s@[j]),
        decreases k,
    {
        k = k - 1;
    }
    proof {
        lemma_trim_end_take(s@, k as int);
    }
    s.substring_char(0, k)
}

/// Leading-whitespace trim over a borrowed string slice.
pub fn trim_start_str<'a>(s: &'a str) -> (r: &'a str)
    ensures
        r@ == spec_trim_start(s@),
{
    let len = s.unicode_len();
    let mut m: usize = 0;
    while m < len && is_space(s.get_char(m))
        invariant
            m <= len,
            len == s@.len(),
            forall|j: int| 0 <= j < m ==> is_space_char(s@[j]),
        decreases len - m,
    {
        m = m + 1;
    }
    proof {
        lemma_trim_start_skip(s@, m as int);
    }
    s.substring_char(m, len)
}

/// Whitespace trim on both ends.
pub fn trim_str<'a>(s: &'a str) -> (r: &'a str)
    ensures
        r@ == spec_trim(s@),
{
    trim_start_str(trim_end_str(s))
}

/// Relies on `String::push`: appends one character at the end.
#[verifier::external_body]
pub(crate) fn push_char(s: &mut String, c: char)
    ensures
        final(s)@ == old(s)@.push(c),
{
    s.push(c);
}

/// The pieces of `s` between occurrences of `sep`; always at least one
/// piece, and empty input gives one empty piece, as `str::split` does.
pub open spec fn spec_split(s: Seq<char>, sep: char) -> Seq<Seq<char>>
    decreases s.len(),
{
    if s.len() == 0 {
        seq![Seq::empty()]
    } else {
        let rest = spec_split(s.drop_last(), sep);
        if s.last() == sep {
            rest.push(Seq::empty())
        } else {
            rest.update(rest.len() - 1, rest.last().push(s.last()))
        }
    }
}

pub proof fn lemma_split_nonempty(s: Seq<char>, sep: char)
    ensures
        spec_split(s, sep).len() >= 1,
    decreases s.len(),
{
    if s.len() > 0 {
        lemma_split_nonempty(s.drop_last(), sep);
    }
}

/// The view of a vector of strings, as a sequence of character sequences.
pub open spec fn views_of(parts: Seq<String>) -> Seq<Seq<char>> {
    parts.map_values(|p: String| p@)
}

/// Splits `s` on `sep`, as `str::split` does for a single-character pattern.
pub fn split_str(s: &str, sep: char) -> (parts: Vec<String>)
    ensures
        views_of(parts@) == spec_split(s@, sep),
{
    let len = s.unicode_len();
    let mut parts: Vec<String> = Vec::new();
    parts.push(String::new());
    proof {
        assert(views_of(parts@) =~= spec_split(s@.take(0), sep));
    }
    let mut i: usize = 0;
    while i < len
        invariant
            i <= len,
            len == s@.len(),
            parts@.len() >= 1,
            views_of(parts@) == spec_split(s@.take(i as int), sep),
        decreases len - i,
    {
        let c = s.get_char(i);
        proof {
            assert(s@.take(i + 1).drop_last() =~= s@.take(i as int));
            assert(s@.take(i + 1).last() == s@[i as int]);
        }
        if c == sep {
            parts.push(String::new());
            proof {
                assert(views_of(parts@) =~= spec_split(s@.take(i + 1), sep));
            }
        } else {
            let mut last = parts.pop().unwrap();
            push_char(&mut last, c);
            parts.push(last);
            proof {
                assert(views_of(parts@) =~= spec_split(s@.take(i + 1), sep));
            }
        }
        i = i + 1;
    }
    proof {
        assert(s@.take(len as int) =~= s@);
    }
    parts
}

/// The pieces of `parts` glued together with `sep` between each pair.
pub open spec fn spec_join(parts: Seq<Seq<char>>, sep: char) -> Seq<char>
    decreases parts.len(),
{
    if parts.len() == 0 {
        Seq::empty()
    } else if parts.len() == 1 {
        parts[0]
    } else {
        spec_join(parts.drop_last(), sep) + seq![sep] + parts.last()
    }
}

/// Joins `parts[start..]` with `sep`.
pub fn join_from(parts: &Vec<String>, start: usize, sep: char) -> (r: String)
    requires
        start <= parts@.len(),
    ensures
        r@ == spec_join(views_of(parts@).skip(start as int), sep),
{
    let mut out = String::new();
    let mut i: usize = start;
    while i < parts.len()
        invariant
            start <= i <= parts@.len(),
            out@ == spec_join(views_of(parts@).subrange(start as int, i as int), sep),
        decreases parts@.len() - i,
    {
        if i > start {
            push_char(&mut out, sep);
        }
        out.append(parts[i].as_str());
        proof {
            let v = views_of(parts@);
            if i == start {
                assert(v.subrange(start as int, i + 1) =~= seq![v[i as int]]);
            } else {
                assert(v.subrange(start as int, i + 1).drop_last()
                    =~= v.subrange(start as int, i as int));
                assert(v.subrange(start as int, i + 1).last() == v[i as int]);
            }
        }
        i = i + 1;
    }
    proof {
        assert(views_of(parts@).subrange(start as int, parts@.len() as int)
            =~= views_of(parts@).skip(start as int));
    }
    out
}

/// The lines of `s`, split on newline, with a final empty piece after a
/// trailing newline dropped, as `str::lines` does (carriage returns are
/// left in place; callers trim line ends themselves).
pub open spec fn spec_lines(s: Seq<char>) -> Seq<Seq<char>> {
    if s.len() == 0 {
        Seq::empty()
    } else if s.last() == '\n' {
        spec_split(s.drop_last(), '\n')
    } else {
        spec_split(s, '\n')
    }
}

/// Splits `s` into lines.
pub fn lines_str(s: &str) -> (r: Vec<String>)
    ensures
        views_of(r@) == spec_lines(s@),
{
    let len = s.unicode_len();
    if len == 0 {
        let r: Vec<String> = Vec::new();
        proof {
            assert(views_of(r@) =~= spec_lines(s@));
        }
        r
    } else if s.get_char(len - 1) == '\n' {
        let head = s.substring_char(0, len - 1);
        proof {
            assert(s@.subrange(0, len - 1) =~= s@.drop_last());
        }
        split_str(head, '\n')
    } else {
        split_str(s, '\n')
    }
}

} // verus!
