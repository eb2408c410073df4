//! Admission of hunk text to the fuzzy patch engine.
//!
//! The engine is handed only text it is known to handle gracefully; a
//! record whose body falls outside that set is rejected with a detail
//! entry instead of being submitted. Admission demands, line by line:
//! a line opening with `@` must be a canonical hunk header
//! `@@ -A[,B] +C[,D] @@` whose offsets the engine can renumber (a zero
//! start is allowed only alongside an explicit zero count); every other
//! non-empty line must carry an ASCII tail whose percent-escapes decode
//! to well-formed text, since the engine percent-decodes every body line
//! before looking at it. Headers and bodies the engine merely refuses
//! are admitted — its refusal is a reported outcome, not a fault.

use vstd::prelude::*;
use vstd::string::*;
use crate::text::{spec_split, split_str, views_of};

verus! {

/// An ASCII decimal digit.
pub open spec fn is_digit(c: char) -> bool {
    '0' <= c && c <= '9'
}

/// An ASCII hexadecimal digit, either case.
pub open spec fn is_hex_digit(c: char) -> bool {
    ('0' <= c && c <= '9') || ('a' <= c && c <= 'f') || ('A' <= c && c <= 'F')
}

/// The value of one hexadecimal digit.
pub open spec fn hex_val(c: char) -> u8 {
    if '0' <= c && c <= '9' {
        ((c as u32) - 48) as u8
    } else if 'a' <= c && c <= 'f' {
        ((c as u32) - 87) as u8
    } else {
        ((c as u32) - 55) as u8
    }
}

/// A non-empty run of decimal digits.
pub open spec fn is_digits(s: Seq<char>) -> bool {
    s.len() >= 1 && forall|i: int| 0 <= i < s.len() ==> is_digit(#[trigger] s[i])
}

/// A digit run spelling the value zero.
pub open spec fn all_zero(s: Seq<char>) -> bool {
    forall|i: int| 0 <= i < s.len() ==> #[trigger] s[i] == '0'
}

/// Every character is ASCII.
pub open spec fn all_ascii(s: Seq<char>) -> bool {
    forall|i: int| 0 <= i < s.len() ==> (#[trigger] s[i] as u32) < 128
}

/// The bytes percent-decoding an ASCII text yields, by the engine's
/// decoder's rule: `%` followed by two hexadecimal digits becomes one
/// byte and is consumed whole; any other character stands for its own
/// byte.
pub open spec fn spec_percent_decode(s: Seq<char>) -> Seq<u8>
    decreases s.len(),
{
    if s.len() == 0 {
        Seq::empty()
    } else if s[0] == '%' && s.len() >= 3 && is_hex_digit(s[1]) && is_hex_digit(s[2]) {
        seq![(hex_val(s[1]) * 16 + hex_val(s[2])) as u8] + spec_percent_decode(s.skip(3))
    } else {
        seq![((s[0] as u32) as u8)] + spec_percent_decode(s.skip(1))
    }
}

/// A UTF-8 continuation byte.
pub open spec fn is_cont(b: u8) -> bool {
    0x80 <= b && b <= 0xbf
}

/// Well-formed UTF-8, by the standard table: one-byte runs below 0x80,
/// and two- to four-byte runs whose leading byte fixes the width and the
/// admissible range of the first continuation byte.
pub open spec fn valid_utf8_bytes(bs: Seq<u8>) -> bool
    decreases bs.len(),
{
    if bs.len() == 0 {
        true
    } else {
        let b0 = bs[0];
        if b0 < 0x80 {
            valid_utf8_bytes(bs.skip(1))
        } else if 0xc2 <= b0 && b0 <= 0xdf {
            bs.len() >= 2 && is_cont(bs[1]) && valid_utf8_bytes(bs.skip(2))
        } else if b0 == 0xe0 {
            bs.len() >= 3 && 0xa0 <= bs[1] && bs[1] <= 0xbf && is_cont(bs[2])
                && valid_utf8_bytes(bs.skip(3))
        } else if (0xe1 <= b0 && b0 <= 0xec) || b0 == 0xee || b0 == 0xef {
            bs.len() >= 3 && is_cont(bs[1]) && is_cont(bs[2]) && valid_utf8_bytes(bs.skip(3))
        } else if b0 == 0xed {
            bs.len() >= 3 && 0x80 <= bs[1] && bs[1] <= 0x9f && is_cont(bs[2])
                && valid_utf8_bytes(bs.skip(3))
        } else if b0 == 0xf0 {
            bs.len() >= 4 && 0x90 <= bs[1] && bs[1] <= 0xbf && is_cont(bs[2]) && is_cont(bs[3])
                && valid_utf8_bytes(bs.skip(4))
        } else if 0xf1 <= b0 && b0 <= 0xf3 {
            bs.len() >= 4 && is_cont(bs[1]) && is_cont(bs[2]) && is_cont(bs[3])
                && valid_utf8_bytes(bs.skip(4))
        } else if b0 == 0xf4 {
            bs.len() >= 4 && 0x80 <= bs[1] && bs[1] <= 0x8f && is_cont(bs[2]) && is_cont(bs[3])
                && valid_utf8_bytes(bs.skip(4))
        } else {
            false
        }
    }
}

/// One side's coordinates, `A` or `A,B`: the engine renumbers a header
/// offset downward unless the count is an explicit zero, so a zero start
/// is admissible only with a `,0` count.
pub open spec fn coord_safe(s: Seq<char>) -> bool {
    let parts = spec_split(s, ',');
    if parts.len() == 1 {
        is_digits(parts[0]) && !all_zero(parts[0])
    } else if parts.len() == 2 {
        is_digits(parts[0]) && is_digits(parts[1]) && (all_zero(parts[1]) || !all_zero(parts[0]))
    } else {
        false
    }
}

/// A two-character `@@` marker.
pub open spec fn is_at_at(s: Seq<char>) -> bool {
    s.len() == 2 && s[0] == '@' && s[1] == '@'
}

/// A canonical hunk header: exactly `@@ -A[,B] +C[,D] @@`, with both
/// sides' coordinates admissible.
pub open spec fn header_safe(line: Seq<char>) -> bool {
    let sects = spec_split(line, ' ');
    sects.len() == 4 && is_at_at(sects[0]) && is_at_at(sects[3]) && sects[1].len() >= 1
        && sects[1][0] == '-' && coord_safe(sects[1].skip(1)) && sects[2].len() >= 1
        && sects[2][0] == '+' && coord_safe(sects[2].skip(1))
}

/// One admissible line: empty lines are skipped by the engine, a line
/// opening with `@` must be a canonical safe header, and the tail of any
/// other line must be ASCII and percent-decode to well-formed text.
pub open spec fn line_safe(l: Seq<char>) -> bool {
    if l.len() == 0 {
        true
    } else if l[0] == '@' {
        header_safe(l)
    } else {
        all_ascii(l.skip(1)) && valid_utf8_bytes(spec_percent_decode(l.skip(1)))
    }
}

/// Hunk text the engine handles gracefully: every newline-separated line
/// is admissible.
pub open spec fn spec_hunk_safe(text: Seq<char>) -> bool {
    forall|i: int|
        0 <= i < spec_split(text, '\n').len() ==> line_safe(#[trigger] spec_split(text, '\n')[i])
}

fn is_digit_exec(c: char) -> (r: bool)
    ensures
        r == is_digit(c),
{
    '0' <= c && c <= '9'
}

fn is_hex_digit_exec(c: char) -> (r: bool)
    ensures
        r == is_hex_digit(c),
{
    ('0' <= c && c <= '9') || ('a' <= c && c <= 'f') || ('A' <= c && c <= 'F')
}

fn is_digits_str(s: &str) -> (r: bool)
    ensures
        r == is_digits(s@),
{
    let len = s.unicode_len();
    if len == 0 {
        return false;
    }
    let mut i: usize = 0;
    while i < len
        invariant
            i <= len,
            len == s@.len(),
            forall|j: int| 0 <= j < i ==> is_digit(#[trigger] s@[j]),
        decreases len - i,
    {
        if !is_digit_exec(s.get_char(i)) {
            return false;
        }
        i = i + 1;
    }
    true
}

fn all_zero_str(s: &str) -> (r: bool)
    ensures
        r == all_zero(s@),
{
    let len = s.unicode_len();
    let mut i: usize = 0;
    while i < len
        invariant
            i <= len,
            len == s@.len(),
            forall|j: int| 0 <= j < i ==> #[trigger] s@[j] == '0',
        decreases len - i,
    {
        if s.get_char(i) != '0' {
            return false;
        }
        i = i + 1;
    }
    true
}

fn all_ascii_tail(s: &str, from: usize) -> (r: bool)
    requires
        from <= s@.len(),
    ensures
        r == all_ascii(s@.skip(from as int)),
{
    let len = s.unicode_len();
    let mut i: usize = from;
    while i < len
        invariant
            from <= i <= len,
            len == s@.len(),
            forall|j: int| from <= j < i ==> (#[trigger] s@[j] as u32) < 128,
        decreases len - i,
    {
        if (s.get_char(i) as u32) >= 128 {
            proof {
                assert(s@.skip(from as int)[i - from] == s@[i as int]);
            }
            return false;
        }
        i = i + 1;
    }
    proof {
        assert forall|k: int| 0 <= k < s@.skip(from as int).len() implies (#[trigger] s@.skip(
            from as int,
        )[k] as u32) < 128 by {
            assert(s@.skip(from as int)[k] == s@[k + from]);
        }
    }
    true
}

fn hex_val_exec(c: char) -> (r: u8)
    requires
        is_hex_digit(c),
    ensures
        r == hex_val(c),
{
    if '0' <= c && c <= '9' {
        ((c as u32) - 48) as u8
    } else if 'a' <= c && c <= 'f' {
        ((c as u32) - 87) as u8
    } else {
        ((c as u32) - 55) as u8
    }
}

/// Percent-decodes the tail of `s` from `from` on, by the same rule the
/// engine's decoder uses.
fn percent_decode_tail(s: &str, from: usize) -> (out: Vec<u8>)
    requires
        from <= s@.len(),
        all_ascii(s@.skip(from as int)),
    ensures
        out@ == spec_percent_decode(s@.skip(from as int)),
{
    let len = s.unicode_len();
    let mut out: Vec<u8> = Vec::new();
    let mut i: usize = from;
    proof {
        assert(out@ + spec_percent_decode(s@.skip(from as int)) =~= spec_percent_decode(
            s@.skip(from as int),
        ));
    }
    while i < len
        invariant
            from <= i <= len,
            len == s@.len(),
            all_ascii(s@.skip(from as int)),
            spec_percent_decode(s@.skip(from as int)) =~= out@ + spec_percent_decode(
                s@.skip(i as int),
            ),
        decreases len - i,
    {
        let ghost tail = s@.skip(i as int);
        proof {
            assert(tail[0] == s@[i as int]);
            assert(forall|k: int| 0 <= k < tail.len() ==> #[trigger] tail[k] == s@[k + i]);
            assert((s@[i as int] as u32) < 128) by {
                assert(s@.skip(from as int)[i - from] == s@[i as int]);
            }
        }
        let c = s.get_char(i);
        if c == '%' && len - i > 2 && is_hex_digit_exec(s.get_char(i + 1)) && is_hex_digit_exec(
            s.get_char(i + 2),
        ) {
            proof {
                assert(tail.len() >= 3 && tail[1] == s@[i + 1] && tail[2] == s@[i + 2]);
                assert(tail.skip(3) =~= s@.skip(i + 3));
                assert(hex_val(s@[i + 1]) <= 15 && hex_val(s@[i + 2]) <= 15);
            }
            let b = hex_val_exec(s.get_char(i + 1)) * 16 + hex_val_exec(s.get_char(i + 2));
            out.push(b);
            i = i + 3;
        } else {
            proof {
                assert(tail.skip(1) =~= s@.skip(i + 1));
                if c == '%' && tail.len() >= 3 {
                    assert(tail[1] == s@[i + 1] && tail[2] == s@[i + 2]);
                }
            }
            out.push(c as u8);
            i = i + 1;
        }
    }
    proof {
        assert(s@.skip(len as int) =~= Seq::<char>::empty());
    }
    out
}

fn valid_utf8_exec(v: &Vec<u8>) -> (r: bool)
    ensures
        r == valid_utf8_bytes(v@),
{
    let len = v.len();
    let mut i: usize = 0;
    proof {
        assert(v@.skip(0) =~= v@);
    }
    while i < len
        invariant
            i <= len,
            len == v@.len(),
            valid_utf8_bytes(v@) == valid_utf8_bytes(v@.skip(i as int)),
        decreases len - i,
    {
        let ghost tail = v@.skip(i as int);
        proof {
            assert(forall|k: int| 0 <= k < tail.len() ==> #[trigger] tail[k] == v@[k + i]);
        }
        let b0 = v[i];
        let width: usize = if b0 < 0x80 {
            1
        } else if 0xc2 <= b0 && b0 <= 0xdf {
            if !(len - i > 1 && 0x80 <= v[i + 1] && v[i + 1] <= 0xbf) {
                return false;
            }
            2
        } else if b0 == 0xe0 {
            if !(len - i > 2 && 0xa0 <= v[i + 1] && v[i + 1] <= 0xbf && 0x80 <= v[i + 2] && v[i
                + 2] <= 0xbf) {
                return false;
            }
            3
        } else if (0xe1 <= b0 && b0 <= 0xec) || b0 == 0xee || b0 == 0xef {
            if !(len - i > 2 && 0x80 <= v[i + 1] && v[i + 1] <= 0xbf && 0x80 <= v[i + 2] && v[i
                + 2] <= 0xbf) {
                return false;
            }
            3
        } else if b0 == 0xed {
            if !(len - i > 2 && 0x80 <= v[i + 1] && v[i + 1] <= 0x9f && 0x80 <= v[i + 2] && v[i
                + 2] <= 0xbf) {
                return false;
            }
            3
        } else if b0 == 0xf0 {
            if !(len - i > 3 && 0x90 <= v[i + 1] && v[i + 1] <= 0xbf && 0x80 <= v[i + 2] && v[i
                + 2] <= 0xbf && 0x80 <= v[i + 3] && v[i + 3] <= 0xbf) {
                return false;
            }
            4
        } else if 0xf1 <= b0 && b0 <= 0xf3 {
            if !(len - i > 3 && 0x80 <= v[i + 1] && v[i + 1] <= 0xbf && 0x80 <= v[i + 2] && v[i
                + 2] <= 0xbf && 0x80 <= v[i + 3] && v[i + 3] <= 0xbf) {
                return false;
            }
            4
        } else if b0 == 0xf4 {
            if !(len - i > 3 && 0x80 <= v[i + 1] && v[i + 1] <= 0x8f && 0x80 <= v[i + 2] && v[i
                + 2] <= 0xbf && 0x80 <= v[i + 3] && v[i + 3] <= 0xbf) {
                return false;
            }
            4
        } else {
            return false;
        };
        proof {
            assert(v@.skip(i as int).skip(width as int) =~= v@.skip(i + width));
        }
        i = i + width;
    }
    proof {
        assert(v@.skip(len as int) =~= Seq::<u8>::empty());
    }
    true
}

fn coord_safe_str(s: &str) -> (r: bool)
    ensures
        r == coord_safe(s@),
{
    let parts = split_str(s, ',');
    proof {
        assert(views_of(parts@).len() == parts@.len());
    }
    if parts.len() == 1 {
        proof {
            assert(views_of(parts@)[0] == parts@[0]@);
        }
        is_digits_str(parts[0].as_str()) && !all_zero_str(parts[0].as_str())
    } else if parts.len() == 2 {
        proof {
            assert(views_of(parts@)[0] == parts@[0]@);
            assert(views_of(parts@)[1] == parts@[1]@);
        }
        is_digits_str(parts[0].as_str()) && is_digits_str(parts[1].as_str()) && (all_zero_str(
            parts[1].as_str(),
        ) || !all_zero_str(parts[0].as_str()))
    } else {
        false
    }
}

fn is_at_at_str(s: &str) -> (r: bool)
    ensures
        r == is_at_at(s@),
{
    s.unicode_len() == 2 && s.get_char(0) == '@' && s.get_char(1) == '@'
}

fn signed_coord_safe(s: &str, sign: char) -> (r: bool)
    ensures
        r == (s@.len() >= 1 && s@[0] == sign && coord_safe(s@.skip(1))),
{
    let len = s.unicode_len();
    if len == 0 || s.get_char(0) != sign {
        return false;
    }
    let tail = s.substring_char(1, len);
    proof {
        assert(tail@ =~= s@.skip(1));
    }
    coord_safe_str(tail)
}

fn header_safe_str(line: &str) -> (r: bool)
    ensures
        r == header_safe(line@),
{
    let sects = split_str(line, ' ');
    let ghost sv = views_of(sects@);
    if sects.len() != 4 {
        return false;
    }
    proof {
        assert(sv[0] == sects@[0]@ && sv[1] == sects@[1]@ && sv[2] == sects@[2]@ && sv[3]
            == sects@[3]@);
    }
    is_at_at_str(sects[0].as_str()) && is_at_at_str(sects[3].as_str()) && signed_coord_safe(
        sects[1].as_str(),
        '-',
    ) && signed_coord_safe(sects[2].as_str(), '+')
}

fn line_safe_str(line: &str) -> (r: bool)
    ensures
        r == line_safe(line@),
{
    let len = line.unicode_len();
    if len == 0 {
        return true;
    }
    if line.get_char(0) == '@' {
        return header_safe_str(line);
    }
    if !all_ascii_tail(line, 1) {
        return false;
    }
    let decoded = percent_decode_tail(line, 1);
    valid_utf8_exec(&decoded)
}

/// Decides admission of one record's hunk text to the engine.
pub fn hunk_text_safe(text: &str) -> (r: bool)
    ensures
        r == spec_hunk_safe(text@),
{
    let lines = split_str(text, '\n');
    let ghost lv = views_of(lines@);
    let mut i: usize = 0;
    while i < lines.len()
        invariant
            i <= lines@.len(),
            lv == views_of(lines@),
            lv == spec_split(text@, '\n'),
            forall|j: int| 0 <= j < i ==> line_safe(#[trigger] lv[j]),
        decreases lines@.len() - i,
    {
        proof {
            assert(lv[i as int] == lines@[i as int]@);
        }
        if !line_safe_str(lines[i].as_str()) {
            return false;
        }
        i = i + 1;
    }
    true
}

} // verus!
