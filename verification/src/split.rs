//! Splitting a combined multi-file patch payload into per-file change
//! records.
//!
//! The accepted grammar: the payload is scanned line by line, each line
//! first stripped of trailing whitespace. A line starting with `--- ` opens
//! a new section (flushing the previous one); a line starting with `+++ `
//! completes the section's path pair. Once the pair is complete, every
//! later line of the section — whatever its shape, short of a new `--- `
//! header — accumulates into the body, so an insertion line such as
//! `+++ x` is body text, not a header. Lines before a complete pair, and
//! a `+++ ` line with no `--- ` line before it, are dropped and scanning
//! continues. A section is emitted only if its accumulated body is
//! non-empty; header paths are kept verbatim (stripping is a later step).

use vstd::prelude::*;
use vstd::string::*;
use crate::text::{
    spec_trim, spec_trim_end, spec_lines, lines_str, trim_end_str, trim_str, push_char,
};

verus! {

/// One per-file change unit: the two header paths and the hunk body.
#[derive(Debug, Clone, PartialEq, Eq)]
pub struct FilePatchRecord {
    pub old_path: String,
    pub new_path: String,
    pub hunk_text: String,
}

/// The mathematical value of a change record.
#[verifier::ext_equal]
pub ghost struct RecordV {
    pub old_path: Seq<char>,
    pub new_path: Seq<char>,
    pub hunk_text: Seq<char>,
}

impl View for FilePatchRecord {
    type V = RecordV;

    open spec fn view(&self) -> RecordV {
        RecordV {
            old_path: self.old_path@,
            new_path: self.new_path@,
            hunk_text: self.hunk_text@,
        }
    }
}

/// The scanner state: the open section's paths and body, and the records
/// already emitted.
#[verifier::ext_equal]
pub ghost struct SplitState {
    pub cur_old: Option<Seq<char>>,
    pub cur_new: Option<Seq<char>>,
    pub body: Seq<char>,
    pub body_started: bool,
    pub out: Seq<RecordV>,
}

pub open spec fn init_split_state() -> SplitState {
    SplitState {
        cur_old: None,
        cur_new: None,
        body: Seq::empty(),
        body_started: false,
        out: Seq::empty(),
    }
}

/// A removal-marker header line: `--- ` followed by the old path.
pub open spec fn is_old_header(l: Seq<char>) -> bool {
    l.len() >= 4 && l[0] == '-' && l[1] == '-' && l[2] == '-' && l[3] == ' '
}

/// An addition-marker header line: `+++ ` followed by the new path.
pub open spec fn is_new_header(l: Seq<char>) -> bool {
    l.len() >= 4 && l[0] == '+' && l[1] == '+' && l[2] == '+' && l[3] == ' '
}

/// The path carried by a header line: what follows the marker, trimmed.
pub open spec fn header_path(l: Seq<char>) -> Seq<char> {
    spec_trim(l.skip(4))
}

/// Emits the open section as a record, unless its path pair is incomplete
/// or its body is empty.
pub open spec fn split_flush(st: SplitState) -> Seq<RecordV> {
    if st.cur_old is Some && st.cur_new is Some && st.body.len() > 0 {
        st.out.push(RecordV {
            old_path: st.cur_old->0,
            new_path: st.cur_new->0,
            hunk_text: st.body,
        })
    } else {
        st.out
    }
}

/// One scanner step on a raw payload line.
pub open spec fn split_step(st: SplitState, raw_line: Seq<char>) -> SplitState {
    let l = spec_trim_end(raw_line);
    if is_old_header(l) {
        SplitState {
            cur_old: Some(header_path(l)),
            cur_new: None,
            body: Seq::empty(),
            body_started: false,
            out: split_flush(st),
        }
    } else if is_new_header(l) && st.cur_old is Some && st.cur_new is None {
        SplitState { cur_new: Some(header_path(l)), ..st }
    } else if st.cur_old is Some && st.cur_new is Some {
        SplitState {
            body: if st.body_started {
                st.body + seq!['\n'] + l
            } else {
                l
            },
            body_started: true,
            ..st
        }
    } else {
        st
    }
}

pub open spec fn split_fold(lines: Seq<Seq<char>>, st: SplitState) -> SplitState
    decreases lines.len(),
{
    if lines.len() == 0 {
        st
    } else {
        split_fold(lines.drop_first(), split_step(st, lines.first()))
    }
}

/// The records that splitting `payload` yields.
pub open spec fn spec_split_records(payload: Seq<char>) -> Seq<RecordV> {
    split_flush(split_fold(spec_lines(payload), init_split_state()))
}

spec fn opt_view(o: Option<String>) -> Option<Seq<char>> {
    match o {
        Some(s) => Some(s@),
        None => None,
    }
}

spec fn st_of(
    cur_old: Option<String>,
    cur_new: Option<String>,
    body: Seq<char>,
    body_started: bool,
    out: Seq<FilePatchRecord>,
) -> SplitState {
    SplitState {
        cur_old: opt_view(cur_old),
        cur_new: opt_view(cur_new),
        body: body,
        body_started: body_started,
        out: out.map_values(|r: FilePatchRecord| r@),
    }
}

fn is_old_header_str(l: &str) -> (r: bool)
    ensures
        r == is_old_header(l@),
{
    l.unicode_len() >= 4 && l.get_char(0) == '-' && l.get_char(1) == '-'
        && l.get_char(2) == '-' && l.get_char(3) == ' '
}

fn is_new_header_str(l: &str) -> (r: bool)
    ensures
        r == is_new_header(l@),
{
    l.unicode_len() >= 4 && l.get_char(0) == '+' && l.get_char(1) == '+'
        && l.get_char(2) == '+' && l.get_char(3) == ' '
}

fn header_path_str(l: &str) -> (r: String)
    requires
        l@.len() >= 4,
    ensures
        r@ == header_path(l@),
{
    let tail = l.substring_char(4, l.unicode_len());
    proof {
        assert(tail@ =~= l@.skip(4));
    }
    trim_str(tail).to_owned()
}

/// Splits a combined patch payload into ordered per-file change records,
/// under the grammar documented for this module.
pub fn split_patch_content(patch_content: &str) -> (records: Vec<FilePatchRecord>)
    ensures
        records@.map_values(|r: FilePatchRecord| r@) == spec_split_records(patch_content@),
{
    let lines = lines_str(patch_content);
    let ghost line_views = crate::text::views_of(lines@);

    let mut cur_old: Option<String> = None;
    let mut cur_new: Option<String> = None;
    let mut body: String = String::new();
    let mut body_started: bool = false;
    let mut out: Vec<FilePatchRecord> = Vec::new();

    proof {
        assert(st_of(cur_old, cur_new, body@, body_started, out@) =~= init_split_state());
        assert(line_views.skip(0) =~= line_views);
    }

    let mut i: usize = 0;
    while i < lines.len()
        invariant
            i <= lines@.len(),
            line_views == crate::text::views_of(lines@),
            split_fold(line_views, init_split_state())
                == split_fold(line_views.skip(i as int),
                    st_of(cur_old, cur_new, body@, body_started, out@)),
        decreases lines@.len() - i,
    {
        let ghost st_pre = st_of(cur_old, cur_new, body@, body_started, out@);
        let line = &lines[i];
        let l = trim_end_str(line.as_str());
        proof {
            assert(line_views.skip(i as int).first() == line_views[i as int]);
            assert(line_views.skip(i as int).drop_first() =~= line_views.skip(i + 1));
        }
        if is_old_header_str(l) {
            if cur_old.is_some() && cur_new.is_some() && body.unicode_len() > 0 {
                out.push(FilePatchRecord {
                    old_path: cur_old.unwrap(),
                    new_path: cur_new.unwrap(),
                    hunk_text: body,
                });
            }
            cur_old = Some(header_path_str(l));
            cur_new = None;
            body = String::new();
            body_started = false;
            proof {
                assert(out@.map_values(|r: FilePatchRecord| r@) =~= split_flush(st_pre));
                assert(st_of(cur_old, cur_new, body@, body_started, out@)
                    =~= split_step(st_pre, line_views[i as int]));
            }
        } else if is_new_header_str(l) && cur_old.is_some() && cur_new.is_none() {
            cur_new = Some(header_path_str(l));
            proof {
                assert(st_of(cur_old, cur_new, body@, body_started, out@)
                    =~= split_step(st_pre, line_views[i as int]));
            }
        } else if cur_old.is_some() && cur_new.is_some() {
            if body_started {
                push_char(&mut body, '\n');
                body.append(l);
            } else {
                body = l.to_owned();
            }
            body_started = true;
            proof {
                assert(st_of(cur_old, cur_new, body@, body_started, out@)
                    =~= split_step(st_pre, line_views[i as int]));
            }
        } else {
            proof {
                assert(st_of(cur_old, cur_new, body@, body_started, out@)
                    =~= split_step(st_pre, line_views[i as int]));
            }
        }
        i = i + 1;
    }

    proof {
        assert(line_views.skip(line_views.len() as int) =~= Seq::<Seq<char>>::empty());
    }
    let ghost st_end = st_of(cur_old, cur_new, body@, body_started, out@);
    proof {
        assert(split_fold(line_views, init_split_state()) == st_end);
    }
    if cur_old.is_some() && cur_new.is_some() && body.unicode_len() > 0 {
        out.push(FilePatchRecord {
            old_path: cur_old.unwrap(),
            new_path: cur_new.unwrap(),
            hunk_text: body,
        });
    }
    proof {
        assert(out@.map_values(|r: FilePatchRecord| r@) =~= split_flush(st_end));
    }
    out
}

} // verus!
