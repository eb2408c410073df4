//! Ignore-aware directory tree building.
//!
//! The caller walks the filesystem and hands the library a [`RawDir`]
//! snapshot: each directory's listing (or the error that reading it
//! gave), each entry's name, path and kind, and the lines of the
//! directory's own ignore rule file where one exists. [`build_tree`]
//! turns the snapshot into the tree the listing endpoint returns:
//! ignored entries are dropped with their whole subtrees, siblings are
//! ordered directories-first in natural order, a directory with its own
//! rule file uses only that file's rules for itself and its descendants,
//! an unreadable subdirectory is omitted rather than failing the walk,
//! and a folder appears only if something non-ignored remains beneath it.

use vstd::prelude::*;
use vstd::multiset::Multiset;
use vstd::string::*;
use crate::order::{key_le, key_le_exec};
use crate::text::views_of;
use ignore::gitignore::{Gitignore, GitignoreBuilder};

verus! {

// ---------------------------------------------------------------------
// The raw snapshot the caller gathers.
// ---------------------------------------------------------------------

/// One directory of the snapshot: its absolute path, the lines of its own
/// ignore rule file if it has one, and its listing or the error that
/// reading the listing gave.
pub struct RawDir {
    pub path: String,
    pub rule_lines: Option<Vec<String>>,
    pub entries: Result<Vec<RawEntry>, String>,
}

/// One listed entry: its name within the parent, its absolute path, and
/// what it is.
pub struct RawEntry {
    pub name: String,
    pub path: String,
    pub kind: RawEntryKind,
}

pub enum RawEntryKind {
    File,
    Dir(RawDir),
}

/// A well-formed snapshot: names are unique within each directory, as a
/// real directory listing has them.
pub open spec fn raw_wf(d: RawDir) -> bool
    decreases d, 2int,
{
    match d.entries {
        Ok(es) => (forall|j1: int, j2: int|
            0 <= j1 < j2 < es@.len() ==> es@[j1].name@ != es@[j2].name@) && (forall|j: int|
            0 <= j < es@.len() ==> entry_wf(#[trigger] es@[j])),
        Err(_) => true,
    }
}

pub open spec fn entry_wf(e: RawEntry) -> bool
    decreases e, 0int,
{
    match e.kind {
        RawEntryKind::File => true,
        RawEntryKind::Dir(sub) => raw_wf(sub),
    }
}

// ---------------------------------------------------------------------
// The gitignore-style rule set, through the `ignore` crate.
// ---------------------------------------------------------------------

#[verifier::external_type_specification]
#[verifier::external_body]
pub struct ExGitignore(Gitignore);

#[verifier::external_type_specification]
#[verifier::external_body]
pub struct ExGitignoreBuilder(GitignoreBuilder);

/// The root path a rule-set builder was given.
pub uninterp spec fn builder_root(b: GitignoreBuilder) -> Seq<char>;

/// The glob lines added to a rule-set builder so far.
pub uninterp spec fn builder_lines(b: GitignoreBuilder) -> Seq<Seq<char>>;

/// The root path of a compiled rule set.
pub uninterp spec fn gi_root(g: Gitignore) -> Seq<char>;

/// The glob lines a compiled rule set was built from.
pub uninterp spec fn gi_lines(g: Gitignore) -> Seq<Seq<char>>;

/// Whether one rule line parses as a glob; a function of the line alone.
pub uninterp spec fn gitignore_line_ok(line: Seq<char>) -> bool;

/// Whether compiling the given lines rooted at the given path succeeds; a
/// function of the two alone.
pub uninterp spec fn gitignore_build_ok(root: Seq<char>, lines: Seq<Seq<char>>) -> bool;

/// Whether the compiled rule set built from `lines` rooted at `root`
/// ignores `path`; directory-only patterns apply when `is_dir`.
pub uninterp spec fn gitignore_match(
    root: Seq<char>,
    lines: Seq<Seq<char>>,
    path: Seq<char>,
    is_dir: bool,
) -> bool;

/// Relies on `GitignoreBuilder::new`: a fresh builder rooted at `root`,
/// with no globs added yet.
#[verifier::external_body]
fn gitignore_builder_new(root: &str) -> (b: GitignoreBuilder)
    ensures
        builder_root(b) == root@,
        builder_lines(b) == Seq::<Seq<char>>::empty(),
{
    GitignoreBuilder::new(root)
}

/// Relies on `GitignoreBuilder::add_line`: records one rule line, or
/// leaves the builder unchanged and reports failure when the line does
/// not parse as a glob — which depends on the line alone.
#[verifier::external_body]
fn gitignore_add_line(b: &mut GitignoreBuilder, line: &str) -> (ok: bool)
    ensures
        ok == gitignore_line_ok(line@),
        builder_root(*final(b)) == builder_root(*old(b)),
        ok ==> builder_lines(*final(b)) == builder_lines(*old(b)).push(line@),
        !ok ==> builder_lines(*final(b)) == builder_lines(*old(b)),
{
    b.add_line(None, line).is_ok()
}

/// Relies on `GitignoreBuilder::build`: compiles the added globs into a
/// matcher whose behaviour is a function of the builder's root and lines;
/// success is a function of the same two.
#[verifier::external_body]
fn gitignore_build(b: &GitignoreBuilder) -> (r: Option<Gitignore>)
    ensures
        r is Some <==> gitignore_build_ok(builder_root(*b), builder_lines(*b)),
        r matches Some(g) ==> gi_root(g) == builder_root(*b) && gi_lines(g) == builder_lines(*b),
{
    b.build().ok()
}

/// Relies on `Gitignore::empty`: a matcher with zero globs, which never
/// matches any path.
#[verifier::external_body]
fn gitignore_empty() -> (g: Gitignore)
    ensures
        gi_root(g) == Seq::<char>::empty(),
        gi_lines(g) == Seq::<Seq<char>>::empty(),
        forall|p: Seq<char>, d: bool| !gitignore_match(gi_root(g), gi_lines(g), p, d),
{
    Gitignore::empty()
}

/// Relies on `Gitignore::matched`: whether the matcher's globs ignore
/// `path`, with directory-only patterns applying when `is_dir`; a
/// function of the matcher's root and lines and of the path.
#[verifier::external_body]
fn gitignore_is_ignored(g: &Gitignore, path: &str, is_dir: bool) -> (r: bool)
    ensures
        r == gitignore_match(gi_root(*g), gi_lines(*g), path@, is_dir),
{
    g.matched(path, is_dir).is_ignore()
}

/// The rule lines that parse as globs; the others are skipped, as the
/// `ignore` crate's own file loading skips them.
pub open spec fn accepted_lines(lines: Seq<Seq<char>>) -> Seq<Seq<char>> {
    lines.filter(|l: Seq<char>| gitignore_line_ok(l))
}

/// The ignore decision of the rule set built from `lines` rooted at
/// `root`: the accepted lines are compiled, and a rule set that fails to
/// compile ignores nothing, as the fallback to an empty matcher has it.
pub open spec fn rules_match(
    root: Seq<char>,
    lines: Seq<Seq<char>>,
    path: Seq<char>,
    is_dir: bool,
) -> bool {
    gitignore_build_ok(root, accepted_lines(lines))
        && gitignore_match(root, accepted_lines(lines), path, is_dir)
}

/// A compiled rule set together with the root and lines it stands for.
pub struct ActiveRules {
    pub matcher: Gitignore,
    pub root: Ghost<Seq<char>>,
    pub lines: Ghost<Seq<Seq<char>>>,
}

impl ActiveRules {
    /// The matcher decides exactly as [`rules_match`] of the recorded
    /// root and lines.
    pub open spec fn wf(self) -> bool {
        forall|p: Seq<char>, d: bool|
            gitignore_match(gi_root(self.matcher), gi_lines(self.matcher), p, d)
                == rules_match(self.root@, self.lines@, p, d)
    }

    /// The rule set of a directory with no rule file anywhere above it:
    /// it ignores nothing.
    pub fn empty() -> (r: ActiveRules)
        ensures
            r.wf(),
            r.root@ == Seq::<char>::empty(),
            r.lines@ == Seq::<Seq<char>>::empty(),
    {
        let g = gitignore_empty();
        let r = ActiveRules {
            matcher: g,
            root: Ghost(Seq::empty()),
            lines: Ghost(Seq::empty()),
        };
        proof {
            assert(accepted_lines(Seq::<Seq<char>>::empty()) =~= Seq::<Seq<char>>::empty());
        }
        r
    }

    /// Compiles the rule file found at a directory: `root` is the
    /// directory's path and `lines` the file's lines.
    pub fn from_lines(root: &str, lines: &Vec<String>) -> (r: ActiveRules)
        ensures
            r.wf(),
            r.root@ == root@,
            r.lines@ == views_of(lines@),
    {
        let mut b = gitignore_builder_new(root);
        proof {
            assert(views_of(lines@).take(0) =~= Seq::<Seq<char>>::empty());
            assert(accepted_lines(Seq::<Seq<char>>::empty()) =~= Seq::<Seq<char>>::empty());
        }
        let mut i: usize = 0;
        while i < lines.len()
            invariant
                i <= lines@.len(),
                builder_root(b) == root@,
                builder_lines(b) == accepted_lines(views_of(lines@).take(i as int)),
            decreases lines@.len() - i,
        {
            let ghost pre = views_of(lines@).take(i as int);
            let _ = gitignore_add_line(&mut b, lines[i].as_str());
            proof {
                assert(views_of(lines@).take(i + 1) =~= pre.push(lines@[i as int]@));
                pre.lemma_filter_push(lines@[i as int]@, |l: Seq<char>| gitignore_line_ok(l));
            }
            i = i + 1;
        }
        proof {
            assert(views_of(lines@).take(lines@.len() as int) =~= views_of(lines@));
        }
        match gitignore_build(&b) {
            Some(g) => ActiveRules { matcher: g, root: Ghost(root@), lines: Ghost(views_of(lines@)) },
            None => {
                let g = gitignore_empty();
                ActiveRules { matcher: g, root: Ghost(root@), lines: Ghost(views_of(lines@)) }
            },
        }
    }

    /// Asks the rule set whether an entry is ignored.
    pub fn is_ignored(&self, path: &str, is_dir: bool) -> (r: bool)
        requires
            self.wf(),
        ensures
            r == rules_match(self.root@, self.lines@, path@, is_dir),
    {
        gitignore_is_ignored(&self.matcher, path, is_dir)
    }
}

// ---------------------------------------------------------------------
// The tree and what makes it right.
// ---------------------------------------------------------------------

/// One node of the returned tree; a folder owns its children, keyed by
/// name and held in sibling order.
#[derive(Debug, PartialEq, Eq)]
pub enum TreeNode {
    File { path: String },
    Folder { path: String, children: Vec<(String, TreeNode)> },
}

/// The root path in force at `d`: its own path when it has a rule file,
/// else the inherited one.
pub open spec fn active_root(d: RawDir, inh_root: Seq<char>) -> Seq<char> {
    if d.rule_lines is Some {
        d.path@
    } else {
        inh_root
    }
}

/// The rule lines in force at `d`: only its own file's lines when it has
/// one — never a union with an ancestor's — else the inherited lines.
pub open spec fn active_lines(d: RawDir, inh_lines: Seq<Seq<char>>) -> Seq<Seq<char>> {
    match d.rule_lines {
        Some(lines) => views_of(lines@),
        None => inh_lines,
    }
}

/// Whether the rules in force hide this entry and so its whole subtree.
pub open spec fn entry_ignored(e: RawEntry, r: Seq<char>, l: Seq<Seq<char>>) -> bool {
    rules_match(r, l, e.path@, e.kind is Dir)
}

/// Whether an entry surfaces in the tree: it must not be ignored, and a
/// directory must also be readable and keep something beneath it.
pub open spec fn entry_kept(e: RawEntry, r: Seq<char>, l: Seq<Seq<char>>) -> bool
    decreases e, 0int,
{
    !entry_ignored(e, r, l) && match e.kind {
        RawEntryKind::File => true,
        RawEntryKind::Dir(sub) => sub.entries is Ok && !dir_tree_is_empty(sub, r, l),
    }
}

/// Whether a directory's tree comes out empty under the rules inherited
/// from its parent.
pub open spec fn dir_tree_is_empty(d: RawDir, inh_r: Seq<char>, inh_l: Seq<Seq<char>>) -> bool
    decreases d, 2int,
{
    let r = active_root(d, inh_r);
    let l = active_lines(d, inh_l);
    match d.entries {
        Ok(es) => forall|j: int| 0 <= j < es@.len() ==> !entry_kept(#[trigger] es@[j], r, l),
        Err(_) => true,
    }
}

/// The sibling order on output pairs.
pub open spec fn pair_key_le(a: (String, TreeNode), b: (String, TreeNode)) -> bool {
    key_le(a.1 is Folder, a.0@, b.1 is Folder, b.0@)
}

/// Every adjacent output pair is in sibling order.
pub open spec fn nodes_sorted(out: Seq<(String, TreeNode)>) -> bool {
    forall|i: int| 0 <= i && i + 1 < out.len() ==> pair_key_le(#[trigger] out[i], out[i + 1])
}

/// Whether `node` is the tree node that entry `e` gives rise to, under
/// the rules `e`'s parent passes down.
pub open spec fn node_matches(e: RawEntry, r: Seq<char>, l: Seq<Seq<char>>, node: TreeNode) -> bool
    decreases e, 0int,
{
    match e.kind {
        RawEntryKind::File => match node {
            TreeNode::File { path } => path@ == e.path@,
            _ => false,
        },
        RawEntryKind::Dir(sub) => match node {
            TreeNode::Folder { path, children } => path@ == e.path@ && children@.len() > 0
                && dir_tree_ok(sub, r, l, children@),
            _ => false,
        },
    }
}

/// Whether one output pair realises some kept entry of the listing.
pub open spec fn realises_some(
    es: Seq<RawEntry>,
    r: Seq<char>,
    l: Seq<Seq<char>>,
    p: (String, TreeNode),
) -> bool
    decreases es, 0int,
{
    exists|j: int|
        0 <= j < es.len() && p.0@ == (#[trigger] es[j]).name@ && entry_kept(es[j], r, l)
            && node_matches(es[j], r, l, p.1)
}

/// Every output pair realises a kept entry of the listing.
pub open spec fn out_realises(
    es: Seq<RawEntry>,
    r: Seq<char>,
    l: Seq<Seq<char>>,
    out: Seq<(String, TreeNode)>,
) -> bool
    decreases es, 1int,
{
    forall|i: int| 0 <= i < out.len() ==> realises_some(es, r, l, #[trigger] out[i])
}

/// Every kept entry of the listing appears in the output.
pub open spec fn kept_appear(
    es: Seq<RawEntry>,
    r: Seq<char>,
    l: Seq<Seq<char>>,
    out: Seq<(String, TreeNode)>,
) -> bool
    decreases es, 1int,
{
    forall|j: int|
        0 <= j < es.len() && entry_kept(#[trigger] es[j], r, l) ==> exists|i: int|
            0 <= i < out.len() && out[i].0@ == es[j].name@
}

/// Each name appears at most once in the output.
pub open spec fn names_unique(out: Seq<(String, TreeNode)>) -> bool {
    forall|i1: int, i2: int|
        0 <= i1 < i2 < out.len() ==> (#[trigger] out[i1]).0@ != (#[trigger] out[i2]).0@
}

/// What a right tree for `d` is, under the inherited root and lines:
/// every output pair realises a kept entry of `d`'s listing, every kept
/// entry appears, names appear once, and siblings are in order.
pub open spec fn dir_tree_ok(
    d: RawDir,
    inh_r: Seq<char>,
    inh_l: Seq<Seq<char>>,
    out: Seq<(String, TreeNode)>,
) -> bool
    decreases d, 3int,
{
    let r = active_root(d, inh_r);
    let l = active_lines(d, inh_l);
    &&& d.entries is Ok
    &&& out_realises(d.entries->Ok_0@, r, l, out)
    &&& kept_appear(d.entries->Ok_0@, r, l, out)
    &&& names_unique(out)
    &&& nodes_sorted(out)
}

/// A right tree is empty exactly when the directory keeps nothing.
proof fn lemma_tree_empty_iff(
    d: RawDir,
    inh_r: Seq<char>,
    inh_l: Seq<Seq<char>>,
    out: Seq<(String, TreeNode)>,
)
    requires
        dir_tree_ok(d, inh_r, inh_l, out),
    ensures
        (out.len() == 0) <==> dir_tree_is_empty(d, inh_r, inh_l),
{
    let r = active_root(d, inh_r);
    let l = active_lines(d, inh_l);
    let es = d.entries->Ok_0@;
    if out.len() == 0 {
        assert forall|j: int| 0 <= j < es.len() implies !entry_kept(#[trigger] es[j], r, l) by {
            if entry_kept(es[j], r, l) {
                let i = choose|i: int| 0 <= i < out.len() && out[i].0@ == es[j].name@;
                assert(false);
            }
        }
    } else {
        if dir_tree_is_empty(d, inh_r, inh_l) {
            assert(realises_some(es, r, l, out[0]));
            let j = choose|j: int|
                0 <= j < es.len() && out[0].0@ == es[j].name@ && entry_kept(es[j], r, l)
                    && node_matches(es[j], r, l, out[0].1);
            assert(!entry_kept(es[j], r, l));
            assert(false);
        }
    }
}

fn is_folder_node(t: &TreeNode) -> (r: bool)
    ensures
        r == (*t is Folder),
{
    match t {
        TreeNode::Folder { .. } => true,
        TreeNode::File { .. } => false,
    }
}

/// Inserts one pair into a sorted run, keeping it sorted.
fn insert_node_sorted(v: &mut Vec<(String, TreeNode)>, x: (String, TreeNode))
    requires
        nodes_sorted(old(v)@),
    ensures
        nodes_sorted(final(v)@),
        final(v)@.to_multiset() == old(v)@.to_multiset().insert(x),
{
    broadcast use vstd::seq_lib::to_multiset_insert;

    let x_folder = is_folder_node(&x.1);
    let mut m: usize = 0;
    loop
        invariant
            m <= v@.len(),
            nodes_sorted(v@),
            x_folder == (x.1 is Folder),
            forall|k: int| 0 <= k < m ==> pair_key_le(#[trigger] v@[k], x),
        ensures
            m <= v@.len(),
            forall|k: int| 0 <= k < m ==> pair_key_le(#[trigger] v@[k], x),
            m < v@.len() ==> pair_key_le(x, v@[m as int]),
        decreases v@.len() - m,
    {
        if m == v.len() {
            break;
        }
        let here_folder = is_folder_node(&v[m].1);
        if !key_le_exec(here_folder, v[m].0.as_str(), x_folder, x.0.as_str()) {
            break;
        }
        m = m + 1;
    }
    let ghost pre = v@;
    v.insert(m, x);
    proof {
        assert(v@ == pre.insert(m as int, x));
        assert forall|i: int| 0 <= i && i + 1 < v@.len() implies pair_key_le(
            #[trigger] v@[i],
            v@[i + 1],
        ) by {
            if i + 1 < m {
                assert(v@[i] == pre[i] && v@[i + 1] == pre[i + 1]);
            } else if i + 1 == m {
                assert(v@[i] == pre[i] && v@[i + 1] == x);
            } else if i == m {
                assert(v@[i] == x && v@[i + 1] == pre[i]);
            } else {
                assert(v@[i] == pre[i - 1] && v@[i + 1] == pre[i]);
            }
        }
    }
}

/// The realised pairs of the first pass, once sorted, are a right tree:
/// each pair realises its source entry, every kept entry was realised,
/// and names stay unique because sources are distinct listing indices.
proof fn lemma_assemble(
    es_v: Seq<RawEntry>,
    r: Seq<char>,
    l: Seq<Seq<char>>,
    srcs: Seq<int>,
    made_final: Seq<(String, TreeNode)>,
    out: Seq<(String, TreeNode)>,
)
    requires
        srcs.len() == made_final.len(),
        forall|i: int| 0 <= i < srcs.len() ==> 0 <= #[trigger] srcs[i] < es_v.len(),
        forall|i1: int, i2: int| 0 <= i1 < i2 < srcs.len() ==> srcs[i1] < srcs[i2],
        forall|i: int|
            0 <= i < made_final.len() ==> (#[trigger] made_final[i]).0@ == es_v[srcs[i]].name@
                && entry_kept(es_v[srcs[i]], r, l) && node_matches(es_v[srcs[i]], r, l,
                made_final[i].1),
        forall|jj: int|
            0 <= jj < es_v.len() && entry_kept(#[trigger] es_v[jj], r, l) ==> srcs.contains(jj),
        forall|j1: int, j2: int| 0 <= j1 < j2 < es_v.len() ==> es_v[j1].name@ != es_v[j2].name@,
        out.to_multiset() == made_final.to_multiset(),
    ensures
        out_realises(es_v, r, l, out),
        kept_appear(es_v, r, l, out),
        names_unique(out),
{
    broadcast use vstd::seq_lib::group_to_multiset_ensures;
    broadcast use vstd::multiset::group_multiset_axioms;

    // Names of distinct realised pairs differ, since they come from
    // distinct listing indices and the listing's names are unique.
    assert forall|i1: int, i2: int| 0 <= i1 < i2 < made_final.len() implies made_final[i1].0@
        != made_final[i2].0@ by {
        assert(srcs[i1] < srcs[i2]);
        assert(es_v[srcs[i1]].name@ != es_v[srcs[i2]].name@);
    }
    assert(made_final.no_duplicates());
    made_final.lemma_multiset_has_no_duplicates();
    out.lemma_multiset_has_no_duplicates_conv();

    // Every output pair realises a kept entry.
    assert forall|i: int| 0 <= i < out.len() implies realises_some(
        es_v,
        r,
        l,
        #[trigger] out[i],
    ) by {
        let p = out[i];
        assert(out.contains(p));
        assert(made_final.to_multiset().contains(p));
        assert(made_final.contains(p));
        let ii = choose|ii: int| 0 <= ii < made_final.len() && made_final[ii] == p;
        assert(0 <= srcs[ii] < es_v.len());
        assert(p.0@ == es_v[srcs[ii]].name@ && entry_kept(es_v[srcs[ii]], r, l) && node_matches(
            es_v[srcs[ii]],
            r,
            l,
            p.1,
        ));
        assert(realises_some(es_v, r, l, p));
    }

    // Every kept entry appears in the output.
    assert forall|jj: int| 0 <= jj < es_v.len() && entry_kept(
        #[trigger] es_v[jj],
        r,
        l,
    ) implies exists|i: int| 0 <= i < out.len() && out[i].0@ == es_v[jj].name@ by {
        assert(srcs.contains(jj));
        let ii = choose|ii: int| 0 <= ii < srcs.len() && srcs[ii] == jj;
        let p = made_final[ii];
        assert(made_final.contains(p));
        assert(out.to_multiset().contains(p));
        assert(out.contains(p));
        let i = choose|i: int| 0 <= i < out.len() && out[i] == p;
        assert(out[i].0@ == es_v[jj].name@);
    }

    // Output names are unique.
    assert forall|i1: int, i2: int| 0 <= i1 < i2 < out.len() implies (#[trigger] out[i1]).0@
        != (#[trigger] out[i2]).0@ by {
        let p1 = out[i1];
        let p2 = out[i2];
        assert(p1 != p2);
        if p1.0@ == p2.0@ {
            assert(out.contains(p1) && out.contains(p2));
            assert(made_final.to_multiset().contains(p1) && made_final.to_multiset().contains(p2));
            assert(made_final.contains(p1) && made_final.contains(p2));
            let ii1 = choose|ii: int| 0 <= ii < made_final.len() && made_final[ii] == p1;
            let ii2 = choose|ii: int| 0 <= ii < made_final.len() && made_final[ii] == p2;
            assert(ii1 != ii2);
            assert(made_final[ii1].0@ != made_final[ii2].0@);
            assert(false);
        }
    }
    assert(names_unique(out));
    assert(kept_appear(es_v, r, l, out));
    assert(out_realises(es_v, r, l, out));
}

/// Builds the tree of one directory snapshot under the inherited rule
/// set. The whole call fails only when `dir`'s own listing could not be
/// read; an unreadable or empty subdirectory is simply left out.
pub fn build_tree(dir: &RawDir, inherited: &ActiveRules) -> (res: Result<
    Vec<(String, TreeNode)>,
    String,
>)
    requires
        inherited.wf(),
        raw_wf(*dir),
    ensures
        res is Ok <==> dir.entries is Ok,
        res matches Ok(t) ==> dir_tree_ok(*dir, inherited.root@, inherited.lines@, t@),
        res matches Err(m) ==> dir.entries matches Err(e) && m@ == "Failed to read directory: "@
            + e@,
    decreases *dir,
{
    broadcast use vstd::seq_lib::to_multiset_insert;
    broadcast use vstd::seq_lib::group_to_multiset_ensures;
    broadcast use vstd::multiset::group_multiset_axioms;

    let es: &Vec<RawEntry> = match &dir.entries {
        Ok(es) => es,
        Err(e) => {
            let mut m = String::new();
            m.append("Failed to read directory: ");
            m.append(e.as_str());
            return Err(m);
        },
    };

    let own_storage;
    let active: &ActiveRules = match &dir.rule_lines {
        Some(lines) => {
            own_storage = ActiveRules::from_lines(dir.path.as_str(), lines);
            &own_storage
        },
        None => inherited,
    };
    let ghost r = active_root(*dir, inherited.root@);
    let ghost l = active_lines(*dir, inherited.lines@);
    proof {
        assert(active.wf() && active.root@ == r && active.lines@ == l);
    }

    // First pass: realise each kept entry as a node, in listing order.
    let ghost es_v = dir.entries->Ok_0@;
    proof {
        assert(dir.entries->Ok_0 == *es);
        assert(es_v == es@);
    }
    let mut made: Vec<(String, TreeNode)> = Vec::new();
    // The listing index each made pair came from, strictly increasing.
    let ghost mut srcs: Seq<int> = Seq::empty();

    let mut j: usize = 0;
    while j < es.len()
        invariant
            j <= es@.len(),
            raw_wf(*dir),
            dir.entries matches Ok(v) && v == *es,
            es_v == es@,
            active.wf() && active.root@ == r && active.lines@ == l,
            r == active_root(*dir, inherited.root@),
            l == active_lines(*dir, inherited.lines@),
            srcs.len() == made@.len(),
            forall|i: int| 0 <= i < srcs.len() ==> 0 <= #[trigger] srcs[i] < j,
            forall|i1: int, i2: int| 0 <= i1 < i2 < srcs.len() ==> srcs[i1] < srcs[i2],
            forall|i: int|
                0 <= i < made@.len() ==> (#[trigger] made@[i]).0@ == es_v[srcs[i]].name@
                    && entry_kept(es_v[srcs[i]], r, l) && node_matches(es_v[srcs[i]], r, l,
                    made@[i].1),
            forall|jj: int|
                0 <= jj < j && entry_kept(#[trigger] es_v[jj], r, l) ==> srcs.contains(jj),
        decreases es@.len() - j,
    {
        let e = &es[j];
        proof {
            assert(entry_wf(es_v[j as int]));
        }
        let e_is_dir = match &e.kind {
            RawEntryKind::Dir(_) => true,
            RawEntryKind::File => false,
        };
        let ignored = active.is_ignored(e.path.as_str(), e_is_dir);
        let ghost srcs_pre = srcs;
        let ghost made_pre = made@;
        if !ignored {
            match &e.kind {
                RawEntryKind::File => {
                    made.push((e.name.clone(), TreeNode::File { path: e.path.clone() }));
                    proof {
                        srcs = srcs.push(j as int);
                        assert(srcs[srcs.len() - 1] == j as int);
                        assert(made@[made@.len() - 1].0@ == es_v[j as int].name@);
                        assert(entry_kept(es_v[j as int], r, l));
                        assert(node_matches(es_v[j as int], r, l, made@[made@.len() - 1].1));
                    }
                },
                RawEntryKind::Dir(sub) => {
                    match build_tree(sub, active) {
                        Ok(children) => {
                            proof {
                                lemma_tree_empty_iff(*sub, r, l, children@);
                            }
                            if children.len() > 0 {
                                made.push(
                                    (e.name.clone(), TreeNode::Folder {
                                        path: e.path.clone(),
                                        children,
                                    }),
                                );
                                proof {
                                    srcs = srcs.push(j as int);
                                    assert(srcs[srcs.len() - 1] == j as int);
                                    assert(made@[made@.len() - 1].0@ == es_v[j as int].name@);
                                    assert(entry_kept(es_v[j as int], r, l));
                                    assert(node_matches(es_v[j as int], r, l,
                                        made@[made@.len() - 1].1));
                                }
                            } else {
                                proof {
                                    assert(!entry_kept(es_v[j as int], r, l));
                                }
                            }
                        },
                        Err(_) => {
                            proof {
                                assert(sub.entries is Err);
                                assert(!entry_kept(es_v[j as int], r, l));
                            }
                        },
                    }
                },
            }
        } else {
            proof {
                assert(entry_ignored(es_v[j as int], r, l));
                assert(!entry_kept(es_v[j as int], r, l));
            }
        }
        proof {
            assert forall|i: int| 0 <= i < made@.len() implies (#[trigger] made@[i]).0@
                == es_v[srcs[i]].name@ && entry_kept(es_v[srcs[i]], r, l) && node_matches(
                es_v[srcs[i]],
                r,
                l,
                made@[i].1,
            ) by {
                if i < made_pre.len() {
                    assert(made@[i] == made_pre[i]);
                    assert(srcs[i] == srcs_pre[i]);
                }
            }
            assert forall|jj: int| 0 <= jj < j + 1 && entry_kept(
                #[trigger] es_v[jj],
                r,
                l,
            ) implies srcs.contains(jj) by {
                if jj < j {
                    let i = choose|i: int| 0 <= i < srcs_pre.len() && srcs_pre[i] == jj;
                    assert(srcs[i] == jj);
                } else {
                    assert(srcs.len() > srcs_pre.len());
                    assert(srcs[srcs.len() - 1] == j as int);
                }
            }
        }
        j = j + 1;
    }

    // Second pass: put siblings in order.
    let ghost made_final = made@;
    proof {
        assert forall|i: int| 0 <= i < made_final.len() implies (#[trigger] made_final[i]).0@
            == es_v[srcs[i]].name@ && entry_kept(es_v[srcs[i]], r, l) && node_matches(
            es_v[srcs[i]],
            r,
            l,
            made_final[i].1,
        ) by {
            assert(made_final[i] == made@[i]);
        }
    }
    let mut out: Vec<(String, TreeNode)> = Vec::new();
    proof {
        assert(out@.to_multiset() =~= Multiset::<(String, TreeNode)>::empty());
        assert(out@.to_multiset().add(made@.to_multiset()) =~= made_final.to_multiset());
    }
    while made.len() > 0
        invariant
            nodes_sorted(out@),
            out@.to_multiset().add(made@.to_multiset()) == made_final.to_multiset(),
        decreases made@.len(),
    {
        let ghost pre_made = made@;
        let ghost pre_out = out@;
        let pair = made.pop().unwrap();
        proof {
            assert(pre_made =~= made@.push(pair));
            vstd::seq_lib::to_multiset_build(made@, pair);
            assert(pre_made.to_multiset() == made@.to_multiset().insert(pair));
        }
        insert_node_sorted(&mut out, pair);
        proof {
            assert(out@.to_multiset() == pre_out.to_multiset().insert(pair));
            assert(out@.to_multiset().add(made@.to_multiset()) =~= pre_out.to_multiset().add(
                pre_made.to_multiset(),
            ));
        }
    }
    proof {
        assert(made@.to_multiset() =~= Multiset::<(String, TreeNode)>::empty());
        assert(out@.to_multiset() =~= made_final.to_multiset());

        assert(srcs.len() == made_final.len());
        lemma_assemble(es_v, r, l, srcs, made_final, out@);
        assert(dir_tree_ok(*dir, inherited.root@, inherited.lines@, out@));
    }

    Ok(out)
}


// ---------------------------------------------------------------------
// Laws of the tree.
// ---------------------------------------------------------------------

proof fn lemma_kind_monotone(out: Seq<(String, TreeNode)>, i1: int, i2: int)
    requires
        nodes_sorted(out),
        0 <= i1 <= i2 < out.len(),
        out[i1].1 is File,
    ensures
        out[i2].1 is File,
    decreases i2 - i1,
{
    if i2 > i1 {
        lemma_kind_monotone(out, i1, i2 - 1);
        assert(pair_key_le(out[i2 - 1], out[i2]));
    }
}

/// Among the siblings of a right tree, directories sort strictly before
/// files: once a file appears, everything after it is a file.
pub proof fn lemma_dirs_before_files(out: Seq<(String, TreeNode)>)
    requires
        nodes_sorted(out),
    ensures
        forall|i1: int, i2: int|
            0 <= i1 < i2 < out.len() && (#[trigger] out[i1]).1 is File ==> (
            #[trigger] out[i2]).1 is File,
{
    assert forall|i1: int, i2: int|
        0 <= i1 < i2 < out.len() && (#[trigger] out[i1]).1 is File implies (
    #[trigger] out[i2]).1 is File by {
        lemma_kind_monotone(out, i1, i2);
    }
}

/// In a right tree no folder node is empty, and a directory entry that
/// keeps nothing beneath it surfaces under no name of the output.
pub proof fn lemma_no_empty_folders(
    d: RawDir,
    inh_r: Seq<char>,
    inh_l: Seq<Seq<char>>,
    out: Seq<(String, TreeNode)>,
)
    requires
        raw_wf(d),
        dir_tree_ok(d, inh_r, inh_l, out),
    ensures
        forall|i: int|
            0 <= i < out.len() ==> ((#[trigger] out[i]).1 matches TreeNode::Folder {
                path,
                children,
            } ==> children@.len() > 0),
        forall|j: int, i: int|
            0 <= j < d.entries->Ok_0@.len() && 0 <= i < out.len() && !entry_kept(
                #[trigger] d.entries->Ok_0@[j],
                active_root(d, inh_r),
                active_lines(d, inh_l),
            ) ==> (#[trigger] out[i]).0@ != d.entries->Ok_0@[j].name@,
{
    let r = active_root(d, inh_r);
    let l = active_lines(d, inh_l);
    let es = d.entries->Ok_0@;

    assert forall|i: int| 0 <= i < out.len() implies ((#[trigger] out[i]).1
        matches TreeNode::Folder { path, children } ==> children@.len() > 0) by {
        assert(realises_some(es, r, l, out[i]));
        let j = choose|j: int|
            0 <= j < es.len() && out[i].0@ == es[j].name@ && entry_kept(es[j], r, l)
                && node_matches(es[j], r, l, out[i].1);
        match es[j].kind {
            RawEntryKind::File => {
                assert(out[i].1 is File);
            },
            RawEntryKind::Dir(sub) => {
                assert(out[i].1 matches TreeNode::Folder { path, children } ==> children@.len()
                    > 0);
            },
        }
    }

    assert forall|j: int, i: int|
        0 <= j < es.len() && 0 <= i < out.len() && !entry_kept(
            #[trigger] es[j],
            r,
            l,
        ) implies (#[trigger] out[i]).0@ != es[j].name@ by {
        if out[i].0@ == es[j].name@ {
            assert(realises_some(es, r, l, out[i]));
            let j2 = choose|j2: int|
                0 <= j2 < es.len() && out[i].0@ == es[j2].name@ && entry_kept(es[j2], r, l)
                    && node_matches(es[j2], r, l, out[i].1);
            if j2 < j {
                assert(es[j2].name@ != es[j].name@);
            } else if j < j2 {
                assert(es[j].name@ != es[j2].name@);
            }
            assert(j2 == j);
            assert(false);
        }
    }
}

/// A directory that carries its own rule file uses only that file's
/// rules for itself and its descendants: which trees are right for it
/// does not depend on the inherited rule set at all.
pub proof fn lemma_own_rules_shadow(
    d: RawDir,
    r1: Seq<char>,
    l1: Seq<Seq<char>>,
    r2: Seq<char>,
    l2: Seq<Seq<char>>,
    out: Seq<(String, TreeNode)>,
)
    requires
        d.rule_lines is Some,
    ensures
        dir_tree_ok(d, r1, l1, out) == dir_tree_ok(d, r2, l2, out),
{
    assert(active_root(d, r1) == active_root(d, r2));
    assert(active_lines(d, l1) == active_lines(d, l2));
}


/// A listing entry surfaces in a right tree exactly when it is kept: a
/// folder node appears iff something non-ignored remains beneath it, and
/// a file node iff the rules in force do not hide it.
pub proof fn lemma_entry_appears_iff(
    d: RawDir,
    inh_r: Seq<char>,
    inh_l: Seq<Seq<char>>,
    out: Seq<(String, TreeNode)>,
    j: int,
)
    requires
        raw_wf(d),
        dir_tree_ok(d, inh_r, inh_l, out),
        0 <= j < d.entries->Ok_0@.len(),
    ensures
        (exists|i: int| 0 <= i < out.len() && out[i].0@ == d.entries->Ok_0@[j].name@)
            <==> entry_kept(
            d.entries->Ok_0@[j],
            active_root(d, inh_r),
            active_lines(d, inh_l),
        ),
{
    let r = active_root(d, inh_r);
    let l = active_lines(d, inh_l);
    let es = d.entries->Ok_0@;
    if entry_kept(es[j], r, l) {
        assert(exists|i: int| 0 <= i < out.len() && out[i].0@ == es[j].name@);
    }
    if exists|i: int| 0 <= i < out.len() && out[i].0@ == es[j].name@ {
        let i = choose|i: int| 0 <= i < out.len() && out[i].0@ == es[j].name@;
        assert(realises_some(es, r, l, out[i]));
        let j2 = choose|j2: int|
            0 <= j2 < es.len() && out[i].0@ == es[j2].name@ && entry_kept(es[j2], r, l)
                && node_matches(es[j2], r, l, out[i].1);
        if j2 < j {
            assert(es[j2].name@ != es[j].name@);
        } else if j < j2 {
            assert(es[j].name@ != es[j2].name@);
        }
        assert(j2 == j);
    }
}

} // verus!
