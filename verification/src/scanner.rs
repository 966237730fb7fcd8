//! Bounded-depth repository discovery over a modelled directory tree.
//!
//! The filesystem is handed in as a tree of [`DirEntry`] values: a directory
//! with its listed children, any other entry (plain file, symbolic link —
//! neither is descended into), or an entry that could not be read and is
//! skipped. A directory visited at depth at most `max_depth` (the root is at
//! depth 0) counts as a repository when one of its direct children is a
//! directory named `.git`; a plain file of that name is no marker. Every
//! marker is reported independently: the walk does not prune below a match.
//! Discovered records are ordered by name, and records with equal names keep
//! their discovery order (parents before children, children in listed
//! order).

use vstd::prelude::*;
use crate::records::{spec_encode, spec_repo_name, encode_records, GitRepo};
use crate::text::{push_char, spec_lex_le, str_eq, str_le};
use vstd::string::StringExecFns;

verus! {

/// One entry of a directory listing, as the filesystem reports it.
#[derive(Debug)]
pub enum DirEntry {
    /// A directory together with its own listing.
    Directory { name: String, entries: Vec<DirEntry> },
    /// Anything that is not a directory: a plain file, a symbolic link, a
    /// device. Symbolic links are never followed, so a link to a directory
    /// also lands here.
    Other { name: String },
    /// An entry that could not be read; it is skipped, never an error.
    Unreadable,
}

/// Whether this entry is a directory named `.git`.
pub open spec fn spec_is_marker_dir(e: DirEntry) -> bool {
    e matches DirEntry::Directory { name, .. } && name@ == ".git"@
}

/// Whether a listing contains the repository marker: a directory named
/// `.git` among its direct entries.
pub open spec fn spec_has_marker(entries: Seq<DirEntry>) -> bool {
    exists|k: int| 0 <= k < entries.len() && spec_is_marker_dir(#[trigger] entries[k])
}

/// The records discovered in a directory with path `path` and listing
/// `entries`, visited at `depth`: its own record when it holds the marker,
/// then the records of its child directories, which are visited only when
/// their depth `depth + 1` stays within `max_depth`.
pub open spec fn spec_scan_dir(
    path: Seq<char>,
    entries: Seq<DirEntry>,
    depth: nat,
    max_depth: nat,
) -> Seq<(Seq<char>, Seq<char>)>
    decreases entries, 1int,
{
    let own = if spec_has_marker(entries) {
        seq![(spec_repo_name(path), path)]
    } else {
        seq![]
    };
    if depth < max_depth {
        own + spec_scan_children(entries, path, depth, max_depth)
    } else {
        own
    }
}

/// The records discovered below one child entry: a directory is visited at
/// the next depth under the path `parent/name`; anything else yields none.
pub open spec fn spec_child_records(
    e: DirEntry,
    parent_path: Seq<char>,
    depth: nat,
    max_depth: nat,
) -> Seq<(Seq<char>, Seq<char>)>
    decreases e, 2int,
{
    match e {
        DirEntry::Directory { name, entries: sub } => spec_scan_dir(
            parent_path + seq!['/'] + name@,
            sub@,
            (depth + 1) as nat,
            max_depth,
        ),
        _ => seq![],
    }
}

/// The records discovered below the child directories of a listing, in
/// listing order.
pub open spec fn spec_scan_children(
    entries: Seq<DirEntry>,
    parent_path: Seq<char>,
    depth: nat,
    max_depth: nat,
) -> Seq<(Seq<char>, Seq<char>)>
    decreases entries, 0int,
{
    if entries.len() == 0 {
        seq![]
    } else {
        spec_child_records(entries[0], parent_path, depth, max_depth) + spec_scan_children(
            entries.drop_first(),
            parent_path,
            depth,
            max_depth,
        )
    }
}

/// Inserts a record into a name-ordered sequence, after every record whose
/// name comes no later: a freshly discovered record lands behind the
/// records of equal name that are already there.
pub open spec fn spec_insert_record(
    r: (Seq<char>, Seq<char>),
    s: Seq<(Seq<char>, Seq<char>)>,
) -> Seq<(Seq<char>, Seq<char>)>
    decreases s.len(),
{
    if s.len() == 0 {
        seq![r]
    } else if spec_lex_le(s[0].0, r.0) {
        seq![s[0]] + spec_insert_record(r, s.drop_first())
    } else {
        seq![r] + s
    }
}

/// Sorts records by name, keeping the relative order of records with equal
/// names.
pub open spec fn spec_sort_records(s: Seq<(Seq<char>, Seq<char>)>) -> Seq<(Seq<char>, Seq<char>)>
    decreases s.len(),
{
    if s.len() == 0 {
        seq![]
    } else {
        spec_insert_record(s.last(), spec_sort_records(s.drop_last()))
    }
}

/// The records come in name order: no record's name comes later than a
/// record's after it.
pub open spec fn spec_records_sorted(s: Seq<(Seq<char>, Seq<char>)>) -> bool {
    forall|i: int, j: int|
        0 <= i < j < s.len() ==> spec_lex_le(#[trigger] s[i].0, #[trigger] s[j].0)
}

proof fn lemma_insert_record_len(r: (Seq<char>, Seq<char>), s: Seq<(Seq<char>, Seq<char>)>)
    ensures
        spec_insert_record(r, s).len() == s.len() + 1,
    decreases s.len(),
{
    if s.len() == 0 {
    } else if spec_lex_le(s[0].0, r.0) {
        lemma_insert_record_len(r, s.drop_first());
    }
}

proof fn lemma_insert_record_elems(
    r: (Seq<char>, Seq<char>),
    s: Seq<(Seq<char>, Seq<char>)>,
    i: int,
)
    requires
        0 <= i < spec_insert_record(r, s).len(),
    ensures
        spec_insert_record(r, s)[i] == r || exists|j: int|
            0 <= j < s.len() && spec_insert_record(r, s)[i] == s[j],
    decreases s.len(),
{
    if s.len() == 0 {
    } else if spec_lex_le(s[0].0, r.0) {
        if i == 0 {
            assert(spec_insert_record(r, s)[0] == s[0]);
        } else {
            lemma_insert_record_elems(r, s.drop_first(), i - 1);
            assert(spec_insert_record(r, s)[i] == spec_insert_record(r, s.drop_first())[i - 1]);
            if spec_insert_record(r, s.drop_first())[i - 1] != r {
                let j = choose|j: int|
                    0 <= j < s.drop_first().len() && spec_insert_record(r, s.drop_first())[i - 1]
                        == s.drop_first()[j];
                assert(s.drop_first()[j] == s[j + 1]);
            }
        }
    } else {
        if i > 0 {
            assert(spec_insert_record(r, s)[i] == s[i - 1]);
        }
    }
}

proof fn lemma_insert_record_sorted(r: (Seq<char>, Seq<char>), s: Seq<(Seq<char>, Seq<char>)>)
    requires
        spec_records_sorted(s),
    ensures
        spec_records_sorted(spec_insert_record(r, s)),
    decreases s.len(),
{
    let out = spec_insert_record(r, s);
    if s.len() == 0 {
    } else if spec_lex_le(s[0].0, r.0) {
        let rest = s.drop_first();
        assert(spec_records_sorted(rest)) by {
            assert forall|i: int, j: int| 0 <= i < j < rest.len() implies spec_lex_le(
                #[trigger] rest[i].0,
                #[trigger] rest[j].0,
            ) by {
                assert(rest[i] == s[i + 1]);
                assert(rest[j] == s[j + 1]);
            }
        }
        lemma_insert_record_sorted(r, rest);
        let inner = spec_insert_record(r, rest);
        lemma_insert_record_len(r, rest);
        assert forall|i: int, j: int| 0 <= i < j < out.len() implies spec_lex_le(
            #[trigger] out[i].0,
            #[trigger] out[j].0,
        ) by {
            if i == 0 {
                assert(out[0] == s[0]);
                assert(out[j] == inner[j - 1]);
                lemma_insert_record_elems(r, rest, j - 1);
                if inner[j - 1] == r {
                } else {
                    let k = choose|k: int| 0 <= k < rest.len() && inner[j - 1] == rest[k];
                    assert(rest[k] == s[k + 1]);
                }
            } else {
                assert(out[i] == inner[i - 1]);
                assert(out[j] == inner[j - 1]);
            }
        }
    } else {
        crate::text::lemma_lex_le_total(s[0].0, r.0);
        assert(spec_lex_le(r.0, s[0].0));
        assert forall|i: int, j: int| 0 <= i < j < out.len() implies spec_lex_le(
            #[trigger] out[i].0,
            #[trigger] out[j].0,
        ) by {
            if i == 0 {
                assert(out[0] == r);
                assert(out[j] == s[j - 1]);
                if j > 1 {
                    crate::text::lemma_lex_le_trans(r.0, s[0].0, s[j - 1].0);
                }
            } else {
                assert(out[i] == s[i - 1]);
                assert(out[j] == s[j - 1]);
            }
        }
    }
}

/// The sort really orders by name: its result is name-ordered and holds
/// exactly as many records as went in.
pub proof fn lemma_sort_records_sorted(s: Seq<(Seq<char>, Seq<char>)>)
    ensures
        spec_records_sorted(spec_sort_records(s)),
        spec_sort_records(s).len() == s.len(),
    decreases s.len(),
{
    if s.len() == 0 {
    } else {
        lemma_sort_records_sorted(s.drop_last());
        lemma_insert_record_sorted(s.last(), spec_sort_records(s.drop_last()));
        lemma_insert_record_len(s.last(), spec_sort_records(s.drop_last()));
    }
}

/// No directory named `.git` appears anywhere below this entry (a plain
/// file or link of that name may).
pub open spec fn spec_no_marker_dir_in_entry(e: DirEntry) -> bool
    decreases e, 1int,
{
    match e {
        DirEntry::Directory { name, entries } => name@ != ".git"@ && spec_no_marker_dirs(entries@),
        _ => true,
    }
}

/// No directory named `.git` appears anywhere below any of these entries.
pub open spec fn spec_no_marker_dirs(entries: Seq<DirEntry>) -> bool
    decreases entries, 0int,
{
    if entries.len() == 0 {
        true
    } else {
        spec_no_marker_dir_in_entry(entries[0]) && spec_no_marker_dirs(entries.drop_first())
    }
}

proof fn lemma_no_marker_dirs_index(entries: Seq<DirEntry>, k: int)
    requires
        spec_no_marker_dirs(entries),
        0 <= k < entries.len(),
    ensures
        spec_no_marker_dir_in_entry(entries[k]),
    decreases entries.len(),
{
    if k > 0 {
        lemma_no_marker_dirs_index(entries.drop_first(), k - 1);
        assert(entries.drop_first()[k - 1] == entries[k]);
    }
}

/// A plain file named `.git` is no marker: a tree in which `.git` never
/// names a directory yields no record, at any depth and under any depth
/// bound.
pub proof fn lemma_file_marker_no_records(
    path: Seq<char>,
    entries: Seq<DirEntry>,
    depth: nat,
    max_depth: nat,
)
    requires
        spec_no_marker_dirs(entries),
    ensures
        spec_scan_dir(path, entries, depth, max_depth) == Seq::<(Seq<char>, Seq<char>)>::empty(),
    decreases entries, 1int,
{
    assert forall|k: int| 0 <= k < entries.len() implies !spec_is_marker_dir(
        #[trigger] entries[k],
    ) by {
        lemma_no_marker_dirs_index(entries, k);
    }
    assert(!spec_has_marker(entries));
    if depth < max_depth {
        lemma_no_marker_dirs_no_child_records(entries, path, depth, max_depth);
        assert(spec_scan_dir(path, entries, depth, max_depth) =~= Seq::<(
            Seq<char>,
            Seq<char>,
        )>::empty());
    } else {
        assert(spec_scan_dir(path, entries, depth, max_depth) =~= Seq::<(
            Seq<char>,
            Seq<char>,
        )>::empty());
    }
}

proof fn lemma_no_marker_dirs_no_child_records(
    entries: Seq<DirEntry>,
    parent_path: Seq<char>,
    depth: nat,
    max_depth: nat,
)
    requires
        spec_no_marker_dirs(entries),
    ensures
        spec_scan_children(entries, parent_path, depth, max_depth) == Seq::<(
            Seq<char>,
            Seq<char>,
        )>::empty(),
    decreases entries, 0int,
{
    if entries.len() == 0 {
    } else {
        assert(spec_no_marker_dir_in_entry(entries[0]));
        match entries[0] {
            DirEntry::Directory { name, entries: sub } => {
                assert(spec_no_marker_dirs(sub@));
                lemma_file_marker_no_records(
                    parent_path + seq!['/'] + name@,
                    sub@,
                    (depth + 1) as nat,
                    max_depth,
                );
            },
            _ => {},
        }
        assert(spec_child_records(entries[0], parent_path, depth, max_depth) == Seq::<(
            Seq<char>,
            Seq<char>,
        )>::empty());
        lemma_no_marker_dirs_no_child_records(entries.drop_first(), parent_path, depth, max_depth);
        assert(spec_scan_children(entries, parent_path, depth, max_depth) =~= Seq::<(
            Seq<char>,
            Seq<char>,
        )>::empty());
    }
}

fn has_marker(entries: &Vec<DirEntry>) -> (r: bool)
    ensures
        r == spec_has_marker(entries@),
{
    let mut i: usize = 0;
    while i < entries.len()
        invariant
            i <= entries@.len(),
            forall|k: int| 0 <= k < i ==> !spec_is_marker_dir(#[trigger] entries@[k]),
        decreases entries@.len() - i,
    {
        match &entries[i] {
            DirEntry::Directory { name, entries: _ } => {
                if str_eq(name.as_str(), ".git") {
                    proof {
                        assert(spec_is_marker_dir(entries@[i as int]));
                    }
                    return true;
                }
            },
            _ => {},
        }
        i = i + 1;
    }
    false
}

/// `spec_insert_record` places the new record at the first position whose
/// name comes strictly later, leaving everything else in place.
proof fn lemma_insert_at(
    r: (Seq<char>, Seq<char>),
    s: Seq<(Seq<char>, Seq<char>)>,
    p: int,
)
    requires
        0 <= p <= s.len(),
        forall|j: int| 0 <= j < p ==> spec_lex_le(#[trigger] s[j].0, r.0),
        p < s.len() ==> !spec_lex_le(s[p].0, r.0),
    ensures
        spec_insert_record(r, s) == s.take(p) + seq![r] + s.skip(p),
    decreases p,
{
    if p == 0 {
        if s.len() == 0 {
            assert(spec_insert_record(r, s) =~= s.take(0) + seq![r] + s.skip(0));
        } else {
            assert(spec_insert_record(r, s) == seq![r] + s);
            assert(seq![r] + s =~= s.take(0) + seq![r] + s.skip(0));
        }
    } else {
        assert(spec_lex_le(s[0].0, r.0));
        lemma_insert_at(r, s.drop_first(), p - 1);
        assert(s.drop_first().take(p - 1) =~= s.take(p).drop_first());
        assert(s.drop_first().skip(p - 1) =~= s.skip(p));
        assert(seq![s[0]] + (s.drop_first().take(p - 1) + seq![r] + s.drop_first().skip(p - 1))
            =~= s.take(p) + seq![r] + s.skip(p));
    }
}

/// Inserts a record into a name-ordered vector, after every record whose
/// name comes no later.
fn insert_record(out: &mut Vec<GitRepo>, r: GitRepo)
    ensures
        final(out).deep_view() == spec_insert_record(r.deep_view(), old(out).deep_view()),
{
    let ghost s = out.deep_view();
    let ghost rv = r.deep_view();
    let mut p: usize = 0;
    while p < out.len() && str_le(&out[p].name, &r.name)
        invariant
            s == out.deep_view(),
            rv == r.deep_view(),
            p <= s.len(),
            s.len() == out@.len(),
            forall|j: int| 0 <= j < p ==> spec_lex_le(#[trigger] s[j].0, rv.0),
        decreases s.len() - p,
    {
        proof {
            assert(s[p as int].0 == out@[p as int].name@);
        }
        p = p + 1;
    }
    proof {
        if p < out@.len() {
            assert(s[p as int].0 == out@[p as int].name@);
        }
        lemma_insert_at(rv, s, p as int);
    }
    out.insert(p, r);
    proof {
        assert(final(out).deep_view() =~= s.take(p as int) + seq![rv] + s.skip(p as int));
    }
}

/// Scanning one more child at the end of a listing appends that child's
/// records.
proof fn lemma_scan_children_snoc(
    entries: Seq<DirEntry>,
    e: DirEntry,
    parent_path: Seq<char>,
    depth: nat,
    max_depth: nat,
)
    ensures
        spec_scan_children(entries.push(e), parent_path, depth, max_depth) == spec_scan_children(
            entries,
            parent_path,
            depth,
            max_depth,
        ) + spec_child_records(e, parent_path, depth, max_depth),
    decreases entries.len(),
{
    let tail = spec_child_records(e, parent_path, depth, max_depth);
    if entries.len() == 0 {
        assert(entries.push(e)[0] == e);
        assert(entries.push(e).drop_first() =~= Seq::<DirEntry>::empty());
        assert(spec_scan_children(Seq::<DirEntry>::empty(), parent_path, depth, max_depth)
            == Seq::<(Seq<char>, Seq<char>)>::empty());
        assert(spec_scan_children(entries.push(e), parent_path, depth, max_depth) =~= tail);
        assert(spec_scan_children(entries, parent_path, depth, max_depth) + tail =~= tail);
    } else {
        lemma_scan_children_snoc(entries.drop_first(), e, parent_path, depth, max_depth);
        assert(entries.push(e)[0] == entries[0]);
        assert(entries.push(e).drop_first() =~= entries.drop_first().push(e));
        let head = spec_child_records(entries[0], parent_path, depth, max_depth);
        let mid = spec_scan_children(entries.drop_first(), parent_path, depth, max_depth);
        assert(head + (mid + tail) =~= (head + mid) + tail);
    }
}

/// Collects into `out` the records discovered in the directory at `path`
/// with listing `entries`, visited at `depth`.
fn scan_dir_into(
    path: &String,
    entries: &Vec<DirEntry>,
    depth: usize,
    max_depth: usize,
    out: &mut Vec<GitRepo>,
)
    ensures
        final(out).deep_view() == old(out).deep_view() + spec_scan_dir(
            path@,
            entries@,
            depth as nat,
            max_depth as nat,
        ),
    decreases entries@, 1int,
{
    let ghost base = out.deep_view();
    let ghost own = if spec_has_marker(entries@) {
        seq![(spec_repo_name(path@), path@)]
    } else {
        Seq::<(Seq<char>, Seq<char>)>::empty()
    };
    if has_marker(entries) {
        let repo = GitRepo::new(path.clone());
        proof {
            assert(repo.deep_view() == (spec_repo_name(path@), path@));
        }
        out.push(repo);
        proof {
            assert(out.deep_view() =~= base + own);
        }
    } else {
        proof {
            assert(out.deep_view() =~= base + own);
        }
    }
    if depth < max_depth {
        let mut i: usize = 0;
        proof {
            assert(entries@.take(0) =~= Seq::<DirEntry>::empty());
            assert(spec_scan_children(entries@.take(0), path@, depth as nat, max_depth as nat)
                == Seq::<(Seq<char>, Seq<char>)>::empty());
            assert(out.deep_view() =~= base + own + spec_scan_children(
                entries@.take(0),
                path@,
                depth as nat,
                max_depth as nat,
            ));
        }
        while i < entries.len()
            invariant
                i <= entries@.len(),
                depth < max_depth,
                out.deep_view() == base + own + spec_scan_children(
                    entries@.take(i as int),
                    path@,
                    depth as nat,
                    max_depth as nat,
                ),
            decreases entries@.len() - i,
        {
            proof {
                assert(entries@.take(i + 1) =~= entries@.take(i as int).push(entries@[i as int]));
                lemma_scan_children_snoc(
                    entries@.take(i as int),
                    entries@[i as int],
                    path@,
                    depth as nat,
                    max_depth as nat,
                );
            }
            match &entries[i] {
                DirEntry::Directory { name, entries: sub } => {
                    let mut child_path = path.clone();
                    push_char(&mut child_path, '/');
                    child_path.append(name.as_str());
                    proof {
                        assert(child_path@ == path@ + seq!['/'] + name@);
                        assert(decreases_to!(entries@ => entries@[i as int]));
                    }
                    scan_dir_into(&child_path, sub, depth + 1, max_depth, out);
                    proof {
                        assert(out.deep_view() =~= base + own + spec_scan_children(
                            entries@.take(i + 1),
                            path@,
                            depth as nat,
                            max_depth as nat,
                        ));
                    }
                },
                _ => {
                    proof {
                        assert(spec_child_records(
                            entries@[i as int],
                            path@,
                            depth as nat,
                            max_depth as nat,
                        ) == Seq::<(Seq<char>, Seq<char>)>::empty());
                        assert(out.deep_view() =~= base + own + spec_scan_children(
                            entries@.take(i + 1),
                            path@,
                            depth as nat,
                            max_depth as nat,
                        ));
                    }
                },
            }
            i = i + 1;
        }
        proof {
            assert(entries@.take(entries@.len() as int) =~= entries@);
            assert(base + own + spec_scan_children(entries@, path@, depth as nat, max_depth as nat)
                =~= base + (own + spec_scan_children(
                entries@,
                path@,
                depth as nat,
                max_depth as nat,
            )));
        }
    } else {
        proof {
            assert(base + own =~= base + spec_scan_dir(
                path@,
                entries@,
                depth as nat,
                max_depth as nat,
            ));
        }
    }
}

/// Scans the modelled directory tree rooted at `root_path`, whose listing is
/// `entries`, descending at most `max_depth` levels (the root is depth 0),
/// and returns the discovered repositories sorted by name, records of equal
/// name keeping their discovery order.
pub fn scan_tree(root_path: &str, entries: &Vec<DirEntry>, max_depth: usize) -> (r: Vec<GitRepo>)
    ensures
        r.deep_view() == spec_sort_records(
            spec_scan_dir(root_path@, entries@, 0, max_depth as nat),
        ),
{
    let root = root_path.to_owned();
    let mut found: Vec<GitRepo> = Vec::new();
    scan_dir_into(&root, entries, 0, max_depth, &mut found);
    proof {
        assert(found.deep_view() =~= spec_scan_dir(root_path@, entries@, 0, max_depth as nat));
    }
    sort_records(&found)
}

/// Formats repositories as the tab-separated text the selector consumes:
/// one `name<TAB>path` line per repository, newline-joined.
pub fn format_for_fzf(repos: &[GitRepo]) -> (r: String)
    ensures
        r@ == spec_encode(repos.deep_view()),
{
    encode_records(repos)
}

/// Sorts records by name, keeping the relative order of records with equal
/// names (insertion after equals).
pub fn sort_records(v: &Vec<GitRepo>) -> (r: Vec<GitRepo>)
    ensures
        r.deep_view() == spec_sort_records(v.deep_view()),
{
    let ghost dv = v.deep_view();
    let mut out: Vec<GitRepo> = Vec::new();
    let mut i: usize = 0;
    proof {
        assert(dv.take(0) =~= Seq::<(Seq<char>, Seq<char>)>::empty());
        assert(out.deep_view() =~= spec_sort_records(dv.take(0)));
    }
    while i < v.len()
        invariant
            dv == v.deep_view(),
            dv.len() == v@.len(),
            i <= dv.len(),
            out.deep_view() == spec_sort_records(dv.take(i as int)),
        decreases dv.len() - i,
    {
        let item = GitRepo { name: v[i].name.clone(), path: v[i].path.clone() };
        proof {
            assert(item.deep_view() == dv[i as int]);
        }
        insert_record(&mut out, item);
        proof {
            assert(dv.take(i + 1).drop_last() =~= dv.take(i as int));
            assert(dv.take(i + 1).last() == dv[i as int]);
        }
        i = i + 1;
    }
    proof {
        assert(dv.take(dv.len() as int) =~= dv);
    }
    out
}

} // verus!
