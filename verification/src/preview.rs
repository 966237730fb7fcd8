//! The repository preview: a colorized multi-line summary of one
//! repository, rendered from plainly gathered facts.
//!
//! Opening the repository and reading its head, status flags, commits and
//! timestamps is the caller's business; the outcome arrives here as a
//! [`RepoFacts`] value of plain data. Rendering is pure: every section is
//! independently toggleable through [`crate::config::PreviewConfig`], a
//! disabled or unavailable section contributes nothing, and the whole
//! output is the enabled sections' lines joined by newlines.

use vstd::prelude::*;
use crate::config::PreviewConfig;
use crate::records::{spec_repo_name, repo_name_of_path};
use crate::text::{
    join_lines, push_char, push_u64_dec, spec_find, spec_join, spec_u64_dec, str_to_chars,
    lemma_find_props,
};
use vstd::string::{StrSliceExecFns, StringExecFns};

verus! {

/// What the repository head resolves to.
#[derive(Debug, Clone, PartialEq, Eq)]
pub enum HeadInfo {
    /// A named branch; `name` is its short name.
    Branch { name: String },
    /// Head resolves, but not to a named branch.
    Detached,
    /// Head cannot be resolved at all.
    Unresolved,
}

/// The status flags of one changed path, one flag per condition the
/// underlying status reports; a path may set several at once.
#[derive(Debug, Clone, Copy, PartialEq, Eq)]
pub struct StatusEntry {
    pub index_new: bool,
    pub index_modified: bool,
    pub index_deleted: bool,
    pub wt_modified: bool,
    pub wt_deleted: bool,
    pub wt_new: bool,
}

/// One commit: its full hexadecimal identifier and its full message.
#[derive(Debug, Clone, PartialEq, Eq)]
pub struct CommitInfo {
    pub id_hex: String,
    pub message: String,
}

/// The head commit's timing: its age relative to now (negative for a
/// commit in the future) and its caller-rendered absolute timestamp.
#[derive(Debug, Clone, PartialEq, Eq)]
pub struct LastActivity {
    pub age_seconds: i64,
    pub absolute: String,
}

/// Everything the preview renders, gathered by the caller from one
/// repository.
#[derive(Debug, Clone)]
pub struct RepoFacts {
    /// The repository root path; the displayed name is its final segment.
    pub path: String,
    /// What head resolves to.
    pub head: HeadInfo,
    /// The status flags of every changed path, or None when the status
    /// could not be read.
    pub status: Option<Vec<StatusEntry>>,
    /// The head commit's timing, or None when head cannot be peeled to a
    /// commit.
    pub last_activity: Option<LastActivity>,
    /// The most recent commits, newest first.
    pub commits: Vec<CommitInfo>,
}

/// The magnitude of a signed duration in seconds.
pub open spec fn spec_abs_seconds(s: int) -> nat {
    if s >= 0 {
        s as nat
    } else {
        (-s) as nat
    }
}

/// The relative-time phrase for a duration: the magnitude is bucketed by
/// whole-second thresholds, divided down to the bucket's unit with integer
/// floor division, and rendered as `{count} {unit} ago`. A boundary value
/// belongs to the larger bucket, and a future duration reads like the past
/// one of the same magnitude.
pub open spec fn spec_format_duration(seconds: i64) -> Seq<char> {
    let a = spec_abs_seconds(seconds as int);
    if a < 60 {
        spec_u64_dec(a) + " seconds ago"@
    } else if a < 3600 {
        spec_u64_dec(a / 60) + " minutes ago"@
    } else if a < 86400 {
        spec_u64_dec(a / 3600) + " hours ago"@
    } else if a < 604800 {
        spec_u64_dec(a / 86400) + " days ago"@
    } else if a < 2592000 {
        spec_u64_dec(a / 604800) + " weeks ago"@
    } else if a < 31536000 {
        spec_u64_dec(a / 2592000) + " months ago"@
    } else {
        spec_u64_dec(a / 31536000) + " years ago"@
    }
}

/// Renders a duration as a relative-time phrase, total over every signed
/// duration.
pub fn format_duration(seconds: i64) -> (r: String)
    ensures
        r@ == spec_format_duration(seconds),
{
    let a: u64 = if seconds >= 0 {
        seconds as u64
    } else if seconds == -9223372036854775807i64 - 1 {
        9223372036854775808u64
    } else {
        (-seconds) as u64
    };
    proof {
        assert(a as nat == spec_abs_seconds(seconds as int));
    }
    let mut r = String::new();
    if a < 60 {
        push_u64_dec(&mut r, a);
        r.append(" seconds ago");
    } else if a < 3600 {
        push_u64_dec(&mut r, a / 60);
        r.append(" minutes ago");
    } else if a < 86400 {
        push_u64_dec(&mut r, a / 3600);
        r.append(" hours ago");
    } else if a < 604800 {
        push_u64_dec(&mut r, a / 86400);
        r.append(" days ago");
    } else if a < 2592000 {
        push_u64_dec(&mut r, a / 604800);
        r.append(" weeks ago");
    } else if a < 31536000 {
        push_u64_dec(&mut r, a / 2592000);
        r.append(" months ago");
    } else {
        push_u64_dec(&mut r, a / 31536000);
        r.append(" years ago");
    }
    proof {
        assert(r@ =~= spec_format_duration(seconds));
    }
    r
}

/// A staged change: any index-level addition, modification or deletion.
pub open spec fn spec_is_staged(e: StatusEntry) -> bool {
    e.index_new || e.index_modified || e.index_deleted
}

/// An unstaged change: a working-tree modification or deletion of a
/// tracked file.
pub open spec fn spec_is_unstaged(e: StatusEntry) -> bool {
    e.wt_modified || e.wt_deleted
}

/// An untracked file: new in the working tree.
pub open spec fn spec_is_untracked(e: StatusEntry) -> bool {
    e.wt_new
}

/// How many entries of the sequence are staged changes.
pub open spec fn spec_staged_count(s: Seq<StatusEntry>) -> nat
    decreases s.len(),
{
    if s.len() == 0 {
        0
    } else {
        spec_staged_count(s.drop_last()) + if spec_is_staged(s.last()) {
            1nat
        } else {
            0nat
        }
    }
}

/// How many entries of the sequence are unstaged changes.
pub open spec fn spec_unstaged_count(s: Seq<StatusEntry>) -> nat
    decreases s.len(),
{
    if s.len() == 0 {
        0
    } else {
        spec_unstaged_count(s.drop_last()) + if spec_is_unstaged(s.last()) {
            1nat
        } else {
            0nat
        }
    }
}

/// How many entries of the sequence are untracked files.
pub open spec fn spec_untracked_count(s: Seq<StatusEntry>) -> nat
    decreases s.len(),
{
    if s.len() == 0 {
        0
    } else {
        spec_untracked_count(s.drop_last()) + if spec_is_untracked(s.last()) {
            1nat
        } else {
            0nat
        }
    }
}

/// Tallies the three status buckets. The buckets are independent: one
/// entry may raise several counters at once.
pub fn tally_status(entries: &Vec<StatusEntry>) -> (r: (usize, usize, usize))
    ensures
        r.0 as nat == spec_staged_count(entries@),
        r.1 as nat == spec_unstaged_count(entries@),
        r.2 as nat == spec_untracked_count(entries@),
{
    let mut staged: usize = 0;
    let mut unstaged: usize = 0;
    let mut untracked: usize = 0;
    let mut i: usize = 0;
    proof {
        assert(entries@.take(0) =~= Seq::<StatusEntry>::empty());
    }
    while i < entries.len()
        invariant
            i <= entries@.len(),
            staged as nat == spec_staged_count(entries@.take(i as int)),
            unstaged as nat == spec_unstaged_count(entries@.take(i as int)),
            untracked as nat == spec_untracked_count(entries@.take(i as int)),
            staged <= i,
            unstaged <= i,
            untracked <= i,
        decreases entries@.len() - i,
    {
        let e = entries[i];
        proof {
            assert(entries@.take(i + 1).drop_last() =~= entries@.take(i as int));
            assert(entries@.take(i + 1).last() == entries@[i as int]);
        }
        if e.index_new || e.index_modified || e.index_deleted {
            staged = staged + 1;
        }
        if e.wt_modified || e.wt_deleted {
            unstaged = unstaged + 1;
        }
        if e.wt_new {
            untracked = untracked + 1;
        }
        i = i + 1;
    }
    proof {
        assert(entries@.take(entries@.len() as int) =~= entries@);
    }
    (staged, unstaged, untracked)
}

/// The first seven characters of a commit identifier; a shorter identifier
/// stays whole.
pub open spec fn spec_short_id(s: Seq<char>) -> Seq<char> {
    if s.len() <= 7 {
        s
    } else {
        s.take(7)
    }
}

/// The first line of a commit message: everything before the first
/// newline, with one trailing carriage return stripped; the whole message
/// when it has no newline.
pub open spec fn spec_first_line(m: Seq<char>) -> Seq<char> {
    let i = spec_find(m, '\n');
    let l = if i < 0 {
        m
    } else {
        m.take(i)
    };
    if l.len() > 0 && l.last() == '\r' {
        l.drop_last()
    } else {
        l
    }
}

/// Extracts the first line of a commit message.
fn first_line(message: &str) -> (r: String)
    ensures
        r@ == spec_first_line(message@),
{
    let chars = str_to_chars(message);
    let mut end: usize = 0;
    let n = chars.len();
    while end < n && chars[end] != '\n'
        invariant
            chars@ == message@,
            n == chars@.len(),
            end <= n,
            forall|j: int| 0 <= j < end ==> chars@[j] != '\n',
        decreases n - end,
    {
        end = end + 1;
    }
    proof {
        lemma_find_props(message@, '\n');
        let i = spec_find(message@, '\n');
        if end < n {
            assert(i >= 0);
            assert(i == end as int) by {
                if i < end {
                    assert(message@[i] == '\n');
                }
            }
        } else {
            assert(i == -1) by {
                if i >= 0 {
                    assert(message@[i] == '\n');
                }
            }
        }
    }
    let mut last: usize = end;
    if end > 0 && chars[end - 1] == '\r' {
        last = end - 1;
    }
    proof {
        let i = spec_find(message@, '\n');
        let l = if i < 0 {
            message@
        } else {
            message@.take(i)
        };
        assert(l =~= message@.take(end as int));
        if end > 0 && message@[end - 1] == '\r' {
            assert(l.drop_last() =~= message@.take(last as int));
        }
        assert(spec_first_line(message@) =~= message@.take(last as int));
    }
    let mut r = String::new();
    let mut i: usize = 0;
    while i < last
        invariant
            chars@ == message@,
            last <= chars@.len(),
            i <= last,
            r@ == message@.take(i as int),
        decreases last - i,
    {
        push_char(&mut r, chars[i]);
        i = i + 1;
        proof {
            assert(r@ =~= message@.take(i as int));
        }
    }
    r
}

/// The always-present heading: the repository name (final path segment),
/// its location, and a blank separator line.
pub open spec fn spec_header_lines(f: RepoFacts) -> Seq<Seq<char>> {
    seq![
        "\x1b[1;36mRepository:\x1b[0m "@ + spec_repo_name(f.path@),
        "\x1b[1;36mLocation:\x1b[0m "@ + f.path@,
        Seq::<char>::empty(),
    ]
}

/// The branch section: the branch's short name, a detached-head sentinel,
/// or nothing at all when head is unresolved or the section is off.
pub open spec fn spec_branch_lines(f: RepoFacts, c: PreviewConfig) -> Seq<Seq<char>> {
    if c.show_branch {
        match f.head {
            HeadInfo::Branch { name } => seq!["\x1b[1;33mBranch:\x1b[0m "@ + name@],
            HeadInfo::Detached => seq!["\x1b[1;33mBranch:\x1b[0m (detached HEAD)"@],
            HeadInfo::Unresolved => seq![],
        }
    } else {
        seq![]
    }
}

/// The last-activity section: the relative phrase and the absolute
/// rendering side by side, then a blank line; when head has no commit only
/// the blank line remains.
pub open spec fn spec_activity_lines(f: RepoFacts, c: PreviewConfig) -> Seq<Seq<char>> {
    if c.show_last_activity {
        (match f.last_activity {
            Some(a) => seq![
                "\x1b[1;35mLast Activity:\x1b[0m "@ + spec_format_duration(a.age_seconds) + " ("@
                    + a.absolute@ + ")"@,
            ],
            None => seq![],
        }) + seq![Seq::<char>::empty()]
    } else {
        seq![]
    }
}

/// The body of the status section: one line per nonzero bucket, or the
/// clean-tree line when all three are zero.
pub open spec fn spec_status_body(st: nat, un: nat, tr: nat) -> Seq<Seq<char>> {
    if st == 0 && un == 0 && tr == 0 {
        seq!["  Clean working tree"@]
    } else {
        (if st > 0 {
            seq!["  \x1b[32m+"@ + spec_u64_dec(st) + " staged\x1b[0m"@]
        } else {
            seq![]
        }) + (if un > 0 {
            seq!["  \x1b[33m~"@ + spec_u64_dec(un) + " unstaged\x1b[0m"@]
        } else {
            seq![]
        }) + (if tr > 0 {
            seq!["  \x1b[31m?"@ + spec_u64_dec(tr) + " untracked\x1b[0m"@]
        } else {
            seq![]
        })
    }
}

/// The status section: heading, bucket tallies and a blank line; nothing
/// when the section is off or the status could not be read.
pub open spec fn spec_status_lines(f: RepoFacts, c: PreviewConfig) -> Seq<Seq<char>> {
    if c.show_status {
        match f.status {
            Some(es) => seq!["\x1b[1;35mStatus:\x1b[0m"@] + spec_status_body(
                spec_staged_count(es@),
                spec_unstaged_count(es@),
                spec_untracked_count(es@),
            ) + seq![Seq::<char>::empty()],
            None => seq![],
        }
    } else {
        seq![]
    }
}

/// One commit's line: its shortened identifier and the first line of its
/// message.
pub open spec fn spec_commit_line(ci: CommitInfo) -> Seq<char> {
    "  \x1b[33m"@ + spec_short_id(ci.id_hex@) + "\x1b[0m "@ + spec_first_line(ci.message@)
}

/// The per-commit lines of a commit sequence.
pub open spec fn spec_commit_entry_lines(cs: Seq<CommitInfo>) -> Seq<Seq<char>> {
    cs.map_values(|ci: CommitInfo| spec_commit_line(ci))
}

/// The recent-commits section: the heading, then at most `recent_commits`
/// entries; a zero count disables the whole section.
pub open spec fn spec_commit_lines(f: RepoFacts, c: PreviewConfig) -> Seq<Seq<char>> {
    if c.recent_commits > 0 {
        let shown = if f.commits@.len() <= c.recent_commits {
            f.commits@
        } else {
            f.commits@.take(c.recent_commits as int)
        };
        seq!["\x1b[1;32mRecent commits:\x1b[0m"@] + spec_commit_entry_lines(shown)
    } else {
        seq![]
    }
}

/// Every line of the preview, section by section.
pub open spec fn spec_preview_lines(f: RepoFacts, c: PreviewConfig) -> Seq<Seq<char>> {
    spec_header_lines(f) + spec_branch_lines(f, c) + spec_activity_lines(f, c) + spec_status_lines(
        f,
        c,
    ) + spec_commit_lines(f, c)
}

/// The whole preview: the enabled sections' lines joined by newlines.
pub open spec fn spec_render_preview(f: RepoFacts, c: PreviewConfig) -> Seq<char> {
    spec_join(spec_preview_lines(f, c), '\n')
}

fn push_header_lines(lines: &mut Vec<String>, f: &RepoFacts)
    ensures
        final(lines).deep_view() == old(lines).deep_view() + spec_header_lines(*f),
{
    let ghost base = lines.deep_view();
    let mut l1: String = "\x1b[1;36mRepository:\x1b[0m ".to_owned();
    let name = repo_name_of_path(f.path.as_str());
    l1.append(name.as_str());
    let ghost v1 = l1@;
    lines.push(l1);
    let mut l2: String = "\x1b[1;36mLocation:\x1b[0m ".to_owned();
    l2.append(f.path.as_str());
    let ghost v2 = l2@;
    lines.push(l2);
    lines.push(String::new());
    proof {
        assert(lines.deep_view() =~= base + spec_header_lines(*f));
    }
}

fn push_branch_lines(lines: &mut Vec<String>, f: &RepoFacts, c: &PreviewConfig)
    ensures
        final(lines).deep_view() == old(lines).deep_view() + spec_branch_lines(*f, *c),
{
    let ghost base = lines.deep_view();
    if c.show_branch {
        match &f.head {
            HeadInfo::Branch { name } => {
                let mut l: String = "\x1b[1;33mBranch:\x1b[0m ".to_owned();
                l.append(name.as_str());
                lines.push(l);
            },
            HeadInfo::Detached => {
                let l: String = "\x1b[1;33mBranch:\x1b[0m (detached HEAD)".to_owned();
                lines.push(l);
            },
            HeadInfo::Unresolved => {},
        }
    }
    proof {
        assert(lines.deep_view() =~= base + spec_branch_lines(*f, *c));
    }
}

fn push_activity_lines(lines: &mut Vec<String>, f: &RepoFacts, c: &PreviewConfig)
    ensures
        final(lines).deep_view() == old(lines).deep_view() + spec_activity_lines(*f, *c),
{
    let ghost base = lines.deep_view();
    if c.show_last_activity {
        match &f.last_activity {
            Some(a) => {
                let mut l: String = "\x1b[1;35mLast Activity:\x1b[0m ".to_owned();
                let relative = format_duration(a.age_seconds);
                l.append(relative.as_str());
                l.append(" (");
                l.append(a.absolute.as_str());
                l.append(")");
                lines.push(l);
            },
            None => {},
        }
        lines.push(String::new());
    }
    proof {
        assert(lines.deep_view() =~= base + spec_activity_lines(*f, *c));
    }
}

fn push_status_lines(lines: &mut Vec<String>, f: &RepoFacts, c: &PreviewConfig)
    ensures
        final(lines).deep_view() == old(lines).deep_view() + spec_status_lines(*f, *c),
{
    let ghost base = lines.deep_view();
    if c.show_status {
        match &f.status {
            Some(entries) => {
                lines.push("\x1b[1;35mStatus:\x1b[0m".to_owned());
                let counts = tally_status(entries);
                let staged = counts.0;
                let unstaged = counts.1;
                let untracked = counts.2;
                if staged > 0 || unstaged > 0 || untracked > 0 {
                    if staged > 0 {
                        let mut l: String = "  \x1b[32m+".to_owned();
                        push_u64_dec(&mut l, staged as u64);
                        l.append(" staged\x1b[0m");
                        lines.push(l);
                    }
                    if unstaged > 0 {
                        let mut l: String = "  \x1b[33m~".to_owned();
                        push_u64_dec(&mut l, unstaged as u64);
                        l.append(" unstaged\x1b[0m");
                        lines.push(l);
                    }
                    if untracked > 0 {
                        let mut l: String = "  \x1b[31m?".to_owned();
                        push_u64_dec(&mut l, untracked as u64);
                        l.append(" untracked\x1b[0m");
                        lines.push(l);
                    }
                } else {
                    lines.push("  Clean working tree".to_owned());
                }
                lines.push(String::new());
            },
            None => {},
        }
    }
    proof {
        assert(lines.deep_view() =~= base + spec_status_lines(*f, *c));
    }
}

fn push_commit_lines(lines: &mut Vec<String>, f: &RepoFacts, c: &PreviewConfig)
    ensures
        final(lines).deep_view() == old(lines).deep_view() + spec_commit_lines(*f, *c),
{
    let ghost base = lines.deep_view();
    if c.recent_commits > 0 {
        lines.push("\x1b[1;32mRecent commits:\x1b[0m".to_owned());
        let shown_n: usize = if f.commits.len() <= c.recent_commits {
            f.commits.len()
        } else {
            c.recent_commits
        };
        let ghost shown = if f.commits@.len() <= c.recent_commits {
            f.commits@
        } else {
            f.commits@.take(c.recent_commits as int)
        };
        proof {
            assert(shown =~= f.commits@.take(shown_n as int));
            assert(spec_commit_entry_lines(shown.take(0)) =~= Seq::<Seq<char>>::empty());
            assert(lines.deep_view() =~= base + seq!["\x1b[1;32mRecent commits:\x1b[0m"@]
                + spec_commit_entry_lines(shown.take(0)));
        }
        let mut j: usize = 0;
        while j < shown_n
            invariant
                shown == f.commits@.take(shown_n as int),
                shown_n <= f.commits@.len(),
                j <= shown_n,
                lines.deep_view() == base + seq!["\x1b[1;32mRecent commits:\x1b[0m"@]
                    + spec_commit_entry_lines(shown.take(j as int)),
            decreases shown_n - j,
        {
            let mut l: String = "  \x1b[33m".to_owned();
            let sid = short_id(f.commits[j].id_hex.as_str());
            l.append(sid.as_str());
            l.append("\x1b[0m ");
            let fl = first_line(f.commits[j].message.as_str());
            l.append(fl.as_str());
            let ghost lv = l@;
            let ghost prev = lines.deep_view();
            proof {
                assert(shown[j as int] == f.commits@[j as int]);
                assert(lv == spec_commit_line(shown[j as int]));
            }
            lines.push(l);
            proof {
                assert(lines.deep_view() =~= prev.push(lv));
                assert(spec_commit_entry_lines(shown.take(j + 1)) =~= spec_commit_entry_lines(
                    shown.take(j as int),
                ).push(spec_commit_line(shown[j as int])));
                assert(lines.deep_view() =~= base + seq!["\x1b[1;32mRecent commits:\x1b[0m"@]
                    + spec_commit_entry_lines(shown.take(j + 1)));
            }
            j = j + 1;
        }
        proof {
            assert(shown.take(shown_n as int) =~= shown);
        }
    }
    proof {
        assert(lines.deep_view() =~= base + spec_commit_lines(*f, *c));
    }
}

/// Renders the preview of one repository: the heading, then each enabled
/// section in order — branch, last activity, status tallies, recent
/// commits — joined by newlines. A disabled or unavailable section
/// contributes nothing.
pub fn render_preview(facts: &RepoFacts, config: &PreviewConfig) -> (r: String)
    ensures
        r@ == spec_render_preview(*facts, *config),
{
    let mut lines: Vec<String> = Vec::new();
    push_header_lines(&mut lines, facts);
    push_branch_lines(&mut lines, facts, config);
    push_activity_lines(&mut lines, facts, config);
    push_status_lines(&mut lines, facts, config);
    push_commit_lines(&mut lines, facts, config);
    proof {
        assert(lines.deep_view() =~= spec_preview_lines(*facts, *config));
    }
    join_lines(&lines, '\n')
}

/// Shortens a commit identifier to its first seven characters.
fn short_id(id_hex: &str) -> (r: String)
    ensures
        r@ == spec_short_id(id_hex@),
{
    let chars = str_to_chars(id_hex);
    let take_n: usize = if chars.len() <= 7 {
        chars.len()
    } else {
        7
    };
    let mut r = String::new();
    let mut i: usize = 0;
    while i < take_n
        invariant
            chars@ == id_hex@,
            take_n <= chars@.len(),
            i <= take_n,
            r@ == id_hex@.take(i as int),
        decreases take_n - i,
    {
        push_char(&mut r, chars[i]);
        i = i + 1;
        proof {
            assert(r@ =~= id_hex@.take(i as int));
        }
    }
    proof {
        if chars@.len() <= 7 {
            assert(id_hex@.take(take_n as int) =~= id_hex@);
        }
    }
    r
}

} // verus!
