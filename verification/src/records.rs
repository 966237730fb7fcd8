//! Repository records and their on-disk text form.
//!
//! A record holds the name and absolute path of one discovered repository.
//! Records are exchanged as text: one record per line, name and path
//! separated by a single tab, lines separated by a single newline and no
//! trailing newline. The same form feeds the cache file and the external
//! selector.

use vstd::prelude::*;
use crate::text::{
    chars_to_string, push_char, spec_split, split_chars, str_to_chars, lemma_split_no_sep,
    lemma_split_step,
};
use vstd::string::StringExecFns;

verus! {

/// One discovered git repository: the name (final path segment) and the
/// path of the directory that contains the `.git` marker directory.
#[derive(Debug, Clone, PartialEq, Eq)]
pub struct GitRepo {
    pub name: String,
    pub path: String,
}

impl View for GitRepo {
    type V = (Seq<char>, Seq<char>);

    open spec fn view(&self) -> (Seq<char>, Seq<char>) {
        (self.name@, self.path@)
    }
}

impl DeepView for GitRepo {
    type V = (Seq<char>, Seq<char>);

    open spec fn deep_view(&self) -> (Seq<char>, Seq<char>) {
        self.view()
    }
}

/// The path with every trailing separator removed.
pub open spec fn spec_trim_slashes(p: Seq<char>) -> Seq<char>
    decreases p.len(),
{
    if p.len() > 0 && p.last() == '/' {
        spec_trim_slashes(p.drop_last())
    } else {
        p
    }
}

/// The suffix of `t` after its last separator; `t` itself when it has none.
pub open spec fn spec_after_last_slash(t: Seq<char>) -> Seq<char>
    decreases t.len(),
{
    if t.len() == 0 {
        t
    } else if t.last() == '/' {
        seq![]
    } else {
        spec_after_last_slash(t.drop_last()) + seq![t.last()]
    }
}

/// The repository name derived from a path: its final segment, ignoring
/// trailing separators; a fallback when the path has no usable final segment
/// (empty, a bare root, or a parent reference).
pub open spec fn spec_repo_name(p: Seq<char>) -> Seq<char> {
    let s = spec_after_last_slash(spec_trim_slashes(p));
    if s.len() == 0 || s == ".."@ {
        "unknown"@
    } else {
        s
    }
}

impl GitRepo {
    /// Builds a record for the repository at `path`, deriving the name from
    /// the final path segment.
    pub fn new(path: String) -> (r: GitRepo)
        ensures
            r.path@ == path@,
            r.name@ == spec_repo_name(path@),
    {
        let name = repo_name_of_path(path.as_str());
        GitRepo { name, path }
    }
}

/// Extracts the final path segment as the repository name.
pub fn repo_name_of_path(path: &str) -> (r: String)
    ensures
        r@ == spec_repo_name(path@),
{
    let chars = str_to_chars(path);
    let mut end: usize = chars.len();
    proof {
        assert(path@.take(chars@.len() as int) =~= path@);
    }
    while end > 0 && chars[end - 1] == '/'
        invariant
            chars@ == path@,
            end <= chars@.len(),
            spec_trim_slashes(path@) == spec_trim_slashes(path@.take(end as int)),
        decreases end,
    {
        proof {
            assert(path@.take(end as int).last() == path@[end - 1]);
            assert(path@.take(end as int).drop_last() =~= path@.take(end - 1));
        }
        end = end - 1;
    }
    proof {
        if end > 0 {
            assert(path@.take(end as int).last() == path@[end - 1]);
        }
        assert(spec_trim_slashes(path@.take(end as int)) == path@.take(end as int));
    }
    let ghost t = spec_trim_slashes(path@);
    let mut start: usize = end;
    proof {
        assert(t.take(end as int) =~= t);
        assert(spec_after_last_slash(t) =~= spec_after_last_slash(t.take(end as int)) + t.subrange(
            end as int,
            end as int,
        ));
    }
    while start > 0 && chars[start - 1] != '/'
        invariant
            chars@ == path@,
            start <= end <= chars@.len(),
            t == path@.take(end as int),
            spec_after_last_slash(t) == spec_after_last_slash(t.take(start as int)) + t.subrange(
                start as int,
                end as int,
            ),
        decreases start,
    {
        proof {
            assert(t.take(start as int).last() == path@[start - 1]);
            assert(t.take(start as int).drop_last() =~= t.take(start - 1));
            assert(spec_after_last_slash(t.take(start - 1)) + seq![t[start - 1]] + t.subrange(
                start as int,
                end as int,
            ) =~= spec_after_last_slash(t.take(start - 1)) + t.subrange(start - 1, end as int));
        }
        start = start - 1;
    }
    proof {
        if start > 0 {
            assert(t.take(start as int).last() == path@[start - 1]);
            assert(spec_after_last_slash(t.take(start as int)) =~= Seq::<char>::empty());
        } else {
            assert(t.take(0) =~= Seq::<char>::empty());
        }
        assert(spec_after_last_slash(t) =~= t.subrange(start as int, end as int));
    }
    if start == end {
        proof {
            reveal_strlit("unknown");
        }
        return "unknown".to_owned();
    }
    if end - start == 2 && chars[start] == '.' && chars[start + 1] == '.' {
        proof {
            reveal_strlit("..");
            reveal_strlit("unknown");
            assert(t.subrange(start as int, end as int) =~= "..".view());
        }
        return "unknown".to_owned();
    }
    proof {
        reveal_strlit("..");
        assert(".."@.len() == 2);
        if t.subrange(start as int, end as int) == ".."@ {
            assert(t.subrange(start as int, end as int).len() == 2);
            assert(t.subrange(start as int, end as int)[0] == ".."@[0]);
            assert(t.subrange(start as int, end as int)[1] == ".."@[1]);
            assert(t[start as int] == ".."@[0]);
            assert(t[start as int + 1] == ".."@[1]);
            assert(chars@[start as int] == '.');
            assert(chars@[start as int + 1] == '.');
        }
    }
    let mut r = String::new();
    let mut i: usize = start;
    while i < end
        invariant
            chars@ == path@,
            start <= i <= end <= chars@.len(),
            r@ == path@.subrange(start as int, i as int),
        decreases end - i,
    {
        push_char(&mut r, chars[i]);
        i = i + 1;
        proof {
            assert(r@ =~= path@.subrange(start as int, i as int));
        }
    }
    proof {
        assert(t.subrange(start as int, end as int) =~= path@.subrange(start as int, end as int));
    }
    r
}

/// The text of one record: name, a tab, then path.
pub open spec fn spec_encode_line(r: (Seq<char>, Seq<char>)) -> Seq<char> {
    r.0 + seq!['\t'] + r.1
}

/// The text of a whole record sequence: lines joined by newlines, with no
/// trailing newline.
pub open spec fn spec_encode(rs: Seq<(Seq<char>, Seq<char>)>) -> Seq<char>
    decreases rs.len(),
{
    if rs.len() == 0 {
        seq![]
    } else if rs.len() == 1 {
        spec_encode_line(rs[0])
    } else {
        spec_encode_line(rs[0]) + seq!['\n'] + spec_encode(rs.drop_first())
    }
}

/// A line parses to a record exactly when splitting it on tab yields exactly
/// two fields.
pub open spec fn spec_parse_line(l: Seq<char>) -> Option<(Seq<char>, Seq<char>)> {
    let parts = spec_split(l, '\t');
    if parts.len() == 2 {
        Some((parts[0], parts[1]))
    } else {
        None
    }
}

/// The records recovered from a sequence of lines; lines that do not parse
/// are dropped.
pub open spec fn spec_decode_lines(lines: Seq<Seq<char>>) -> Seq<(Seq<char>, Seq<char>)>
    decreases lines.len(),
{
    if lines.len() == 0 {
        seq![]
    } else {
        match spec_parse_line(lines[0]) {
            Some(r) => seq![r] + spec_decode_lines(lines.drop_first()),
            None => spec_decode_lines(lines.drop_first()),
        }
    }
}

/// The records recovered from a whole text: split into lines, parse each,
/// drop the lines that do not parse.
pub open spec fn spec_decode(s: Seq<char>) -> Seq<(Seq<char>, Seq<char>)> {
    spec_decode_lines(spec_split(s, '\n'))
}

/// A record is clean when neither field contains a tab or a newline; only
/// clean records survive the text form unchanged.
pub open spec fn spec_clean_field(f: Seq<char>) -> bool {
    forall|j: int| 0 <= j < f.len() ==> f[j] != '\t' && f[j] != '\n'
}

/// Both fields of the record are clean.
pub open spec fn spec_clean_record(r: (Seq<char>, Seq<char>)) -> bool {
    spec_clean_field(r.0) && spec_clean_field(r.1)
}

/// Splitting off the last record: for two or more records the text is the
/// text of the rest, a newline, then the last line.
proof fn lemma_encode_snoc(rs: Seq<(Seq<char>, Seq<char>)>)
    requires
        rs.len() >= 2,
    ensures
        spec_encode(rs) == spec_encode(rs.drop_last()) + seq!['\n'] + spec_encode_line(rs.last()),
    decreases rs.len(),
{
    if rs.len() == 2 {
        assert(rs.drop_first().len() == 1);
        assert(rs.drop_first()[0] == rs[1]);
        assert(rs.drop_last().len() == 1);
        assert(rs.drop_last()[0] == rs[0]);
        assert(spec_encode(rs) == spec_encode_line(rs[0]) + seq!['\n'] + spec_encode(
            rs.drop_first(),
        ));
        assert(spec_encode(rs.drop_first()) == spec_encode_line(rs[1]));
        assert(spec_encode(rs.drop_last()) == spec_encode_line(rs[0]));
        assert(spec_encode_line(rs[0]) + seq!['\n'] + spec_encode_line(rs[1])
            =~= spec_encode(rs.drop_last()) + seq!['\n'] + spec_encode_line(rs.last()));
    } else {
        let rest = rs.drop_first();
        lemma_encode_snoc(rest);
        assert(rs.drop_last().len() >= 2);
        assert(rs.drop_last()[0] == rs[0]);
        assert(rs.drop_last().drop_first() =~= rest.drop_last());
        assert(rest.last() == rs.last());
        assert(spec_encode(rs) == spec_encode_line(rs[0]) + seq!['\n'] + spec_encode(rest));
        assert(spec_encode(rs.drop_last()) == spec_encode_line(rs[0]) + seq!['\n'] + spec_encode(
            rs.drop_last().drop_first(),
        ));
        assert(spec_encode_line(rs[0]) + seq!['\n'] + (spec_encode(rest.drop_last()) + seq!['\n']
            + spec_encode_line(rs.last())) =~= (spec_encode_line(rs[0]) + seq!['\n']
            + spec_encode(rest.drop_last())) + seq!['\n'] + spec_encode_line(rs.last()));
    }
}

/// Adding one line at the end: the decoded records are those of the earlier
/// lines followed by whatever the new line parses to.
proof fn lemma_decode_lines_snoc(lines: Seq<Seq<char>>, l: Seq<char>)
    ensures
        spec_decode_lines(lines.push(l)) == spec_decode_lines(lines) + match spec_parse_line(l) {
            Some(r) => seq![r],
            None => Seq::<(Seq<char>, Seq<char>)>::empty(),
        },
    decreases lines.len(),
{
    let tail = match spec_parse_line(l) {
        Some(r) => seq![r],
        None => Seq::<(Seq<char>, Seq<char>)>::empty(),
    };
    if lines.len() == 0 {
        assert(lines.push(l)[0] == l);
        assert(lines.push(l).drop_first() =~= Seq::<Seq<char>>::empty());
        assert(spec_decode_lines(Seq::<Seq<char>>::empty()) == Seq::<(
            Seq<char>,
            Seq<char>,
        )>::empty());
        assert(spec_decode_lines(lines) == Seq::<(Seq<char>, Seq<char>)>::empty());
        assert(spec_decode_lines(lines.push(l)) =~= spec_decode_lines(lines) + tail);
    } else {
        lemma_decode_lines_snoc(lines.drop_first(), l);
        assert(lines.push(l)[0] == lines[0]);
        assert(lines.push(l).drop_first() =~= lines.drop_first().push(l));
        match spec_parse_line(lines[0]) {
            Some(r) => {
                assert(seq![r] + (spec_decode_lines(lines.drop_first()) + tail) =~= (seq![r]
                    + spec_decode_lines(lines.drop_first())) + tail);
            },
            None => {},
        }
    }
}

/// Encodes records as tab-separated lines joined by newlines.
pub fn encode_records(repos: &[GitRepo]) -> (r: String)
    ensures
        r@ == spec_encode(repos.deep_view()),
{
    let ghost rs = repos.deep_view();
    let mut r = String::new();
    let mut i: usize = 0;
    while i < repos.len()
        invariant
            rs == repos.deep_view(),
            i <= rs.len(),
            r@ == spec_encode(rs.take(i as int)),
        decreases rs.len() - i,
    {
        if i > 0 {
            push_char(&mut r, '\n');
        }
        r.append(repos[i].name.as_str());
        push_char(&mut r, '\t');
        r.append(repos[i].path.as_str());
        proof {
            let pref = rs.take(i + 1);
            assert(pref.last() == rs[i as int]);
            assert(pref.drop_last() =~= rs.take(i as int));
            if i == 0 {
                assert(pref.len() == 1);
                assert(r@ =~= spec_encode_line(rs[0]));
                assert(pref[0] == rs[0]);
            } else {
                lemma_encode_snoc(pref);
                assert(r@ =~= spec_encode(rs.take(i as int)) + seq!['\n'] + spec_encode_line(
                    rs[i as int],
                ));
            }
        }
        i = i + 1;
    }
    proof {
        assert(rs.take(rs.len() as int) =~= rs);
    }
    r
}

/// Decodes text into records: one per line with exactly two tab-separated
/// fields; all other lines are dropped.
pub fn decode_records(contents: &str) -> (r: Vec<GitRepo>)
    ensures
        r.deep_view() == spec_decode(contents@),
{
    let chars = str_to_chars(contents);
    let lines = split_chars(&chars, '\n');
    let ghost ls = lines.deep_view();
    let mut r: Vec<GitRepo> = Vec::new();
    let mut i: usize = 0;
    proof {
        assert(ls.take(0) =~= Seq::<Seq<char>>::empty());
        assert(r.deep_view() =~= spec_decode_lines(ls.take(0)));
    }
    while i < lines.len()
        invariant
            ls == lines.deep_view(),
            ls.len() == lines@.len(),
            forall|j: int| 0 <= j < ls.len() ==> ls[j] == lines@[j].deep_view(),
            i <= ls.len(),
            r.deep_view() == spec_decode_lines(ls.take(i as int)),
        decreases ls.len() - i,
    {
        let parts = split_chars(&lines[i], '\t');
        proof {
            assert(ls.take(i + 1) =~= ls.take(i as int).push(ls[i as int]));
            lemma_decode_lines_snoc(ls.take(i as int), ls[i as int]);
            assert(lines@[i as int].deep_view() =~= lines@[i as int]@);
            assert(parts.deep_view() == spec_split(ls[i as int], '\t'));
            assert(parts@.len() == parts.deep_view().len());
        }
        if parts.len() == 2 {
            let name = chars_to_string(&parts[0]);
            let path = chars_to_string(&parts[1]);
            let ghost old_rs = r.deep_view();
            let repo = GitRepo { name, path };
            proof {
                assert(parts.deep_view()[0] == parts@[0].deep_view());
                assert(parts.deep_view()[1] == parts@[1].deep_view());
                assert(parts@[0].deep_view() =~= parts@[0]@);
                assert(parts@[1].deep_view() =~= parts@[1]@);
                assert(repo.deep_view() == spec_parse_line(ls[i as int])->Some_0);
            }
            r.push(repo);
            proof {
                assert(r.deep_view() =~= old_rs.push(spec_parse_line(ls[i as int])->Some_0));
                assert(old_rs.push(spec_parse_line(ls[i as int])->Some_0) =~= old_rs + seq![
                    spec_parse_line(ls[i as int])->Some_0,
                ]);
            }
        } else {
            proof {
                assert(spec_parse_line(ls[i as int]) is None);
                assert(r.deep_view() + Seq::<(Seq<char>, Seq<char>)>::empty() =~= r.deep_view());
            }
        }
        i = i + 1;
    }
    proof {
        assert(ls.take(ls.len() as int) =~= ls);
    }
    r
}

/// Round trip: clean records encode to text that decodes back to exactly the
/// same records, in the same order.
pub proof fn lemma_encode_decode(rs: Seq<(Seq<char>, Seq<char>)>)
    requires
        forall|k: int| 0 <= k < rs.len() ==> spec_clean_record(#[trigger] rs[k]),
    ensures
        spec_decode(spec_encode(rs)) == rs,
    decreases rs.len(),
{
    if rs.len() == 0 {
        let s = spec_encode(rs);
        assert(s.len() == 0);
        lemma_split_no_sep(s, '\n');
        assert(spec_split(s, '\n') == seq![s]);
        lemma_split_no_sep(s, '\t');
        assert(spec_parse_line(s) is None);
        assert(seq![s].drop_first() =~= Seq::<Seq<char>>::empty());
        assert(spec_decode_lines(Seq::<Seq<char>>::empty()) =~= Seq::<(Seq<char>, Seq<char>)>::empty());
        assert(spec_decode(s) =~= rs);
    } else {
        let r0 = rs[0];
        let l0 = spec_encode_line(r0);
        assert(spec_clean_record(r0));
        assert forall|j: int| 0 <= j < l0.len() implies l0[j] != '\n' by {
            if j < r0.0.len() {
                assert(l0[j] == r0.0[j]);
            } else if j == r0.0.len() {
                assert(l0[j] == '\t');
            } else {
                assert(l0[j] == r0.1[j - r0.0.len() - 1]);
            }
        }
        // the line parses back to the record
        lemma_split_step(r0.0, r0.1, '\t');
        lemma_split_no_sep(r0.1, '\t');
        assert(spec_split(l0, '\t') =~= seq![r0.0] + seq![r0.1]);
        assert(spec_split(l0, '\t').len() == 2);
        assert(spec_parse_line(l0) == Some((r0.0, r0.1)));
        if rs.len() == 1 {
            lemma_split_no_sep(l0, '\n');
            assert(spec_split(spec_encode(rs), '\n') == seq![l0]);
            assert(seq![l0].drop_first() =~= Seq::<Seq<char>>::empty());
            assert(spec_decode_lines(Seq::<Seq<char>>::empty()) =~= Seq::<(Seq<char>, Seq<char>)>::empty());
            assert(spec_decode(spec_encode(rs)) =~= seq![(r0.0, r0.1)]);
            assert(seq![(r0.0, r0.1)] =~= rs);
        } else {
            let rest = rs.drop_first();
            assert(spec_encode(rs) == l0 + seq!['\n'] + spec_encode(rest));
            lemma_split_step(l0, spec_encode(rest), '\n');
            assert(spec_split(spec_encode(rs), '\n') == seq![l0] + spec_split(
                spec_encode(rest),
                '\n',
            ));
            lemma_encode_decode(rest);
            let lines = seq![l0] + spec_split(spec_encode(rest), '\n');
            assert(lines[0] == l0);
            assert(lines.drop_first() =~= spec_split(spec_encode(rest), '\n'));
            assert(spec_decode_lines(lines) =~= seq![(r0.0, r0.1)] + rest);
            assert(seq![(r0.0, r0.1)] + rest =~= rs);
        }
    }
}

} // verus!
