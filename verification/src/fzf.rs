//! The selector boundary: the argument list handed to the external fuzzy
//! selector, and the parsing of the line it returns.
//!
//! Spawning the selector process is the caller's business; this module
//! builds the exact argument texts from the UI configuration and recovers
//! the selected path from the selector's output line.

use vstd::prelude::*;
use crate::config::UiConfig;
use crate::text::{
    chars_to_string, push_u64_dec, spec_split, spec_u64_dec, split_chars, str_to_chars,
};
use vstd::string::StringExecFns;

verus! {

/// The selector arguments derived from the UI configuration: prompt,
/// header, tab delimiter showing only the name column, preview window
/// geometry, layout, height, an optional border, and no re-sorting (the
/// records arrive already ordered).
pub open spec fn spec_fzf_args(ui: UiConfig) -> Seq<Seq<char>> {
    seq![
        "--prompt"@,
        ui.prompt@,
        "--header"@,
        ui.header@,
        "--delimiter"@,
        "\t"@,
        "--with-nth"@,
        "1"@,
        "--preview-window"@,
        "right:"@ + spec_u64_dec(ui.preview_width_percent as nat) + "%:wrap"@,
        "--layout"@,
        ui.layout@,
        "--height"@,
        spec_u64_dec(ui.height_percent as nat) + "%"@,
    ] + (if ui.show_border {
        seq!["--border"@]
    } else {
        Seq::<Seq<char>>::empty()
    }) + seq!["--no-sort"@]
}

/// Builds the selector argument list from the UI configuration.
pub fn build_fzf_args(ui: &UiConfig) -> (r: Vec<String>)
    ensures
        r.deep_view() == spec_fzf_args(*ui),
{
    let mut r: Vec<String> = Vec::new();
    r.push("--prompt".to_owned());
    r.push(ui.prompt.clone());
    r.push("--header".to_owned());
    r.push(ui.header.clone());
    r.push("--delimiter".to_owned());
    r.push("\t".to_owned());
    r.push("--with-nth".to_owned());
    r.push("1".to_owned());
    r.push("--preview-window".to_owned());
    let mut window: String = "right:".to_owned();
    push_u64_dec(&mut window, ui.preview_width_percent as u64);
    window.append("%:wrap");
    r.push(window);
    r.push("--layout".to_owned());
    r.push(ui.layout.clone());
    r.push("--height".to_owned());
    let mut height = String::new();
    push_u64_dec(&mut height, ui.height_percent as u64);
    height.append("%");
    r.push(height);
    if ui.show_border {
        r.push("--border".to_owned());
    }
    r.push("--no-sort".to_owned());
    proof {
        assert(r.deep_view() =~= spec_fzf_args(*ui));
    }
    r
}

/// The preview argument handed to the selector: the navigator binary
/// called back with the selected record's path column.
pub fn build_preview_command(preview_binary: &str) -> (r: String)
    ensures
        r@ == preview_binary@ + " --preview {2}"@,
{
    let mut r = preview_binary.to_owned();
    r.append(" --preview {2}");
    r
}

/// Whether `c` is one of the whitespace characters trimmed from the
/// selector's output line.
pub open spec fn spec_is_ws(c: char) -> bool {
    c == ' ' || c == '\t' || c == '\n' || c == '\r'
}

/// `s` with leading whitespace removed.
pub open spec fn spec_trim_front(s: Seq<char>) -> Seq<char>
    decreases s.len(),
{
    if s.len() > 0 && spec_is_ws(s[0]) {
        spec_trim_front(s.drop_first())
    } else {
        s
    }
}

/// `s` with trailing whitespace removed.
pub open spec fn spec_trim_back(s: Seq<char>) -> Seq<char>
    decreases s.len(),
{
    if s.len() > 0 && spec_is_ws(s.last()) {
        spec_trim_back(s.drop_last())
    } else {
        s
    }
}

/// `s` with whitespace removed at both ends.
pub open spec fn spec_trim(s: Seq<char>) -> Seq<char> {
    spec_trim_back(spec_trim_front(s))
}

/// What the selector's output line parses to: the line is trimmed and
/// split on tabs, and the second field is the selected path; a line
/// without two fields selects nothing.
pub open spec fn spec_parse_selection(s: Seq<char>) -> Option<Seq<char>> {
    let parts = spec_split(spec_trim(s), '\t');
    if parts.len() >= 2 {
        Some(parts[1])
    } else {
        None
    }
}

/// Recovers the selected path from the selector's output line.
pub fn parse_selection(line: &str) -> (r: Option<String>)
    ensures
        r is Some <==> spec_parse_selection(line@) is Some,
        r matches Some(p) ==> p@ == spec_parse_selection(line@)->Some_0,
{
    let chars = str_to_chars(line);
    let n = chars.len();
    let mut start: usize = 0;
    proof {
        assert(line@.skip(0) =~= line@);
    }
    while start < n && (chars[start] == ' ' || chars[start] == '\t' || chars[start] == '\n'
        || chars[start] == '\r')
        invariant
            chars@ == line@,
            n == chars@.len(),
            start <= n,
            spec_trim_front(line@) == spec_trim_front(line@.skip(start as int)),
        decreases n - start,
    {
        proof {
            assert(line@.skip(start as int)[0] == line@[start as int]);
            assert(line@.skip(start as int).drop_first() =~= line@.skip(start + 1));
        }
        start = start + 1;
    }
    proof {
        if start < n {
            assert(line@.skip(start as int)[0] == line@[start as int]);
        }
        assert(spec_trim_front(line@) == line@.skip(start as int));
    }
    let mut end: usize = n;
    proof {
        assert(line@.skip(start as int) =~= line@.subrange(start as int, end as int));
    }
    while end > start && (chars[end - 1] == ' ' || chars[end - 1] == '\t' || chars[end - 1]
        == '\n' || chars[end - 1] == '\r')
        invariant
            chars@ == line@,
            n == chars@.len(),
            start <= end <= n,
            spec_trim_front(line@) == line@.skip(start as int),
            spec_trim_back(line@.skip(start as int)) == spec_trim_back(
                line@.subrange(start as int, end as int),
            ),
        decreases end,
    {
        proof {
            assert(line@.subrange(start as int, end as int).last() == line@[end - 1]);
            assert(line@.subrange(start as int, end as int).drop_last() =~= line@.subrange(
                start as int,
                end - 1,
            ));
        }
        end = end - 1;
    }
    proof {
        if end > start {
            assert(line@.subrange(start as int, end as int).last() == line@[end - 1]);
        }
        assert(spec_trim_back(line@.subrange(start as int, end as int)) == line@.subrange(
            start as int,
            end as int,
        ));
        assert(spec_trim(line@) == line@.subrange(start as int, end as int));
    }
    let mut trimmed: Vec<char> = Vec::new();
    let mut i: usize = start;
    while i < end
        invariant
            chars@ == line@,
            start <= i <= end <= chars@.len(),
            trimmed@ == line@.subrange(start as int, i as int),
        decreases end - i,
    {
        trimmed.push(chars[i]);
        i = i + 1;
        proof {
            assert(trimmed@ =~= line@.subrange(start as int, i as int));
        }
    }
    proof {
        assert(trimmed@ =~= spec_trim(line@));
    }
    let parts = split_chars(&trimmed, '\t');
    if parts.len() >= 2 {
        proof {
            assert(parts.deep_view()[1] == parts@[1].deep_view());
            assert(parts@[1].deep_view() =~= parts@[1]@);
        }
        Some(chars_to_string(&parts[1]))
    } else {
        None
    }
}

} // verus!
