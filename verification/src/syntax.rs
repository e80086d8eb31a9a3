//! Syntax highlighting of repository files.
use vstd::prelude::*;

use crate::app::{extension_of, highlighted, path_extension, syntax_name_for_extension};
use crate::strs::{chars_of, str_eq, string_of};

verus! {

broadcast use vstd::string::group_string_axioms;

/// The colour theme the repository viewer highlights with.
pub const HIGHLIGHT_THEME: &'static str = "base16-ocean.dark";

/// A highlighted line: runs of text, each with its foreground colour.
pub open spec fn line_runs(line: Vec<(u8, u8, u8, String)>) -> Seq<(u8, u8, u8, Seq<char>)> {
    line@.map_values(|t: (u8, u8, u8, String)| (t.0, t.1, t.2, t.3@))
}

/// The runs of every highlighted line.
pub open spec fn runs_view(lines: Seq<Vec<(u8, u8, u8, String)>>) -> Seq<Seq<(u8, u8, u8, Seq<char>)>> {
    lines.map_values(|l: Vec<(u8, u8, u8, String)>| line_runs(l))
}

/// A line without the carriage return of a `\r\n` ending.
pub open spec fn strip_cr(line: Seq<char>) -> Seq<char> {
    if line.len() > 0 && line.last() == '\r' {
        line.drop_last()
    } else {
        line
    }
}

/// The lines of `cur + rest`, where `cur` is the part of an unfinished line
/// read so far: lines end at `\n` (a `\r` before it is dropped), and a last
/// line without a `\n` counts only when it is not empty.
pub open spec fn lines_from(cur: Seq<char>, rest: Seq<char>) -> Seq<Seq<char>>
    decreases rest.len(),
{
    if rest.len() == 0 {
        if cur.len() == 0 {
            Seq::empty()
        } else {
            seq![cur]
        }
    } else if rest[0] == '\n' {
        seq![strip_cr(cur)] + lines_from(Seq::empty(), rest.drop_first())
    } else {
        lines_from(cur.push(rest[0]), rest.drop_first())
    }
}

/// The lines of a text, as `str::lines` splits it.
pub open spec fn text_lines(s: Seq<char>) -> Seq<Seq<char>> {
    lines_from(Seq::empty(), s)
}

/// The views of a list of strings.
pub open spec fn strings_view(v: Seq<String>) -> Seq<Seq<char>> {
    v.map_values(|s: String| s@)
}

/// Whether syntect's bundled theme set holds a theme of this name.
pub uninterp spec fn bundled_theme(name: Seq<char>) -> bool;

/// The runs that syntect gives for these lines, highlighted one after the
/// other by the syntax for the extension and the named bundled theme.
pub uninterp spec fn highlighted_lines(lines: Seq<Seq<char>>, ext: Seq<char>, theme: Seq<char>) -> Seq<
    Seq<(u8, u8, u8, Seq<char>)>,
>;

/// Calls syntect: `SyntaxSet::load_defaults_newlines`,
/// `find_syntax_by_extension` (plain text when none), `ThemeSet::load_defaults`,
/// then `HighlightLines::highlight_line` on each line in turn, a line that
/// fails giving no runs.  `None` when the bundled themes have no theme of that
/// name.  The runs themselves are syntect's and are only named here; one line
/// of runs comes back for each line given.
#[verifier::external_body]
fn syntect_highlight(lines: &Vec<String>, ext: &str, theme: &str) -> (r: Option<Vec<Vec<(u8, u8, u8, String)>>>)
    ensures
        match r {
            Some(v) => bundled_theme(theme@) && runs_view(v@) == highlighted_lines(strings_view(lines@), ext@, theme@)
                && v@.len() == lines@.len(),
            None => !bundled_theme(theme@),
        },
{
    let ss = syntect::parsing::SyntaxSet::load_defaults_newlines();
    let ts = syntect::highlighting::ThemeSet::load_defaults();
    let syntax = ss.find_syntax_by_extension(ext).unwrap_or_else(|| ss.find_syntax_plain_text());
    let mut h = syntect::easy::HighlightLines::new(syntax, ts.themes.get(theme)?);
    Some(lines.iter().map(|l| {
        h.highlight_line(l, &ss).unwrap_or_default().into_iter().map(|(st, t)| {
            (st.foreground.r, st.foreground.g, st.foreground.b, t.to_string())
        }).collect()
    }).collect())
}

/// Splits a text into its lines, as `str::lines` does.
pub fn split_lines(s: &str) -> (r: Vec<String>)
    ensures
        strings_view(r@) == text_lines(s@),
{
    let v = chars_of(s);
    let mut out: Vec<String> = Vec::new();
    let mut cur: Vec<char> = Vec::new();
    let mut i: usize = 0;
    assert(strings_view(out@) + lines_from(cur@, v@.skip(0)) =~= text_lines(s@)) by {
        assert(v@.skip(0) =~= v@);
        assert(cur@ =~= Seq::<char>::empty());
        assert(strings_view(out@) =~= Seq::<Seq<char>>::empty());
    }
    while i < v.len()
        invariant
            0 <= i <= v@.len(),
            v@ == s@,
            strings_view(out@) + lines_from(cur@, v@.skip(i as int)) == text_lines(s@),
        decreases v.len() - i,
    {
        let c = v[i];
        assert(v@.skip(i as int)[0] == c);
        assert(v@.skip(i as int).drop_first() =~= v@.skip(i + 1));
        if c == '\n' {
            let mut line = cur;
            if line.len() > 0 && line[line.len() - 1] == '\r' {
                line.pop();
                assert(line@ =~= strip_cr(cur@));
            }
            let t = string_of(line.as_slice());
            let ghost before = out@;
            out.push(t);
            assert(strings_view(out@) =~= strings_view(before).push(t@));
            assert(strings_view(out@) + lines_from(Seq::empty(), v@.skip(i + 1)) =~= strings_view(before) + (
            seq![strip_cr(cur@)] + lines_from(Seq::empty(), v@.skip(i + 1))));
            cur = Vec::new();
        } else {
            cur.push(c);
        }
        i += 1;
    }
    if cur.len() > 0 {
        let t = string_of(cur.as_slice());
        let ghost before = out@;
        out.push(t);
        assert(strings_view(out@) =~= strings_view(before).push(t@));
    }
    assert(strings_view(out@) =~= text_lines(s@)) by {
        assert(v@.skip(v@.len() as int) =~= Seq::<char>::empty());
    }
    out
}

/// Each line shown as one run in the colour used when no theme is at hand.
pub open spec fn plain_runs(lines: Seq<Seq<char>>) -> Seq<Seq<(u8, u8, u8, Seq<char>)>> {
    lines.map_values(|l: Seq<char>| seq![(204u8, 204u8, 204u8, l)])
}

/// Highlights `content` by the syntax for the extension of `filename`.
/// `None` for plain-text or unknown file types; otherwise one line of
/// coloured runs per line of `content`.
pub fn highlight_file(content: &str, filename: &str) -> (r: Option<Vec<Vec<(u8, u8, u8, String)>>>)
    ensures
        r is None <==> !highlighted(filename@),
        match r {
            Some(v) => runs_view(v@) == if bundled_theme(HIGHLIGHT_THEME@) {
                highlighted_lines(text_lines(content@), path_extension(filename@), HIGHLIGHT_THEME@)
            } else {
                plain_runs(text_lines(content@))
            },
            None => true,
        },
        r matches Some(v) ==> v@.len() == text_lines(content@).len(),
{
    let ext = extension_of(filename);
    let known = match syntax_name_for_extension(ext.as_str()) {
        Some(n) => !str_eq(n.as_str(), "Plain Text"),
        None => false,
    };
    proof {
        reveal_strlit("Plain Text");
    }
    if !known {
        return None;
    }
    let lines = split_lines(content);
    match syntect_highlight(&lines, ext.as_str(), HIGHLIGHT_THEME) {
        Some(v) => Some(v),
        None => {
            let mut out: Vec<Vec<(u8, u8, u8, String)>> = Vec::new();
            let mut i: usize = 0;
            while i < lines.len()
                invariant
                    0 <= i <= lines@.len(),
                    out@.len() == i,
                    forall|k: int| 0 <= k < i ==> #[trigger] line_runs(out@[k]) == seq![(204u8, 204u8, 204u8, lines@[k]@)],
                decreases lines.len() - i,
            {
                let mut run: Vec<(u8, u8, u8, String)> = Vec::new();
                run.push((204u8, 204u8, 204u8, lines[i].clone()));
                assert(line_runs(run) =~= seq![(204u8, 204u8, 204u8, lines@[i as int]@)]);
                out.push(run);
                i += 1;
            }
            assert(runs_view(out@) =~= plain_runs(text_lines(content@)));
            Some(out)
        },
    }
}

} // verus!
