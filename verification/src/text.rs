//! Plain-text helpers used when turning feed payloads into display text.
use vstd::prelude::*;

use crate::strs::{ascii_lower, chars_of, is_whitespace, is_ws, str_eq, string_of, to_ascii_lower};

verus! {

broadcast use vstd::string::group_string_axioms;

// ---------------------------------------------------------------------------
// Words and joining
// ---------------------------------------------------------------------------

/// The maximal runs of non-whitespace characters of `s`
/// (`str::split_whitespace`).
pub open spec fn words(s: Seq<char>) -> Seq<Seq<char>>
    decreases s.len(),
{
    if s.len() == 0 {
        Seq::empty()
    } else if is_ws(s.last()) {
        words(s.drop_last())
    } else if s.len() >= 2 && !is_ws(s[s.len() - 2]) {
        let w = words(s.drop_last());
        w.update(w.len() - 1, w.last().push(s.last()))
    } else {
        words(s.drop_last()).push(seq![s.last()])
    }
}

/// `ws` joined with `sep` between neighbours (`[..].join(sep)`).
pub open spec fn join_with(ws: Seq<Seq<char>>, sep: Seq<char>) -> Seq<char>
    decreases ws.len(),
{
    if ws.len() == 0 {
        Seq::empty()
    } else if ws.len() == 1 {
        ws[0]
    } else {
        join_with(ws.drop_last(), sep) + sep + ws.last()
    }
}

/// Runs of whitespace collapsed to single spaces, leading and trailing
/// whitespace removed.
pub open spec fn collapsed(s: Seq<char>) -> Seq<char> {
    join_with(words(s), seq![' '])
}

pub proof fn lemma_words_nonempty(s: Seq<char>)
    requires
        s.len() > 0,
        !is_ws(s.last()),
    ensures
        words(s).len() > 0,
    decreases s.len(),
{
    if s.len() >= 2 && !is_ws(s[s.len() - 2]) {
        let t = s.drop_last();
        assert(t.last() == s[s.len() - 2]);
        lemma_words_nonempty(t);
    }
}

pub proof fn lemma_join_push(ws: Seq<Seq<char>>, sep: Seq<char>, x: Seq<char>)
    ensures
        join_with(ws.push(x), sep) == (if ws.len() == 0 { x } else { join_with(ws, sep) + sep + x }),
{
    assert(ws.push(x).drop_last() =~= ws);
}

pub proof fn lemma_join_extend_last(ws: Seq<Seq<char>>, sep: Seq<char>, c: char)
    requires
        ws.len() > 0,
    ensures
        join_with(ws.update(ws.len() - 1, ws.last().push(c)), sep) == join_with(ws, sep).push(c),
{
    let u = ws.update(ws.len() - 1, ws.last().push(c));
    if ws.len() == 1 {
    } else {
        assert(u.drop_last() =~= ws.drop_last());
        assert(join_with(ws, sep) == join_with(ws.drop_last(), sep) + sep + ws.last());
        assert(join_with(u, sep) =~= join_with(ws, sep).push(c));
    }
}

proof fn lemma_take_step(s: Seq<char>, i: int)
    requires
        0 <= i < s.len(),
    ensures
        s.take(i + 1).drop_last() == s.take(i),
        s.take(i + 1).last() == s[i],
        i >= 1 ==> s.take(i + 1)[i - 1] == s[i - 1],
{
    assert(s.take(i + 1).drop_last() =~= s.take(i));
}

/// `s.split_whitespace().collect::<Vec<_>>().join(" ")`.
pub fn collapse_whitespace(s: &str) -> (r: String)
    ensures
        r@ == collapsed(s@),
{
    let v = chars_of(s);
    let mut out: Vec<char> = Vec::new();
    let mut has_word = false;
    let mut i: usize = 0;
    while i < v.len()
        invariant
            0 <= i <= v@.len(),
            out@ == join_with(words(v@.take(i as int)), seq![' ']),
            has_word == (words(v@.take(i as int)).len() > 0),
            i > 0 && !is_ws(v@[i - 1]) ==> has_word,
        decreases v.len() - i,
    {
        let c = v[i];
        proof { lemma_take_step(v@, i as int); }
        let ghost t = v@.take(i + 1);
        if is_whitespace(c) {
            assert(words(t) == words(v@.take(i as int)));
        } else {
            if i > 0 && !is_whitespace(v[i - 1]) {
                proof {
                    lemma_join_extend_last(words(v@.take(i as int)), seq![' '], c);
                }
                out.push(c);
            } else {
                proof {
                    lemma_join_push(words(v@.take(i as int)), seq![' '], seq![c]);
                }
                if has_word {
                    out.push(' ');
                }
                out.push(c);
                assert(out@ =~= join_with(words(t), seq![' ']));
            }
            has_word = true;
        }
        i += 1;
    }
    assert(v@.take(v@.len() as int) =~= v@);
    string_of(&out)
}

/// The deep view of a list of character vectors.
pub open spec fn char_vecs(v: Seq<Vec<char>>) -> Seq<Seq<char>> {
    v.map_values(|w: Vec<char>| w@)
}

/// `str::split_whitespace`, word by word.
pub fn split_words(v: &[char]) -> (r: Vec<Vec<char>>)
    ensures
        char_vecs(r@) == words(v@),
{
    let mut out: Vec<Vec<char>> = Vec::new();
    let mut i: usize = 0;
    while i < v.len()
        invariant
            0 <= i <= v@.len(),
            char_vecs(out@) == words(v@.take(i as int)),
            i > 0 && !is_ws(v@[i - 1]) ==> out@.len() > 0,
        decreases v.len() - i,
    {
        let c = v[i];
        proof { lemma_take_step(v@, i as int); }
        let ghost t = v@.take(i + 1);
        let ghost before = char_vecs(out@);
        if is_whitespace(c) {
            assert(words(t) == words(v@.take(i as int)));
        } else if i > 0 && !is_whitespace(v[i - 1]) {
            let mut w = out.pop().unwrap();
            w.push(c);
            out.push(w);
            assert(char_vecs(out@) =~= before.update(before.len() - 1, before.last().push(c)));
        } else {
            let mut w: Vec<char> = Vec::new();
            w.push(c);
            out.push(w);
            assert(char_vecs(out@) =~= before.push(seq![c]));
        }
        i += 1;
    }
    assert(v@.take(v@.len() as int) =~= v@);
    out
}

/// `[..].join(sep)` on owned strings.
pub fn join_strings(v: &Vec<String>, sep: &str) -> (r: String)
    ensures
        r@ == join_with(crate::models::views(v@), sep@),
{
    let ghost ws = crate::models::views(v@);
    let mut out: Vec<char> = Vec::new();
    let mut i: usize = 0;
    assert(ws.take(0) =~= Seq::<Seq<char>>::empty());
    while i < v.len()
        invariant
            0 <= i <= v@.len(),
            ws == crate::models::views(v@),
            out@ == join_with(ws.take(i as int), sep@),
        decreases v.len() - i,
    {
        proof {
            lemma_join_push(ws.take(i as int), sep@, ws[i as int]);
            assert(ws.take(i + 1) =~= ws.take(i as int).push(ws[i as int]));
        }
        if i > 0 {
            crate::strs::push_str(&mut out, sep);
        }
        crate::strs::push_str(&mut out, v[i].as_str());
        i += 1;
    }
    assert(ws.take(ws.len() as int) =~= ws);
    string_of(&out)
}

// ---------------------------------------------------------------------------
// Truncation
// ---------------------------------------------------------------------------

/// The truncation rule shared by the feed parsers: text longer than `max`
/// characters keeps its first `max` characters and, when at least two
/// characters were cut, gains a trailing ellipsis.
pub open spec fn truncated(s: Seq<char>, max: nat) -> Seq<char> {
    if s.len() <= max {
        s
    } else if s.len() == max + 1 {
        s.take(max as int)
    } else {
        s.take(max as int).push('…')
    }
}

/// Keep at most `max` characters of `s` (see `truncated`).
pub fn truncate_chars(s: &str, max: usize) -> (r: String)
    ensures
        r@ == truncated(s@, max as nat),
{
    let v = chars_of(s);
    if v.len() <= max {
        return string_of(&v);
    }
    let mut out = crate::strs::sub_vec(&v, 0, max);
    if v.len() - max >= 2 {
        out.push('…');
    }
    string_of(&out)
}

/// Display-width truncation: like `truncate_chars`, but a zero budget gives
/// the empty string.
pub open spec fn truncated_nonzero(s: Seq<char>, max: nat) -> Seq<char> {
    if max == 0 {
        Seq::empty()
    } else {
        truncated(s, max)
    }
}

pub fn truncate(s: &str, max_chars: usize) -> (r: String)
    ensures
        r@ == truncated_nonzero(s@, max_chars as nat),
{
    if max_chars == 0 {
        return string_of(&Vec::new());
    }
    truncate_chars(s, max_chars)
}

/// Text that does not fit in `max` characters keeps `max - 1` of them
/// (none when `max` is 0) followed by an ellipsis.
pub open spec fn truncated_with_ellipsis(s: Seq<char>, max: nat) -> Seq<char> {
    if s.len() <= max {
        s
    } else {
        s.take(if max == 0 { 0 } else { max - 1 }).push('…')
    }
}

pub fn truncate_str(s: &str, max: usize) -> (r: String)
    ensures
        r@ == truncated_with_ellipsis(s@, max as nat),
{
    let v = chars_of(s);
    if v.len() <= max {
        return string_of(&v);
    }
    let keep = if max == 0 { 0 } else { max - 1 };
    let mut out = crate::strs::sub_vec(&v, 0, keep);
    out.push('…');
    string_of(&out)
}

/// The first `max` characters of `s`, as a slice of `s`.
pub fn safe_truncate_chars(s: &str, max_chars: usize) -> (r: &str)
    ensures
        r@ == s@.take(if max_chars <= s@.len() { max_chars as int } else { s@.len() as int }),
{
    let n = s.unicode_len();
    if max_chars < n {
        s.substring_char(0, max_chars)
    } else {
        assert(s@.take(s@.len() as int) =~= s@);
        s
    }
}

// ---------------------------------------------------------------------------
// Tag stripping
// ---------------------------------------------------------------------------

/// Block-level elements: closing one of these separates the text around it.
pub open spec fn is_block_tag(name: Seq<char>) -> bool {
    name == "p"@ || name == "div"@ || name == "br"@ || name == "li"@ || name == "ul"@ || name == "ol"@
        || name == "h1"@ || name == "h2"@ || name == "h3"@ || name == "h4"@ || name == "h5"@ || name == "h6"@
        || name == "blockquote"@ || name == "pre"@ || name == "table"@ || name == "tr"@ || name == "section"@
        || name == "article"@ || name == "header"@ || name == "footer"@ || name == "dd"@ || name == "dt"@
        || name == "dl"@ || name == "figure"@ || name == "figcaption"@ || name == "hr"@
}

/// Length of the leading run of `x` without whitespace.
pub open spec fn name_len(x: Seq<char>) -> nat
    decreases x.len(),
{
    if x.len() == 0 || is_ws(x[0]) {
        0
    } else {
        1 + name_len(x.drop_first())
    }
}

/// The tag text `t` (what stood between `<` and `>`) closes a block
/// element: it is `/` and a block element's name (in any case), possibly
/// followed by whitespace and more.
pub open spec fn closes_block(t: Seq<char>) -> bool {
    t.len() > 0 && t[0] == '/' && is_block_tag(
        t.drop_first().take(name_len(t.drop_first()) as int).map_values(|c: char| ascii_lower(c)),
    )
}

/// Removes `<...>` tags from feed summaries; a tag that closes a block
/// element becomes one space, any other tag goes.  Returns whether the scan
/// ends inside a tag, the tag text read so far, and the text kept.
pub open spec fn strip_html_scan(s: Seq<char>) -> (bool, Seq<char>, Seq<char>)
    decreases s.len(),
{
    if s.len() == 0 {
        (false, Seq::empty(), Seq::empty())
    } else {
        let (in_tag, tag, out) = strip_html_scan(s.drop_last());
        let c = s.last();
        if c == '<' {
            (true, Seq::empty(), out)
        } else if in_tag {
            if c == '>' {
                (false, Seq::empty(), if closes_block(tag) { out.push(' ') } else { out })
            } else {
                (true, tag.push(c), out)
            }
        } else {
            (false, tag, out.push(c))
        }
    }
}

proof fn lemma_name_len(x: Seq<char>, k: int)
    requires
        0 <= k <= x.len(),
        forall|i: int| 0 <= i < k ==> !is_ws(#[trigger] x[i]),
        k == x.len() || is_ws(x[k]),
    ensures
        name_len(x) == k,
    decreases k,
{
    if k > 0 {
        let y = x.drop_first();
        assert forall|i: int| 0 <= i < k - 1 implies !is_ws(#[trigger] y[i]) by {
            assert(y[i] == x[i + 1]);
        }
        if k - 1 < y.len() {
            assert(y[k - 1] == x[k]);
        }
        lemma_name_len(y, k - 1);
    }
}

fn is_block_name(name: &Vec<char>) -> (r: bool)
    ensures
        r == is_block_tag(name@),
{
    let n = string_of(name);
    let s = n.as_str();
    str_eq(s, "p") || str_eq(s, "div") || str_eq(s, "br") || str_eq(s, "li") || str_eq(s, "ul") || str_eq(s, "ol")
        || str_eq(s, "h1") || str_eq(s, "h2") || str_eq(s, "h3") || str_eq(s, "h4") || str_eq(s, "h5") || str_eq(
        s,
        "h6",
    ) || str_eq(s, "blockquote") || str_eq(s, "pre") || str_eq(s, "table") || str_eq(s, "tr") || str_eq(
        s,
        "section",
    ) || str_eq(s, "article") || str_eq(s, "header") || str_eq(s, "footer") || str_eq(s, "dd") || str_eq(s, "dt")
        || str_eq(s, "dl") || str_eq(s, "figure") || str_eq(s, "figcaption") || str_eq(s, "hr")
}

fn closes_block_exec(t: &Vec<char>) -> (r: bool)
    ensures
        r == closes_block(t@),
{
    if t.len() == 0 || t[0] != '/' {
        return false;
    }
    let ghost x = t@.drop_first();
    let mut name: Vec<char> = Vec::new();
    let mut j: usize = 1;
    while j < t.len() && !is_whitespace(t[j])
        invariant
            1 <= j <= t@.len(),
            x == t@.drop_first(),
            forall|i: int| 0 <= i < j - 1 ==> !is_ws(#[trigger] x[i]),
            name@ == x.take(j - 1).map_values(|c: char| ascii_lower(c)),
        decreases t.len() - j,
    {
        let ghost before = name@;
        name.push(to_ascii_lower(t[j]));
        assert(x[j - 1] == t@[j as int]);
        assert(x.take(j as int).map_values(|c: char| ascii_lower(c)) =~= before.push(ascii_lower(t@[j as int])));
        j += 1;
    }
    proof {
        if j < t@.len() {
            assert(x[j - 1] == t@[j as int]);
        }
        lemma_name_len(x, j - 1);
    }
    is_block_name(&name)
}

/// Remove HTML tags from a feed summary: a tag that closes a block element
/// (`</p>`, `</div>`, ...) becomes one space, any other tag is removed.
pub fn strip_html(s: &str) -> (r: String)
    ensures
        r@ == strip_html_scan(s@).2,
{
    let v = chars_of(s);
    let mut out: Vec<char> = Vec::new();
    let mut tag: Vec<char> = Vec::new();
    let mut in_tag = false;
    let mut i: usize = 0;
    while i < v.len()
        invariant
            0 <= i <= v@.len(),
            (in_tag, tag@, out@) == strip_html_scan(v@.take(i as int)),
        decreases v.len() - i,
    {
        let c = v[i];
        proof { lemma_take_step(v@, i as int); }
        if c == '<' {
            in_tag = true;
            tag = Vec::new();
        } else if in_tag {
            if c == '>' {
                if closes_block_exec(&tag) {
                    out.push(' ');
                }
                in_tag = false;
                tag = Vec::new();
            } else {
                tag.push(c);
            }
        } else {
            out.push(c);
        }
        i += 1;
    }
    assert(v@.take(v@.len() as int) =~= v@);
    string_of(&out)
}

/// Removes `<...>` tags, keeping the text between them.
pub open spec fn strip_tags_scan(s: Seq<char>) -> (bool, Seq<char>)
    decreases s.len(),
{
    if s.len() == 0 {
        (false, Seq::empty())
    } else {
        let (in_tag, out) = strip_tags_scan(s.drop_last());
        let c = s.last();
        if c == '<' {
            (true, out)
        } else if c == '>' {
            (false, out)
        } else if !in_tag {
            (false, out.push(c))
        } else {
            (true, out)
        }
    }
}

/// Remove HTML tags, keeping only the text between them.
pub fn strip_tags(s: &str) -> (r: String)
    ensures
        r@ == strip_tags_scan(s@).1,
{
    let v = chars_of(s);
    let mut out: Vec<char> = Vec::new();
    let mut in_tag = false;
    let mut i: usize = 0;
    while i < v.len()
        invariant
            0 <= i <= v@.len(),
            (in_tag, out@) == strip_tags_scan(v@.take(i as int)),
        decreases v.len() - i,
    {
        let c = v[i];
        proof { lemma_take_step(v@, i as int); }
        if c == '<' {
            in_tag = true;
        } else if c == '>' {
            in_tag = false;
        } else if !in_tag {
            out.push(c);
        }
        i += 1;
    }
    assert(v@.take(v@.len() as int) =~= v@);
    string_of(&out)
}

/// The characters that end an escape sequence for `strip_ansi`.
pub open spec fn ends_ansi(c: char) -> bool {
    c == 'm' || c == 'K' || c == 'J' || c == 'H' || c == 'A' || c == 'B' || c == 'C' || c == 'D'
}

/// Drops everything from each ESC up to and including the next character in
/// `mKJHABCD`.  Returns whether the scan ends inside a sequence.
pub open spec fn strip_ansi_scan(s: Seq<char>) -> (bool, Seq<char>)
    decreases s.len(),
{
    if s.len() == 0 {
        (false, Seq::empty())
    } else {
        let (skipping, out) = strip_ansi_scan(s.drop_last());
        let c = s.last();
        if skipping {
            (!ends_ansi(c), out)
        } else if c == '\x1b' {
            (true, out)
        } else {
            (false, out.push(c))
        }
    }
}

pub fn strip_ansi(s: &str) -> (r: String)
    ensures
        r@ == strip_ansi_scan(s@).1,
{
    let v = chars_of(s);
    let mut out: Vec<char> = Vec::new();
    let mut skipping = false;
    let mut i: usize = 0;
    while i < v.len()
        invariant
            0 <= i <= v@.len(),
            (skipping, out@) == strip_ansi_scan(v@.take(i as int)),
        decreases v.len() - i,
    {
        let c = v[i];
        proof { lemma_take_step(v@, i as int); }
        if skipping {
            skipping = !(c == 'm' || c == 'K' || c == 'J' || c == 'H' || c == 'A' || c == 'B'
                || c == 'C' || c == 'D');
        } else if c == '\x1b' {
            skipping = true;
        } else {
            out.push(c);
        }
        i += 1;
    }
    assert(v@.take(v@.len() as int) =~= v@);
    string_of(&out)
}

} // verus!
