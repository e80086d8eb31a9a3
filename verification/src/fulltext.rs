//! Full text of an item as plain, wrapped lines.
use vstd::prelude::*;

use crate::strs::{
    chars_of, find, find_at, find_char_at, find_char_from, find_from, is_whitespace, is_ws, lemma_find_char_from_facts,
    lemma_find_from_facts, lowercase, push_str, starts_with, string_of, sub_vec, to_lowercase, trim, trim_start,
    trim_vec,
};

verus! {

broadcast use vstd::string::group_string_axioms;

// ---------------------------------------------------------------------------
// HTML to plain text
// ---------------------------------------------------------------------------

/// Where the HTML scanner is.
#[derive(Debug, Clone, Copy, PartialEq, Eq, Structural)]
pub enum HtmlMode {
    Text,
    Tag,
    Entity,
}

/// The HTML scanner's state: its mode, whether it is inside `<script>` or
/// `<style>`, and the tag or entity read so far.
pub ghost struct HtmlScan {
    pub mode: HtmlMode,
    pub in_script: bool,
    pub in_style: bool,
    pub buf: Seq<char>,
}

/// The name of a tag: its text up to the first whitespace or `/`.
pub open spec fn tag_name_of(t: Seq<char>) -> Seq<char>
    decreases t.len(),
{
    if t.len() == 0 {
        t
    } else {
        let before = tag_name_of(t.drop_last());
        if before.len() < t.len() - 1 {
            before
        } else if is_ws(t.last()) || t.last() == '/' {
            before
        } else {
            t
        }
    }
}

/// Tags after which a line break is written.
pub open spec fn is_block_tag(n: Seq<char>) -> bool {
    n == "p"@ || n == "div"@ || n == "br"@ || n == "h1"@ || n == "h2"@ || n == "h3"@ || n == "h4"@ || n == "h5"@
        || n == "h6"@ || n == "li"@ || n == "tr"@ || n == "section"@ || n == "article"@ || n == "header"@
        || n == "footer"@ || n == "main"@ || n == "blockquote"@
}

/// Closing a tag whose text is `buf`: the new flags and what is written.
pub open spec fn close_tag(in_script: bool, in_style: bool, buf: Seq<char>) -> (bool, bool, Seq<char>) {
    let lower = lowercase(trim_start(buf));
    let name = tag_name_of(lower);
    if starts_with(lower, "/script"@) {
        (false, in_style, Seq::empty())
    } else if starts_with(lower, "/style"@) {
        (in_script, false, Seq::empty())
    } else if name == "script"@ {
        (true, in_style, Seq::empty())
    } else if name == "style"@ {
        (in_script, true, Seq::empty())
    } else if is_block_tag(name) && !in_script && !in_style {
        (in_script, in_style, seq!['\n'])
    } else {
        (in_script, in_style, Seq::empty())
    }
}

/// The text of a named or numeric entity (without `&` and `;`).
pub open spec fn entity_text(e: Seq<char>) -> Seq<char> {
    if e == "amp"@ {
        seq!['&']
    } else if e == "lt"@ {
        seq!['<']
    } else if e == "gt"@ {
        seq!['>']
    } else if e == "quot"@ {
        seq!['"']
    } else if e == "apos"@ {
        seq!['\'']
    } else if e == "nbsp"@ {
        seq![' ']
    } else if e == "mdash"@ || e == "#8212"@ {
        seq!['\u{2014}']
    } else if e == "ndash"@ || e == "#8211"@ {
        seq!['\u{2013}']
    } else if e == "ldquo"@ || e == "#8220"@ {
        seq!['"']
    } else if e == "rdquo"@ || e == "#8221"@ {
        seq!['"']
    } else if e == "lsquo"@ || e == "#8216"@ {
        seq!['\u{2018}']
    } else if e == "rsquo"@ || e == "#8217"@ {
        seq!['\u{2019}']
    } else if e == "hellip"@ || e == "#8230"@ {
        seq!['\u{2026}']
    } else {
        seq!['&'] + e + seq![';']
    }
}

/// An entity ended by `;` or by the end of the text: nothing when empty.
pub open spec fn entity_out(e: Seq<char>) -> Seq<char> {
    if e.len() == 0 {
        Seq::empty()
    } else {
        entity_text(e)
    }
}

/// One character: the new state and what is written.
pub open spec fn html_step(s: HtmlScan, c: char) -> (HtmlScan, Seq<char>) {
    match s.mode {
        HtmlMode::Tag => if c == '>' {
            let (sc, st, out) = close_tag(s.in_script, s.in_style, s.buf);
            (HtmlScan { mode: HtmlMode::Text, in_script: sc, in_style: st, buf: Seq::empty() }, out)
        } else {
            (HtmlScan { buf: s.buf.push(c), ..s }, Seq::empty())
        },
        HtmlMode::Entity => if c == ';' {
            (HtmlScan { mode: HtmlMode::Text, buf: Seq::empty(), ..s }, entity_out(s.buf))
        } else if is_ws(c) {
            (HtmlScan { mode: HtmlMode::Text, buf: Seq::empty(), ..s }, seq!['&', c])
        } else if vstd::utf8::encode_utf8(s.buf.push(c)).len() > 8 {
            (HtmlScan { mode: HtmlMode::Text, buf: Seq::empty(), ..s }, seq!['&'] + s.buf.push(c))
        } else {
            (HtmlScan { buf: s.buf.push(c), ..s }, Seq::empty())
        },
        HtmlMode::Text => if c == '<' {
            (HtmlScan { mode: HtmlMode::Tag, buf: Seq::empty(), ..s }, Seq::empty())
        } else if !s.in_script && !s.in_style {
            if c == '&' {
                (HtmlScan { mode: HtmlMode::Entity, buf: Seq::empty(), ..s }, Seq::empty())
            } else {
                (s, seq![c])
            }
        } else {
            (s, Seq::empty())
        },
    }
}

pub open spec fn html_start() -> HtmlScan {
    HtmlScan { mode: HtmlMode::Text, in_script: false, in_style: false, buf: Seq::empty() }
}

/// The state and output after the first `n` characters.
pub open spec fn html_scan(html: Seq<char>, n: int) -> (HtmlScan, Seq<char>)
    decreases n,
{
    if n <= 0 {
        (html_start(), Seq::empty())
    } else {
        let (s, out) = html_scan(html, n - 1);
        let (s2, o) = html_step(s, html[n - 1]);
        (s2, out + o)
    }
}

/// Plain text of an HTML page: tags dropped (block tags give a line
/// break), `<script>` and `<style>` contents dropped, common entities
/// decoded.
pub open spec fn html_text(html: Seq<char>) -> Seq<char> {
    let (s, out) = html_scan(html, html.len() as int);
    if s.mode == HtmlMode::Entity {
        out + entity_out(s.buf)
    } else {
        out
    }
}

/// The scan of the first `n` characters depends on those characters only.
proof fn lemma_scan_prefix(a: Seq<char>, b: Seq<char>, n: int)
    requires
        0 <= n <= a.len(),
        n <= b.len(),
        a.take(n) == b.take(n),
    ensures
        html_scan(a, n) == html_scan(b, n),
    decreases n,
{
    if n > 0 {
        assert(a.take(n - 1) =~= a.take(n).take(n - 1));
        assert(b.take(n - 1) =~= b.take(n).take(n - 1));
        lemma_scan_prefix(a, b, n - 1);
        assert(a[n - 1] == a.take(n)[n - 1]);
        assert(b[n - 1] == b.take(n)[n - 1]);
    }
}

/// Output once written stays: the output after `m` characters begins the
/// output after `n >= m`, and the plain text of the whole page.
proof fn lemma_scan_output_grows(html: Seq<char>, m: int, n: int)
    requires
        0 <= m <= n,
    ensures
        starts_with(html_scan(html, n).1, html_scan(html, m).1),
        n == html.len() ==> starts_with(html_text(html), html_scan(html, m).1),
    decreases n - m,
{
    let o = html_scan(html, m).1;
    if m < n {
        lemma_scan_output_grows(html, m, n - 1);
        let prev = html_scan(html, n - 1).1;
        let step = html_step(html_scan(html, n - 1).0, html[n - 1]).1;
        assert((prev + step).subrange(0, o.len() as int) =~= prev.subrange(0, o.len() as int));
    } else {
        assert(o.subrange(0, o.len() as int) =~= o);
    }
    if n == html.len() {
        let (st, out) = html_scan(html, n);
        assert(starts_with(out, o));
        assert((out + entity_out(st.buf)).subrange(0, o.len() as int) =~= out.subrange(0, o.len() as int));
    }
}

/// Scanning `q` after a prefix that leaves the scanner at rest goes as if
/// `q` stood alone, after the prefix's output.
proof fn lemma_scan_after_rest(a: Seq<char>, q: Seq<char>, k: int)
    requires
        html_scan(a, a.len() as int).0 == html_start(),
        0 <= k <= q.len(),
    ensures
        html_scan(a + q, a.len() + k) == (html_scan(q, k).0, html_scan(a, a.len() as int).1 + html_scan(q, k).1),
    decreases k,
{
    if k == 0 {
        assert((a + q).take(a.len() as int) =~= a.take(a.len() as int));
        lemma_scan_prefix(a + q, a, a.len() as int);
        assert(html_scan(a, a.len() as int).1 + html_scan(q, 0).1 =~= html_scan(a, a.len() as int).1);
    } else {
        lemma_scan_after_rest(a, q, k - 1);
        assert((a + q)[a.len() + k - 1] == q[k - 1]);
        let o1 = html_scan(a, a.len() as int).1;
        let o2 = html_scan(q, k - 1).1;
        let st = html_step(html_scan(q, k - 1).0, q[k - 1]).1;
        assert(o1 + o2 + st =~= o1 + (o2 + st));
    }
}

/// The plain text of a page splits wherever the scanner is at rest (in
/// ordinary text, outside `<script>` and `<style>`): the text of `a + q` is
/// that of `a` followed by that of `q`.
pub proof fn law_text_splits_at_rest(a: Seq<char>, q: Seq<char>)
    requires
        html_scan(a, a.len() as int).0 == html_start(),
    ensures
        html_text(a + q) == html_text(a) + html_text(q),
{
    lemma_scan_after_rest(a, q, q.len() as int);
    let (st, out) = html_scan(q, q.len() as int);
    let o1 = html_scan(a, a.len() as int).1;
    assert((a + q).len() == a.len() + q.len());
    if st.mode == HtmlMode::Entity {
        assert(o1 + out + entity_out(st.buf) =~= o1 + (out + entity_out(st.buf)));
    }
}

/// Ordinary characters (neither `<` nor `&`) are copied as they are, and
/// leave the scanner at rest.
pub proof fn law_plain_char_copied(c: char)
    requires
        c != '<',
        c != '&',
    ensures
        html_text(seq![c]) == seq![c],
        html_scan(seq![c], 1).0 == html_start(),
{
    assert(html_scan(seq![c], 0).1 + seq![c] =~= seq![c]);
}

/// Bytes of text that is all ASCII: one per character.
proof fn lemma_ascii_utf8_len(t: Seq<char>)
    requires
        forall|k: int| 0 <= k < t.len() ==> (t[k] as u32) < 128,
    ensures
        vstd::utf8::encode_utf8(t).len() == t.len(),
    decreases t.len(),
{
    if t.len() > 0 {
        lemma_ascii_utf8_len(t.drop_first());
    }
}

/// Inside an entity, ASCII characters that are neither `;` nor whitespace
/// are gathered into it, up to eight of them, with nothing written.
proof fn lemma_entity_gathers(w: Seq<char>, start: int, k: int)
    requires
        0 <= start,
        0 <= k <= 8,
        start + k <= w.len(),
        html_scan(w, start).0 == (HtmlScan { mode: HtmlMode::Entity, in_script: false, in_style: false, buf: Seq::empty() }),
        forall|j: int| start <= j < start + k ==> w[j] != ';' && !is_ws(w[j]) && (w[j] as u32) < 128,
    ensures
        html_scan(w, start + k).0 == (HtmlScan {
            mode: HtmlMode::Entity,
            in_script: false,
            in_style: false,
            buf: w.subrange(start, start + k),
        }),
        html_scan(w, start + k).1 == html_scan(w, start).1,
    decreases k,
{
    if k == 0 {
        assert(w.subrange(start, start) =~= Seq::<char>::empty());
    } else {
        lemma_entity_gathers(w, start, k - 1);
        let b = w.subrange(start, start + k - 1);
        assert(b.push(w[start + k - 1]) =~= w.subrange(start, start + k));
        lemma_ascii_utf8_len(w.subrange(start, start + k));
        assert(html_scan(w, start + k).1 =~= html_scan(w, start + k - 1).1 + Seq::<char>::empty());
    }
}

/// A tag name as written in plain lower-case HTML: ASCII lower-case
/// letters and digits.
pub open spec fn plain_tag_name(t: Seq<char>) -> bool {
    t.len() > 0 && forall|j: int| 0 <= j < t.len() ==> ('a' <= #[trigger] t[j] <= 'z') || ('0' <= t[j] <= '9')
}

proof fn lemma_plain_tag_name_of(t: Seq<char>)
    requires
        forall|j: int| 0 <= j < t.len() ==> ('a' <= #[trigger] t[j] <= 'z') || ('0' <= t[j] <= '9'),
    ensures
        tag_name_of(t) == t,
    decreases t.len(),
{
    if t.len() > 0 {
        let u = t.drop_last();
        assert forall|j: int| 0 <= j < u.len() implies ('a' <= #[trigger] u[j] <= 'z') || ('0' <= u[j] <= '9') by {
            assert(u[j] == t[j]);
        }
        lemma_plain_tag_name_of(u);
        assert(('a' <= t.last() <= 'z') || ('0' <= t.last() <= '9'));
    }
}

/// What closing a plain tag name writes and sets.
proof fn lemma_close_plain_tag(t: Seq<char>)
    requires
        plain_tag_name(t),
    ensures
        close_tag(false, false, t) == (if t == "script"@ {
            (true, false, Seq::<char>::empty())
        } else if t == "style"@ {
            (false, true, Seq::<char>::empty())
        } else if is_block_tag(t) {
            (false, false, seq!['\n'])
        } else {
            (false, false, Seq::<char>::empty())
        }),
{
    reveal_strlit("/script");
    reveal_strlit("/style");
    assert(trim_start(t) == t);
    assert(crate::strs::is_ascii(t));
    assert(lowercase(t) =~= t);
    lemma_plain_tag_name_of(t);
    assert(t[0] != '/');
    assert("/script"@[0] == '/');
    assert("/style"@[0] == '/');
}

/// Inside a tag every character up to `>` is gathered, with nothing
/// written.
proof fn lemma_tag_gathers(w: Seq<char>, start: int, k: int, sc: bool, st: bool)
    requires
        0 <= start,
        0 <= k,
        start + k <= w.len(),
        html_scan(w, start).0 == (HtmlScan { mode: HtmlMode::Tag, in_script: sc, in_style: st, buf: Seq::empty() }),
        forall|j: int| start <= j < start + k ==> w[j] != '>',
    ensures
        html_scan(w, start + k).0 == (HtmlScan {
            mode: HtmlMode::Tag,
            in_script: sc,
            in_style: st,
            buf: w.subrange(start, start + k),
        }),
        html_scan(w, start + k).1 == html_scan(w, start).1,
    decreases k,
{
    if k == 0 {
        assert(w.subrange(start, start) =~= Seq::<char>::empty());
    } else {
        lemma_tag_gathers(w, start, k - 1, sc, st);
        assert(w.subrange(start, start + k - 1).push(w[start + k - 1]) =~= w.subrange(start, start + k));
        assert(html_scan(w, start + k).1 =~= html_scan(w, start + k - 1).1 + Seq::<char>::empty());
    }
}

/// A tag `<name>` after a prefix that leaves the scanner at rest.
proof fn lemma_plain_tag_closed(p: Seq<char>, name: Seq<char>)
    requires
        html_scan(p, p.len() as int).0 == html_start(),
        plain_tag_name(name),
    ensures
        ({
            let (sc, st, out) = close_tag(false, false, name);
            html_scan(p + seq!['<'] + name + seq!['>'], (p.len() + name.len() + 2) as int) == (
                HtmlScan { mode: HtmlMode::Text, in_script: sc, in_style: st, buf: Seq::empty() },
                html_text(p) + out,
            )
        }),
{
    let n = p.len() as int;
    let k = name.len() as int;
    let v = p + seq!['<'] + name + seq!['>'];
    assert(v.take(n) =~= p.take(n));
    lemma_scan_prefix(v, p, n);
    assert(v[n] == '<');
    assert(html_scan(v, n + 1).1 =~= html_scan(p, n).1 + Seq::<char>::empty());
    assert forall|j: int| n + 1 <= j < n + 1 + k implies v[j] != '>' by {
        assert(v[j] == name[j - n - 1]);
    }
    lemma_tag_gathers(v, n + 1, k, false, false);
    assert(v.subrange(n + 1, n + 1 + k) =~= name);
    assert(v[n + k + 1] == '>');
    assert(html_text(p) == html_scan(p, n).1);
}

/// A block tag (`<p>`, `<div>`, `<br>`, `<h1>`..`<h6>`, `<li>`, `<tr>`,
/// `<section>`, `<article>`, `<header>`, `<footer>`, `<main>`,
/// `<blockquote>`) in ordinary text starts a new line; any other plain tag
/// but `<script>` and `<style>` writes nothing.  Either way the scanner is
/// back in ordinary text.
pub proof fn law_tags_in_text(p: Seq<char>, name: Seq<char>)
    requires
        html_scan(p, p.len() as int).0 == html_start(),
        plain_tag_name(name),
        name != "script"@,
        name != "style"@,
    ensures
        (name == "p"@ || name == "div"@ || name == "br"@ || name == "h1"@ || name == "h2"@ || name == "h3"@ || name == "h4"@ || name == "h5"@ || name == "h6"@ || name == "li"@ || name == "tr"@ || name == "section"@ || name == "article"@ || name == "header"@ || name == "footer"@ || name == "main"@ || name == "blockquote"@) ==> html_text(p + seq!['<'] + name + seq!['>']) == html_text(p) + seq!['\n'],
        !((name == "p"@ || name == "div"@ || name == "br"@ || name == "h1"@ || name == "h2"@ || name == "h3"@ || name == "h4"@ || name == "h5"@ || name == "h6"@ || name == "li"@ || name == "tr"@ || name == "section"@ || name == "article"@ || name == "header"@ || name == "footer"@ || name == "main"@ || name == "blockquote"@)) ==> html_text(p + seq!['<'] + name + seq!['>']) == html_text(p),
        html_scan(p + seq!['<'] + name + seq!['>'], (p.len() + name.len() + 2) as int).0 == html_start(),
{
    reveal_strlit("p");
    reveal_strlit("div");
    reveal_strlit("br");
    reveal_strlit("h1");
    reveal_strlit("h2");
    reveal_strlit("h3");
    reveal_strlit("h4");
    reveal_strlit("h5");
    reveal_strlit("h6");
    reveal_strlit("li");
    reveal_strlit("tr");
    reveal_strlit("section");
    reveal_strlit("article");
    reveal_strlit("header");
    reveal_strlit("footer");
    reveal_strlit("main");
    reveal_strlit("blockquote");
    reveal_strlit("script");
    reveal_strlit("style");
    reveal_strlit("/script");
    reveal_strlit("/style");
    assert("p"@.len() == 1);
    assert("div"@.len() == 3);
    assert("br"@.len() == 2);
    assert("h1"@.len() == 2);
    assert("h2"@.len() == 2);
    assert("h3"@.len() == 2);
    assert("h4"@.len() == 2);
    assert("h5"@.len() == 2);
    assert("h6"@.len() == 2);
    assert("li"@.len() == 2);
    assert("tr"@.len() == 2);
    assert("section"@.len() == 7);
    assert("article"@.len() == 7);
    assert("header"@.len() == 6);
    assert("footer"@.len() == 6);
    assert("main"@.len() == 4);
    assert("blockquote"@.len() == 10);
    assert("script"@.len() == 6);
    assert("style"@.len() == 5);
    assert("/script"@.len() == 7);
    assert("/style"@.len() == 6);
    assert("header"@[0] != "script"@[0]);
    assert("footer"@[0] != "script"@[0]);
    lemma_close_plain_tag(name);
    lemma_plain_tag_closed(p, name);
}

/// Inside `<script>`, text other than `<` is passed over with nothing
/// written.
proof fn lemma_script_text_skipped(w: Seq<char>, start: int, k: int)
    requires
        0 <= start,
        0 <= k,
        start + k <= w.len(),
        html_scan(w, start).0 == (HtmlScan { mode: HtmlMode::Text, in_script: true, in_style: false, buf: Seq::empty() }),
        forall|j: int| start <= j < start + k ==> w[j] != '<',
    ensures
        html_scan(w, start + k).0 == html_scan(w, start).0,
        html_scan(w, start + k).1 == html_scan(w, start).1,
    decreases k,
{
    if k > 0 {
        lemma_script_text_skipped(w, start, k - 1);
        assert(html_scan(w, start + k).1 =~= html_scan(w, start + k - 1).1 + Seq::<char>::empty());
    }
}

/// A script in ordinary text writes nothing: `<script>`, code without `<`,
/// `</script>`, and the scanner is back in ordinary text.
pub proof fn law_script_dropped(p: Seq<char>, code: Seq<char>)
    requires
        html_scan(p, p.len() as int).0 == html_start(),
        forall|j: int| 0 <= j < code.len() ==> code[j] != '<',
    ensures
        html_text(p + "<script>"@ + code + "</script>"@) == html_text(p),
        html_scan(p + "<script>"@ + code + "</script>"@, (p.len() + code.len() + 17) as int).0 == html_start(),
{
    reveal_strlit("<script>");
    reveal_strlit("</script>");
    reveal_strlit("script");
    reveal_strlit("/script");
    let n = p.len() as int;
    let c = code.len() as int;
    let name = "script"@;
    assert(plain_tag_name(name));
    let a = p + seq!['<'] + name + seq!['>'];
    let w = p + "<script>"@ + code + "</script>"@;
    assert(a =~= p + "<script>"@);
    assert(w.len() == n + c + 17);
    lemma_plain_tag_closed(p, name);
    lemma_close_plain_tag(name);
    assert(w.take(n + 8) =~= a.take(n + 8));
    lemma_scan_prefix(w, a, n + 8);
    assert(html_scan(w, n + 8).1 =~= html_text(p) + Seq::<char>::empty());
    assert forall|j: int| n + 8 <= j < n + 8 + c implies w[j] != '<' by {
        assert(w[j] == code[j - n - 8]);
    }
    lemma_script_text_skipped(w, n + 8, c);
    assert(w[n + 8 + c] == '<');
    let close = "/script"@;
    assert forall|j: int| n + 9 + c <= j < n + 9 + c + 7 implies w[j] != '>' by {
        assert(w[j] == "</script>"@[j - n - 8 - c]);
    }
    lemma_tag_gathers(w, n + 9 + c, 7, true, false);
    assert(w.subrange(n + 9 + c, n + 16 + c) =~= close);
    assert(w[n + 16 + c] == '>');
    assert(trim_start(close) == close);
    assert(crate::strs::is_ascii(close));
    assert(lowercase(close) =~= close);
    assert(close.subrange(0, close.len() as int) =~= close);
    assert(starts_with(close, "/script"@));
    assert(close_tag(true, false, close) == (false, false, Seq::<char>::empty()));
    assert(html_scan(w, n + c + 17).1 =~= html_text(p) + Seq::<char>::empty());
}

/// The entity table: each name or number the reader decodes, and its
/// character.
pub proof fn law_entity_table()
    ensures
        entity_text("amp"@) == seq!['&'],
        entity_text("lt"@) == seq!['<'],
        entity_text("gt"@) == seq!['>'],
        entity_text("quot"@) == seq!['"'],
        entity_text("apos"@) == seq!['\''],
        entity_text("nbsp"@) == seq![' '],
        entity_text("mdash"@) == seq!['\u{2014}'],
        entity_text("#8212"@) == seq!['\u{2014}'],
        entity_text("ndash"@) == seq!['\u{2013}'],
        entity_text("#8211"@) == seq!['\u{2013}'],
        entity_text("ldquo"@) == seq!['"'],
        entity_text("#8220"@) == seq!['"'],
        entity_text("rdquo"@) == seq!['"'],
        entity_text("#8221"@) == seq!['"'],
        entity_text("lsquo"@) == seq!['\u{2018}'],
        entity_text("#8216"@) == seq!['\u{2018}'],
        entity_text("rsquo"@) == seq!['\u{2019}'],
        entity_text("#8217"@) == seq!['\u{2019}'],
        entity_text("hellip"@) == seq!['\u{2026}'],
        entity_text("#8230"@) == seq!['\u{2026}'],
{
    reveal_strlit("amp");
    reveal_strlit("lt");
    reveal_strlit("gt");
    reveal_strlit("quot");
    reveal_strlit("apos");
    reveal_strlit("nbsp");
    reveal_strlit("mdash");
    reveal_strlit("#8212");
    reveal_strlit("ndash");
    reveal_strlit("#8211");
    reveal_strlit("ldquo");
    reveal_strlit("#8220");
    reveal_strlit("rdquo");
    reveal_strlit("#8221");
    reveal_strlit("lsquo");
    reveal_strlit("#8216");
    reveal_strlit("rsquo");
    reveal_strlit("#8217");
    reveal_strlit("hellip");
    reveal_strlit("#8230");
    assert("amp"@.len() == 3);
    assert("lt"@.len() == 2);
    assert("gt"@.len() == 2);
    assert("quot"@.len() == 4);
    assert("apos"@.len() == 4);
    assert("nbsp"@.len() == 4);
    assert("mdash"@.len() == 5);
    assert("#8212"@.len() == 5);
    assert("ndash"@.len() == 5);
    assert("#8211"@.len() == 5);
    assert("ldquo"@.len() == 5);
    assert("#8220"@.len() == 5);
    assert("rdquo"@.len() == 5);
    assert("#8221"@.len() == 5);
    assert("lsquo"@.len() == 5);
    assert("#8216"@.len() == 5);
    assert("rsquo"@.len() == 5);
    assert("#8217"@.len() == 5);
    assert("hellip"@.len() == 6);
    assert("#8230"@.len() == 5);
    assert("gt"@[0] != "lt"@[0]);
    assert("apos"@[0] != "quot"@[0]);
    assert("nbsp"@[0] != "quot"@[0]);
    assert("nbsp"@[0] != "apos"@[0]);
    assert("#8212"@[0] != "mdash"@[0]);
    assert("ndash"@[0] != "mdash"@[0]);
    assert("ndash"@[0] != "#8212"@[0]);
    assert("#8211"@[0] != "mdash"@[0]);
    assert("#8211"@[4] != "#8212"@[4]);
    assert("#8211"@[0] != "ndash"@[0]);
    assert("ldquo"@[0] != "mdash"@[0]);
    assert("ldquo"@[0] != "#8212"@[0]);
    assert("ldquo"@[0] != "ndash"@[0]);
    assert("ldquo"@[0] != "#8211"@[0]);
    assert("#8220"@[0] != "mdash"@[0]);
    assert("#8220"@[3] != "#8212"@[3]);
    assert("#8220"@[0] != "ndash"@[0]);
    assert("#8220"@[3] != "#8211"@[3]);
    assert("#8220"@[0] != "ldquo"@[0]);
    assert("rdquo"@[0] != "mdash"@[0]);
    assert("rdquo"@[0] != "#8212"@[0]);
    assert("rdquo"@[0] != "ndash"@[0]);
    assert("rdquo"@[0] != "#8211"@[0]);
    assert("rdquo"@[0] != "ldquo"@[0]);
    assert("rdquo"@[0] != "#8220"@[0]);
    assert("#8221"@[0] != "mdash"@[0]);
    assert("#8221"@[3] != "#8212"@[3]);
    assert("#8221"@[0] != "ndash"@[0]);
    assert("#8221"@[3] != "#8211"@[3]);
    assert("#8221"@[0] != "ldquo"@[0]);
    assert("#8221"@[4] != "#8220"@[4]);
    assert("#8221"@[0] != "rdquo"@[0]);
    assert("lsquo"@[0] != "mdash"@[0]);
    assert("lsquo"@[0] != "#8212"@[0]);
    assert("lsquo"@[0] != "ndash"@[0]);
    assert("lsquo"@[0] != "#8211"@[0]);
    assert("lsquo"@[1] != "ldquo"@[1]);
    assert("lsquo"@[0] != "#8220"@[0]);
    assert("lsquo"@[0] != "rdquo"@[0]);
    assert("lsquo"@[0] != "#8221"@[0]);
    assert("#8216"@[0] != "mdash"@[0]);
    assert("#8216"@[4] != "#8212"@[4]);
    assert("#8216"@[0] != "ndash"@[0]);
    assert("#8216"@[4] != "#8211"@[4]);
    assert("#8216"@[0] != "ldquo"@[0]);
    assert("#8216"@[3] != "#8220"@[3]);
    assert("#8216"@[0] != "rdquo"@[0]);
    assert("#8216"@[3] != "#8221"@[3]);
    assert("#8216"@[0] != "lsquo"@[0]);
    assert("rsquo"@[0] != "mdash"@[0]);
    assert("rsquo"@[0] != "#8212"@[0]);
    assert("rsquo"@[0] != "ndash"@[0]);
    assert("rsquo"@[0] != "#8211"@[0]);
    assert("rsquo"@[0] != "ldquo"@[0]);
    assert("rsquo"@[0] != "#8220"@[0]);
    assert("rsquo"@[1] != "rdquo"@[1]);
    assert("rsquo"@[0] != "#8221"@[0]);
    assert("rsquo"@[0] != "lsquo"@[0]);
    assert("rsquo"@[0] != "#8216"@[0]);
    assert("#8217"@[0] != "mdash"@[0]);
    assert("#8217"@[4] != "#8212"@[4]);
    assert("#8217"@[0] != "ndash"@[0]);
    assert("#8217"@[4] != "#8211"@[4]);
    assert("#8217"@[0] != "ldquo"@[0]);
    assert("#8217"@[3] != "#8220"@[3]);
    assert("#8217"@[0] != "rdquo"@[0]);
    assert("#8217"@[3] != "#8221"@[3]);
    assert("#8217"@[0] != "lsquo"@[0]);
    assert("#8217"@[4] != "#8216"@[4]);
    assert("#8217"@[0] != "rsquo"@[0]);
    assert("#8230"@[0] != "mdash"@[0]);
    assert("#8230"@[3] != "#8212"@[3]);
    assert("#8230"@[0] != "ndash"@[0]);
    assert("#8230"@[3] != "#8211"@[3]);
    assert("#8230"@[0] != "ldquo"@[0]);
    assert("#8230"@[3] != "#8220"@[3]);
    assert("#8230"@[0] != "rdquo"@[0]);
    assert("#8230"@[3] != "#8221"@[3]);
    assert("#8230"@[0] != "lsquo"@[0]);
    assert("#8230"@[3] != "#8216"@[3]);
    assert("#8230"@[0] != "rsquo"@[0]);
    assert("#8230"@[3] != "#8217"@[3]);
}

/// An entity of up to eight ASCII characters, closed by `;`, after a
/// prefix that leaves the scanner at rest: what it writes is `entity_out`
/// of its name, and the scanner is at rest again.
proof fn lemma_entity_closed(p: Seq<char>, name: Seq<char>)
    requires
        html_scan(p, p.len() as int).0 == html_start(),
        1 <= name.len() <= 8,
        forall|j: int| 0 <= j < name.len() ==> name[j] != ';' && !is_ws(name[j]) && (name[j] as u32) < 128,
    ensures
        html_scan(p + seq!['&'] + name + seq![';'], (p.len() + name.len() + 2) as int) == (
            html_start(),
            html_text(p) + entity_out(name),
        ),
        html_text(p + seq!['&'] + name + seq![';']) == html_text(p) + entity_out(name),
{
    let n = p.len() as int;
    let k = name.len() as int;
    let v = p + seq!['&'] + name + seq![';'];
    assert(v.len() == n + k + 2);
    assert(v.take(n) =~= p.take(n));
    lemma_scan_prefix(v, p, n);
    assert(v[n] == '&');
    assert(html_scan(v, n + 1).0 == (HtmlScan { mode: HtmlMode::Entity, in_script: false, in_style: false, buf: Seq::empty() }));
    assert(html_scan(v, n + 1).1 =~= html_scan(p, n).1 + Seq::<char>::empty());
    assert forall|j: int| n + 1 <= j < n + 1 + k implies v[j] != ';' && !is_ws(v[j]) && (v[j] as u32) < 128 by {
        assert(v[j] == name[j - n - 1]);
    }
    lemma_entity_gathers(v, n + 1, k);
    assert(v.subrange(n + 1, n + 1 + k) =~= name);
    assert(v[n + k + 1] == ';');
    assert(html_text(p) == html_scan(p, n).1);
}

/// The entities in ordinary text (outside tags, `<script>` and `<style>`)
/// are decoded: `&amp;`, `&lt;`, `&gt;`, `&quot;`, `&apos;` and `&nbsp;` to
/// `&`, `<`, `>`, `"`, `'` and a space, and the dashes, curly quotes and
/// ellipsis by name or by number (`&mdash;` or `&#8212;` to an em dash,
/// `&ldquo;`/`&rdquo;` to `"`, ...): after a prefix `p` that leaves the
/// scanner in plain text, the page's text is `p`'s text, then the
/// character, then whatever `q` gives.
pub proof fn law_named_entities_decode(p: Seq<char>, name: Seq<char>, c: char, q: Seq<char>)
    requires
        (name == "amp"@ && c == '&') || (name == "lt"@ && c == '<') || (name == "gt"@ && c == '>') || (name
            == "quot"@ && c == '"') || (name == "apos"@ && c == '\'') || (name == "nbsp"@ && c == ' ') || ((name
            == "mdash"@ || name == "#8212"@) && c == '\u{2014}') || ((name == "ndash"@ || name == "#8211"@) && c
            == '\u{2013}') || ((name == "ldquo"@ || name == "#8220"@ || name == "rdquo"@ || name == "#8221"@) && c
            == '"') || ((name == "lsquo"@ || name == "#8216"@) && c == '\u{2018}') || ((name == "rsquo"@ || name
            == "#8217"@) && c == '\u{2019}') || ((name == "hellip"@ || name == "#8230"@) && c == '\u{2026}'),
        html_scan(p, p.len() as int).0 == html_start(),
    ensures
        starts_with(html_text(p + seq!['&'] + name + seq![';'] + q), html_text(p) + seq![c]),
        html_text(p + seq!['&'] + name + seq![';']) == html_text(p) + seq![c],
        html_scan(p + seq!['&'] + name + seq![';'], (p.len() + name.len() + 2) as int).0 == html_start(),
{
    reveal_strlit("amp");
    reveal_strlit("lt");
    reveal_strlit("gt");
    reveal_strlit("quot");
    reveal_strlit("apos");
    reveal_strlit("nbsp");
    reveal_strlit("mdash");
    reveal_strlit("#8212");
    reveal_strlit("ndash");
    reveal_strlit("#8211");
    reveal_strlit("ldquo");
    reveal_strlit("#8220");
    reveal_strlit("rdquo");
    reveal_strlit("#8221");
    reveal_strlit("lsquo");
    reveal_strlit("#8216");
    reveal_strlit("rsquo");
    reveal_strlit("#8217");
    reveal_strlit("hellip");
    reveal_strlit("#8230");
    let n = p.len() as int;
    let k = name.len() as int;
    assert(1 <= k <= 6);
    assert forall|j: int| 0 <= j < k implies name[j] != ';' && !is_ws(name[j]) && (name[j] as u32) < 128 by {}
    let w = p + seq!['&'] + name + seq![';'] + q;
    let v = p + seq!['&'] + name + seq![';'];
    lemma_entity_closed(p, name);
    law_entity_table();
    assert(entity_out(name) == seq![c]);
    assert(w.take(n + k + 2) =~= v.take(n + k + 2));
    lemma_scan_prefix(w, v, n + k + 2);
    lemma_scan_output_grows(w, n + k + 2, w.len() as int);
}

/// Any other name between `&` and `;` (up to eight ASCII characters, no
/// whitespace) is not an entity the reader knows, and is kept as written.
pub proof fn law_unknown_entity_kept(p: Seq<char>, name: Seq<char>)
    requires
        html_scan(p, p.len() as int).0 == html_start(),
        1 <= name.len() <= 8,
        forall|j: int| 0 <= j < name.len() ==> name[j] != ';' && !is_ws(name[j]) && (name[j] as u32) < 128,
        !(name == "amp"@ || name == "lt"@ || name == "gt"@ || name == "quot"@ || name == "apos"@ || name == "nbsp"@ || name == "mdash"@ || name == "#8212"@ || name == "ndash"@ || name == "#8211"@ || name == "ldquo"@ || name == "#8220"@ || name == "rdquo"@ || name == "#8221"@ || name == "lsquo"@ || name == "#8216"@ || name == "rsquo"@ || name == "#8217"@ || name == "hellip"@ || name == "#8230"@),
    ensures
        html_text(p + seq!['&'] + name + seq![';']) == html_text(p) + seq!['&'] + name + seq![';'],
{
    reveal_strlit("amp");
    reveal_strlit("lt");
    reveal_strlit("gt");
    reveal_strlit("quot");
    reveal_strlit("apos");
    reveal_strlit("nbsp");
    reveal_strlit("mdash");
    reveal_strlit("#8212");
    reveal_strlit("ndash");
    reveal_strlit("#8211");
    reveal_strlit("ldquo");
    reveal_strlit("#8220");
    reveal_strlit("rdquo");
    reveal_strlit("#8221");
    reveal_strlit("lsquo");
    reveal_strlit("#8216");
    reveal_strlit("rsquo");
    reveal_strlit("#8217");
    reveal_strlit("hellip");
    reveal_strlit("#8230");
    lemma_entity_closed(p, name);
}

fn tag_name_exec(t: &Vec<char>) -> (r: Vec<char>)
    ensures
        r@ == tag_name_of(t@),
{
    let mut i: usize = 0;
    while i < t.len() && !is_whitespace(t[i]) && t[i] != '/'
        invariant
            0 <= i <= t@.len(),
            tag_name_of(t@.take(i as int)) == t@.take(i as int),
            forall|k: int| 0 <= k < i ==> !is_ws(#[trigger] t@[k]) && t@[k] != '/',
        decreases t.len() - i,
    {
        assert(t@.take(i + 1).drop_last() =~= t@.take(i as int));
        i += 1;
    }
    let ghost head = t@.take(i as int);
    assert forall|j: int| i <= j <= t@.len() implies #[trigger] tag_name_of(t@.take(j)) == head by {
        lemma_tag_name_stops(t@, i as int, j);
    }
    assert(t@.take(t@.len() as int) =~= t@);
    sub_vec(t, 0, i)
}

proof fn lemma_tag_name_stops(t: Seq<char>, i: int, j: int)
    requires
        0 <= i <= j <= t.len(),
        tag_name_of(t.take(i)) == t.take(i),
        i < t.len() ==> (is_ws(t[i]) || t[i] == '/'),
    ensures
        tag_name_of(t.take(j)) == t.take(i),
    decreases j - i,
{
    if j > i {
        lemma_tag_name_stops(t, i, j - 1);
        assert(t.take(j).drop_last() =~= t.take(j - 1));
        if j - 1 == i {
            assert(t.take(j).last() == t[i]);
        }
    }
}

fn close_tag_exec(in_script: bool, in_style: bool, buf: &Vec<char>) -> (r: (bool, bool, bool))
    ensures
        (r.0, r.1, if r.2 { seq!['\n'] } else { Seq::<char>::empty() }) == close_tag(in_script, in_style, buf@),
{
    assert(buf@.subrange(0, buf@.len() as int) =~= buf@);
    let trimmed_start = {
        let mut a: usize = 0;
        while a < buf.len() && is_whitespace(buf[a])
            invariant
                0 <= a <= buf@.len(),
                trim_start(buf@) == trim_start(buf@.subrange(a as int, buf@.len() as int)),
            decreases buf.len() - a,
        {
            assert(buf@.subrange(a as int, buf@.len() as int).drop_first() =~= buf@.subrange(a + 1, buf@.len() as int));
            a += 1;
        }
        sub_vec(buf, a, buf.len())
    };
    assert(buf@.subrange(0, buf@.len() as int) =~= buf@);
    let lower_s = to_lowercase(string_of(&trimmed_start).as_str());
    let lower = chars_of(lower_s.as_str());
    let name = tag_name_exec(&lower);
    let name_s = string_of(&name);
    let n = name_s.as_str();
    if crate::strs::has_prefix(&lower, &chars_of("/script")) {
        (false, in_style, false)
    } else if crate::strs::has_prefix(&lower, &chars_of("/style")) {
        (in_script, false, false)
    } else if crate::strs::str_eq(n, "script") {
        (true, in_style, false)
    } else if crate::strs::str_eq(n, "style") {
        (in_script, true, false)
    } else if (crate::strs::str_eq(n, "p") || crate::strs::str_eq(n, "div") || crate::strs::str_eq(n, "br")
        || crate::strs::str_eq(n, "h1") || crate::strs::str_eq(n, "h2") || crate::strs::str_eq(n, "h3")
        || crate::strs::str_eq(n, "h4") || crate::strs::str_eq(n, "h5") || crate::strs::str_eq(n, "h6")
        || crate::strs::str_eq(n, "li") || crate::strs::str_eq(n, "tr") || crate::strs::str_eq(n, "section")
        || crate::strs::str_eq(n, "article") || crate::strs::str_eq(n, "header") || crate::strs::str_eq(n, "footer")
        || crate::strs::str_eq(n, "main") || crate::strs::str_eq(n, "blockquote")) && !in_script && !in_style {
        (in_script, in_style, true)
    } else {
        (in_script, in_style, false)
    }
}

fn entity_exec(e: &Vec<char>, out: &mut Vec<char>)
    ensures
        final(out)@ == old(out)@ + entity_out(e@),
{
    if e.len() == 0 {
        assert(old(out)@ + entity_out(e@) =~= old(out)@);
        return;
    }
    let s = string_of(e);
    let t = s.as_str();
    if crate::strs::str_eq(t, "amp") {
        out.push('&');
    } else if crate::strs::str_eq(t, "lt") {
        out.push('<');
    } else if crate::strs::str_eq(t, "gt") {
        out.push('>');
    } else if crate::strs::str_eq(t, "quot") {
        out.push('"');
    } else if crate::strs::str_eq(t, "apos") {
        out.push('\'');
    } else if crate::strs::str_eq(t, "nbsp") {
        out.push(' ');
    } else if crate::strs::str_eq(t, "mdash") || crate::strs::str_eq(t, "#8212") {
        out.push('\u{2014}');
    } else if crate::strs::str_eq(t, "ndash") || crate::strs::str_eq(t, "#8211") {
        out.push('\u{2013}');
    } else if crate::strs::str_eq(t, "ldquo") || crate::strs::str_eq(t, "#8220") {
        out.push('"');
    } else if crate::strs::str_eq(t, "rdquo") || crate::strs::str_eq(t, "#8221") {
        out.push('"');
    } else if crate::strs::str_eq(t, "lsquo") || crate::strs::str_eq(t, "#8216") {
        out.push('\u{2018}');
    } else if crate::strs::str_eq(t, "rsquo") || crate::strs::str_eq(t, "#8217") {
        out.push('\u{2019}');
    } else if crate::strs::str_eq(t, "hellip") || crate::strs::str_eq(t, "#8230") {
        out.push('\u{2026}');
    } else {
        out.push('&');
        crate::strs::push_all(out, e);
        out.push(';');
    }
    assert(final(out)@ =~= old(out)@ + entity_out(e@));
}

/// Plain text of an HTML page (see `html_text`).
pub fn strip_html(html: &str) -> (r: String)
    ensures
        r@ == html_text(html@),
{
    let v = chars_of(html);
    let mut out: Vec<char> = Vec::new();
    let mut mode = HtmlMode::Text;
    let mut in_script = false;
    let mut in_style = false;
    let mut buf: Vec<char> = Vec::new();
    let mut i: usize = 0;
    while i < v.len()
        invariant
            0 <= i <= v@.len(),
            v@ == html@,
            (HtmlScan { mode: mode, in_script: in_script, in_style: in_style, buf: buf@ }, out@) == html_scan(
                html@,
                i as int,
            ),
        decreases v.len() - i,
    {
        let c = v[i];
        let ghost before = out@;
        match mode {
            HtmlMode::Tag => {
                if c == '>' {
                    let (sc, st, nl) = close_tag_exec(in_script, in_style, &buf);
                    in_script = sc;
                    in_style = st;
                    if nl {
                        out.push('\n');
                    }
                    buf = Vec::new();
                    mode = HtmlMode::Text;
                } else {
                    buf.push(c);
                }
            },
            HtmlMode::Entity => {
                if c == ';' {
                    entity_exec(&buf, &mut out);
                    buf = Vec::new();
                    mode = HtmlMode::Text;
                } else if is_whitespace(c) {
                    out.push('&');
                    out.push(c);
                    buf = Vec::new();
                    mode = HtmlMode::Text;
                } else {
                    buf.push(c);
                    let bytes = string_of(&buf);
                    if bytes.as_str().as_bytes().len() > 8 {
                        out.push('&');
                        crate::strs::push_all(&mut out, &buf);
                        buf = Vec::new();
                        mode = HtmlMode::Text;
                    }
                }
            },
            HtmlMode::Text => {
                if c == '<' {
                    mode = HtmlMode::Tag;
                    buf = Vec::new();
                } else if !in_script && !in_style {
                    if c == '&' {
                        mode = HtmlMode::Entity;
                        buf = Vec::new();
                    } else {
                        out.push(c);
                    }
                }
            },
        }
        proof {
            let (s2, o) = html_step(html_scan(html@, i as int).0, c);
            assert(out@ =~= before + o);
        }
        i += 1;
    }
    if mode == HtmlMode::Entity {
        entity_exec(&buf, &mut out);
    }
    string_of(&out)
}

// ---------------------------------------------------------------------------
// Wrapping
// ---------------------------------------------------------------------------

/// The column width of wrapped text.
pub const WRAP_WIDTH: usize = 80;

/// The pieces of `s` between `\n`s (one more than there are `\n`s).
pub open spec fn pieces(s: Seq<char>) -> Seq<Seq<char>>
    decreases s.len(),
{
    if s.len() == 0 {
        seq![Seq::empty()]
    } else {
        let p = pieces(s.drop_last());
        if s.last() == '\n' {
            p.push(Seq::empty())
        } else {
            p.update(p.len() - 1, p.last().push(s.last()))
        }
    }
}

/// A line ended by `\n`, without a `\r` just before it.
pub open spec fn without_cr(l: Seq<char>) -> Seq<char> {
    if l.len() > 0 && l.last() == '\r' {
        l.drop_last()
    } else {
        l
    }
}

/// `str::lines`: the lines ended by `\n` or `\r\n`, and a last line without
/// an ending when it is not empty.
pub open spec fn text_lines(s: Seq<char>) -> Seq<Seq<char>> {
    let p = pieces(s);
    let ended = p.drop_last().map_values(|l: Seq<char>| without_cr(l));
    if p.last().len() == 0 {
        ended
    } else {
        ended.push(p.last())
    }
}

/// Paragraph building: (paragraphs so far, current paragraph, whether the
/// previous line was blank).
pub open spec fn para_step(st: (Seq<Seq<char>>, Seq<char>, bool), raw: Seq<char>) -> (Seq<Seq<char>>, Seq<char>, bool) {
    let (paras, current, prev_blank) = st;
    let line = trim(crate::text::strip_ansi_scan(raw).1);
    if line.len() == 0 {
        if !prev_blank {
            let p2 = if trim(current).len() > 0 { paras.push(trim(current)) } else { paras };
            let c2 = if trim(current).len() > 0 { Seq::empty() } else { current };
            (p2.push(Seq::empty()), c2, true)
        } else {
            (paras, current, true)
        }
    } else {
        let c1 = if current.len() > 0 { current.push(' ') } else { current };
        (paras, c1 + line, false)
    }
}

pub open spec fn para_scan(lines: Seq<Seq<char>>) -> (Seq<Seq<char>>, Seq<char>, bool)
    decreases lines.len(),
{
    if lines.len() == 0 {
        (Seq::empty(), Seq::empty(), false)
    } else {
        para_step(para_scan(lines.drop_last()), lines.last())
    }
}

/// The paragraphs of a text: runs of non-blank lines (escape sequences
/// removed, trimmed) joined with spaces, each blank run giving one empty
/// paragraph.
pub open spec fn paragraphs(text: Seq<char>) -> Seq<Seq<char>> {
    let (paras, current, _) = para_scan(text_lines(text));
    if trim(current).len() > 0 {
        paras.push(trim(current))
    } else {
        paras
    }
}

pub open spec fn byte_len(s: Seq<char>) -> int {
    vstd::utf8::encode_utf8(s).len() as int
}

/// Greedy filling: (full lines, line being filled) after the words.
pub open spec fn fill(words: Seq<Seq<char>>, width: int) -> (Seq<Seq<char>>, Seq<char>)
    decreases words.len(),
{
    if words.len() == 0 {
        (Seq::empty(), Seq::empty())
    } else {
        let (done, buf) = fill(words.drop_last(), width);
        let w = words.last();
        if buf.len() == 0 {
            (done, w)
        } else if byte_len(buf) + 1 + byte_len(w) <= width {
            (done, buf.push(' ') + w)
        } else {
            (done.push(buf), w)
        }
    }
}

/// The lines of one paragraph: an empty paragraph is one empty line;
/// otherwise its words filled greedily into lines of at most `width`
/// bytes (a longer word gets a line of its own).
pub open spec fn para_lines(para: Seq<char>, width: int) -> Seq<Seq<char>> {
    if para.len() == 0 {
        seq![Seq::empty()]
    } else {
        let (done, buf) = fill(crate::text::words(para), width);
        if buf.len() > 0 {
            done.push(buf)
        } else {
            done
        }
    }
}

pub open spec fn all_lines(paras: Seq<Seq<char>>, width: int) -> Seq<Seq<char>>
    decreases paras.len(),
{
    if paras.len() == 0 {
        Seq::empty()
    } else {
        all_lines(paras.drop_last(), width) + para_lines(paras.last(), width)
    }
}

/// Text wrapped at `width` bytes, paragraph by paragraph.
pub open spec fn wrapped(text: Seq<char>, width: int) -> Seq<Seq<char>> {
    all_lines(paragraphs(text), width)
}

fn split_pieces(v: &Vec<char>) -> (r: Vec<Vec<char>>)
    ensures
        crate::text::char_vecs(r@) == pieces(v@),
        r@.len() > 0,
{
    let mut out: Vec<Vec<char>> = Vec::new();
    out.push(Vec::new());
    assert(crate::text::char_vecs(out@) =~= pieces(v@.take(0)));
    let mut i: usize = 0;
    while i < v.len()
        invariant
            0 <= i <= v@.len(),
            out@.len() > 0,
            crate::text::char_vecs(out@) == pieces(v@.take(i as int)),
        decreases v.len() - i,
    {
        let c = v[i];
        assert(v@.take(i + 1).drop_last() =~= v@.take(i as int));
        assert(v@.take(i + 1).last() == c);
        let ghost before = crate::text::char_vecs(out@);
        if c == '\n' {
            out.push(Vec::new());
            assert(crate::text::char_vecs(out@) =~= before.push(Seq::empty()));
        } else {
            let mut last = out.pop().unwrap();
            last.push(c);
            out.push(last);
            assert(crate::text::char_vecs(out@) =~= before.update(before.len() - 1, before.last().push(c)));
        }
        i += 1;
    }
    assert(v@.take(v@.len() as int) =~= v@);
    out
}

fn lines_of(text: &str) -> (r: Vec<Vec<char>>)
    ensures
        crate::text::char_vecs(r@) == text_lines(text@),
{
    let v = chars_of(text);
    let mut p = split_pieces(&v);
    let ghost pv = pieces(v@);
    let ghost p0 = p@;
    let last = p.pop().unwrap();
    assert(p@ =~= p0.drop_last());
    assert(crate::text::char_vecs(p@) =~= pv.drop_last());
    assert(last@ == pv.last());
    let mut out: Vec<Vec<char>> = Vec::new();
    let mut i: usize = 0;
    while i < p.len()
        invariant
            0 <= i <= p@.len(),
            crate::text::char_vecs(p@) == pv.drop_last(),
            crate::text::char_vecs(out@) == pv.drop_last().take(i as int).map_values(|l: Seq<char>| without_cr(l)),
        decreases p.len() - i,
    {
        let l = &p[i];
        let ghost lv = pv.drop_last()[i as int];
        assert(l@ == lv);
        let item = if l.len() > 0 && l[l.len() - 1] == '\r' {
            sub_vec(l, 0, l.len() - 1)
        } else {
            sub_vec(l, 0, l.len())
        };
        assert(item@ =~= without_cr(lv));
        let ghost before = crate::text::char_vecs(out@);
        out.push(item);
        assert(crate::text::char_vecs(out@) =~= before.push(without_cr(lv)));
        assert(pv.drop_last().take(i + 1).map_values(|l: Seq<char>| without_cr(l)) =~= pv.drop_last().take(
            i as int,
        ).map_values(|l: Seq<char>| without_cr(l)).push(without_cr(lv)));
        i += 1;
    }
    assert(pv.drop_last().take(p@.len() as int) =~= pv.drop_last());
    assert(last@ == pv.last());
    if last.len() > 0 {
        let ghost before = crate::text::char_vecs(out@);
        out.push(last);
        assert(crate::text::char_vecs(out@) =~= before.push(pv.last()));
    }
    out
}

fn paragraphs_of(text: &str) -> (r: Vec<Vec<char>>)
    ensures
        crate::text::char_vecs(r@) == paragraphs(text@),
{
    let lines = lines_of(text);
    let ghost lv = text_lines(text@);
    let mut paras: Vec<Vec<char>> = Vec::new();
    let mut current: Vec<char> = Vec::new();
    let mut prev_blank = false;
    let mut i: usize = 0;
    assert(lv.take(0) =~= Seq::<Seq<char>>::empty());
    assert(crate::text::char_vecs(paras@) =~= Seq::<Seq<char>>::empty());
    while i < lines.len()
        invariant
            0 <= i <= lines@.len(),
            crate::text::char_vecs(lines@) == lv,
            (crate::text::char_vecs(paras@), current@, prev_blank) == para_scan(lv.take(i as int)),
        decreases lines.len() - i,
    {
        assert(lv.take(i + 1).drop_last() =~= lv.take(i as int));
        assert(lv.take(i + 1).last() == lines@[i as int]@);
        let stripped = crate::text::strip_ansi(string_of(&lines[i]).as_str());
        let line = trim_vec(&chars_of(stripped.as_str()));
        let ghost before = crate::text::char_vecs(paras@);
        if line.len() == 0 {
            if !prev_blank {
                let t = trim_vec(&current);
                if t.len() > 0 {
                    paras.push(t);
                    current = Vec::new();
                }
                paras.push(Vec::new());
                proof {
                    if trim(current@).len() > 0 {
                    }
                }
            }
            prev_blank = true;
        } else {
            prev_blank = false;
            if current.len() > 0 {
                current.push(' ');
            }
            crate::strs::push_all(&mut current, &line);
        }
        proof {
            let (p2, c2, b2) = para_scan(lv.take(i + 1));
            assert(crate::text::char_vecs(paras@) =~= p2);
        }
        i += 1;
    }
    assert(lv.take(lines@.len() as int) =~= lv);
    let t = trim_vec(&current);
    if t.len() > 0 {
        let ghost before = crate::text::char_vecs(paras@);
        paras.push(t);
        assert(crate::text::char_vecs(paras@) =~= before.push(trim(current@)));
    }
    paras
}

fn byte_count(v: &Vec<char>) -> (r: usize)
    ensures
        r == byte_len(v@),
{
    let s = string_of(v);
    s.as_str().as_bytes().len()
}

fn para_lines_exec(para: &Vec<char>, width: usize, out: &mut Vec<String>)
    ensures
        final(out)@.map_values(|s: String| s@) == old(out)@.map_values(|s: String| s@) + para_lines(para@, width as int),
{
    let ghost start = old(out)@.map_values(|s: String| s@);
    if para.len() == 0 {
        out.push(String::new());
        assert(out@.map_values(|s: String| s@) =~= start + seq![Seq::<char>::empty()]);
        return;
    }
    let words = crate::text::split_words(para);
    let ghost wv = crate::text::words(para@);
    let mut buf: Vec<char> = Vec::new();
    let mut i: usize = 0;
    assert(wv.take(0) =~= Seq::<Seq<char>>::empty());
    assert(out@.map_values(|s: String| s@) =~= start + Seq::<Seq<char>>::empty());
    while i < words.len()
        invariant
            0 <= i <= words@.len(),
            crate::text::char_vecs(words@) == wv,
            out@.map_values(|s: String| s@) == start + fill(wv.take(i as int), width as int).0,
            buf@ == fill(wv.take(i as int), width as int).1,
        decreases words.len() - i,
    {
        assert(wv.take(i + 1).drop_last() =~= wv.take(i as int));
        assert(wv.take(i + 1).last() == words@[i as int]@);
        let w = &words[i];
        let ghost before = out@.map_values(|s: String| s@);
        if buf.len() == 0 {
            buf = sub_vec(w, 0, w.len());
        } else {
            let bl = byte_count(&buf);
            let wl = byte_count(w);
            if wl <= width && bl <= width - wl && 1 <= width - wl - bl {
                buf.push(' ');
                crate::strs::push_all(&mut buf, w);
            } else {
                let line = string_of(&buf);
                let ghost lv = buf@;
                out.push(line);
                assert(out@.map_values(|s: String| s@) =~= before.push(lv));
                buf = sub_vec(w, 0, w.len());
            }
        }
        i += 1;
    }
    assert(wv.take(words@.len() as int) =~= wv);
    if buf.len() > 0 {
        let ghost before = out@.map_values(|s: String| s@);
        let ghost bv = buf@;
        out.push(string_of(&buf));
        assert(out@.map_values(|s: String| s@) =~= before.push(bv));
    }
}

/// Wrap text into lines of at most `width` bytes (see `wrapped`).
pub fn wrap_lines(text: &str, width: usize) -> (r: Vec<String>)
    ensures
        r@.map_values(|s: String| s@) == wrapped(text@, width as int),
{
    let paras = paragraphs_of(text);
    let ghost pv = paragraphs(text@);
    let mut out: Vec<String> = Vec::new();
    let mut i: usize = 0;
    assert(pv.take(0) =~= Seq::<Seq<char>>::empty());
    assert(out@.map_values(|s: String| s@) =~= Seq::<Seq<char>>::empty());
    while i < paras.len()
        invariant
            0 <= i <= paras@.len(),
            crate::text::char_vecs(paras@) == pv,
            out@.map_values(|s: String| s@) == all_lines(pv.take(i as int), width as int),
        decreases paras.len() - i,
    {
        assert(pv.take(i + 1).drop_last() =~= pv.take(i as int));
        assert(pv.take(i + 1).last() == paras@[i as int]@);
        para_lines_exec(&paras[i], width, &mut out);
        i += 1;
    }
    assert(pv.take(paras@.len() as int) =~= pv);
    out
}

// ---------------------------------------------------------------------------
// Where the text comes from
// ---------------------------------------------------------------------------

/// The id that follows `prefix` in a URL, up to a query or fragment; none
/// when the prefix is missing or the id would be empty.
pub open spec fn path_id_after(url: Seq<char>, prefix: Seq<char>) -> Option<Seq<char>> {
    match find(url, prefix) {
        Some(p) => {
            let rest = url.subrange(p + prefix.len(), url.len() as int);
            let id = rest.subrange(0, crate::discovery::query_start(rest, 0));
            if id.len() > 0 {
                Some(id)
            } else {
                None
            }
        },
        None => None,
    }
}

/// The arXiv id in a paper URL: after `/papers/`, else `/abs/`, `/html/` or
/// `/pdf/`.
pub open spec fn spec_fulltext_arxiv_id(url: Seq<char>) -> Option<Seq<char>> {
    if path_id_after(url, "/papers/"@) is Some {
        path_id_after(url, "/papers/"@)
    } else if path_id_after(url, "/abs/"@) is Some {
        path_id_after(url, "/abs/"@)
    } else if path_id_after(url, "/html/"@) is Some {
        path_id_after(url, "/html/"@)
    } else {
        path_id_after(url, "/pdf/"@)
    }
}

fn path_id_exec(url: &Vec<char>, prefix: &str) -> (r: Option<Vec<char>>)
    ensures
        match r {
            Some(v) => path_id_after(url@, prefix@) == Some(v@),
            None => path_id_after(url@, prefix@) is None,
        },
{
    let pv = chars_of(prefix);
    let n = url.len();
    proof { lemma_find_from_facts(url@, pv@, 0); }
    let p = match find_at(url, &pv, 0) {
        Some(p) => p,
        None => {
            return None;
        },
    };
    assert(find_from(url@, pv@, 0) == Some(p as int));
    let rest = sub_vec(url, p + pv.len(), url.len());
    let mut q: usize = 0;
    proof { crate::discovery::lemma_query_start(rest@, 0); }
    while q < rest.len() && rest[q] != '?' && rest[q] != '#'
        invariant
            0 <= q <= rest@.len(),
            crate::discovery::query_start(rest@, 0) == crate::discovery::query_start(rest@, q as int),
        decreases rest.len() - q,
    {
        q += 1;
    }
    if q == 0 {
        return None;
    }
    Some(sub_vec(&rest, 0, q))
}

/// The arXiv id in a paper URL (see `spec_fulltext_arxiv_id`).
pub fn extract_arxiv_id(url: &str) -> (r: Option<String>)
    ensures
        crate::models::opt_view(r) == spec_fulltext_arxiv_id(url@),
{
    let v = chars_of(url);
    match path_id_exec(&v, "/papers/") {
        Some(id) => {
            return Some(string_of(&id));
        },
        None => {},
    }
    match path_id_exec(&v, "/abs/") {
        Some(id) => {
            return Some(string_of(&id));
        },
        None => {},
    }
    match path_id_exec(&v, "/html/") {
        Some(id) => {
            return Some(string_of(&id));
        },
        None => {},
    }
    match path_id_exec(&v, "/pdf/") {
        Some(id) => Some(string_of(&id)),
        None => None,
    }
}

/// The first source of full text: the item's cached content, wrapped,
/// when there is some.
pub fn cached_full_text(item: &crate::models::FeedItem) -> (r: Option<Vec<String>>)
    ensures
        match item.full_content {
            Some(c) => if c@.len() > 0 {
                r matches Some(lines) && lines@.map_values(|s: String| s@) == wrapped(c@, WRAP_WIDTH as int)
            } else {
                r is None
            },
            None => r is None,
        },
{
    match &item.full_content {
        Some(c) => {
            if c.as_str().unicode_len() > 0 {
                Some(wrap_lines(c.as_str(), WRAP_WIDTH))
            } else {
                None
            }
        },
        None => None,
    }
}

/// The next source: the arXiv HTML rendering, for arXiv and Hugging Face
/// paper URLs.
pub fn arxiv_html_url(url: &str) -> (r: Option<String>)
    ensures
        crate::models::opt_view(r) == match spec_fulltext_arxiv_id(url@) {
            Some(id) => Some("https://arxiv.org/html/"@ + id),
            None => None,
        },
{
    match extract_arxiv_id(url) {
        Some(id) => {
            let mut u = chars_of("https://arxiv.org/html/");
            push_str(&mut u, id.as_str());
            Some(string_of(&u))
        },
        None => None,
    }
}

// ---------------------------------------------------------------------------
// The fallback chain
// ---------------------------------------------------------------------------

/// The network sources of full text, in the order they are tried after the
/// cached content: the arXiv HTML rendering, a readability extraction of the
/// item's page, the same through a headless browser.
#[derive(Clone, Copy, PartialEq, Eq, Debug, Structural)]
pub enum FulltextStage {
    ArxivHtml,
    Readability,
    Chromium,
}

/// What to do next while getting an item's full text.
#[derive(Debug)]
pub enum FulltextStep {
    /// Fetch `url` at this stage and report the outcome to `fulltext_next`.
    Fetch { stage: FulltextStage, url: String },
    /// The text, as wrapped lines.
    Done(Vec<String>),
}

/// The lines are the wrapping of `text`.
pub open spec fn wraps(r: Vec<String>, text: Seq<char>) -> bool {
    r@.map_values(|s: String| s@) == wrapped(text, WRAP_WIDTH as int)
}

/// The first step for an item: its cached content when it has some, else
/// the arXiv HTML rendering for arXiv and Hugging Face paper URLs, else a
/// readability extraction of its page.
pub fn fulltext_start(item: &crate::models::FeedItem) -> (r: FulltextStep)
    ensures
        match item.full_content {
            Some(c) if c@.len() > 0 => r matches FulltextStep::Done(lines) && wraps(lines, c@),
            _ => match spec_fulltext_arxiv_id(item.url@) {
                Some(id) => r matches FulltextStep::Fetch { stage, url } && stage == FulltextStage::ArxivHtml
                    && url@ == "https://arxiv.org/html/"@ + id,
                None => r matches FulltextStep::Fetch { stage, url } && stage == FulltextStage::Readability
                    && url@ == item.url@,
            },
        },
{
    match cached_full_text(item) {
        Some(lines) => FulltextStep::Done(lines),
        None => match arxiv_html_url(item.url.as_str()) {
            Some(url) => FulltextStep::Fetch { stage: FulltextStage::ArxivHtml, url },
            None => FulltextStep::Fetch { stage: FulltextStage::Readability, url: item.url.clone() },
        },
    }
}

/// The step after `stage` came back with `outcome` (the page's HTML for the
/// arXiv stage, the extracted text for the others).  A success gives the
/// wrapped text (the HTML stripped of tags first); a failure falls through
/// to the next stage, and after the last one to the item's summary.
pub fn fulltext_next(item: &crate::models::FeedItem, stage: FulltextStage, outcome: Result<String, String>) -> (r: FulltextStep)
    ensures
        match outcome {
            Ok(text) => r matches FulltextStep::Done(lines) && wraps(
                lines,
                if stage == FulltextStage::ArxivHtml { html_text(text@) } else { text@ },
            ),
            Err(_) => match stage {
                FulltextStage::ArxivHtml => r matches FulltextStep::Fetch { stage: s, url } && s == FulltextStage::Readability
                    && url@ == item.url@,
                FulltextStage::Readability => r matches FulltextStep::Fetch { stage: s, url } && s == FulltextStage::Chromium
                    && url@ == item.url@,
                FulltextStage::Chromium => r matches FulltextStep::Done(lines) && wraps(lines, item.summary_short@),
            },
        },
{
    match outcome {
        Ok(text) => {
            let plain = match stage {
                FulltextStage::ArxivHtml => strip_html(text.as_str()),
                _ => text,
            };
            FulltextStep::Done(wrap_lines(plain.as_str(), WRAP_WIDTH))
        },
        Err(_) => match stage {
            FulltextStage::ArxivHtml => FulltextStep::Fetch { stage: FulltextStage::Readability, url: item.url.clone() },
            FulltextStage::Readability => FulltextStep::Fetch { stage: FulltextStage::Chromium, url: item.url.clone() },
            FulltextStage::Chromium => FulltextStep::Done(wrap_lines(item.summary_short.as_str(), WRAP_WIDTH)),
        },
    }
}

} // verus!
