//! Removal of terminal control sequences from untrusted text.
//!
//! Text that comes from the network is shown in a terminal, where escape
//! sequences could move the cursor, clear the screen, set the clipboard
//! (OSC 52) or plant hyperlinks (OSC 8).  `sanitize_terminal_text` drops
//! every escape sequence (CSI, OSC and two-character escapes) and every other
//! control character except line feed and tab.
use vstd::prelude::*;

verus! {

broadcast use vstd::string::group_string_axioms;

pub const ESC: char = '\x1b';
pub const BEL: char = '\x07';

/// A control character that must not reach the terminal (everything in C0,
/// DEL and C1 except `\n` and `\t`).  ESC itself is one of them.
pub open spec fn is_control(c: char) -> bool {
    ((c as u32) < 0x20 && c != '\n' && c != '\t') || c == '\x7f' || (0x80 <= (c as u32)
        && (c as u32) <= 0x9f)
}

pub fn is_control_char(c: char) -> (r: bool)
    ensures
        r == is_control(c),
{
    (c < ' ' && c != '\n' && c != '\t') || c == '\x7f' || ('\u{80}' <= c && c <= '\u{9f}')
}

/// Where the scanner stands with respect to an escape sequence.
#[derive(Clone, Copy, PartialEq, Eq, Debug, Structural)]
pub enum ScanMode {
    /// Ordinary text.
    Normal,
    /// Just after ESC.
    Escape,
    /// Inside a CSI sequence (`ESC [` ... final byte).
    Csi,
    /// Inside an OSC string (`ESC ]` ... BEL or ST).
    Osc,
    /// Inside an OSC string, just after an ESC.
    OscEscape,
}

/// Normal-mode handling of one character.
pub open spec fn step_normal(c: char) -> (ScanMode, Option<char>) {
    if c == ESC {
        (ScanMode::Escape, None)
    } else if is_control(c) {
        (ScanMode::Normal, None)
    } else {
        (ScanMode::Normal, Some(c))
    }
}

/// Handling of the character after an ESC.
pub open spec fn step_escape(c: char) -> (ScanMode, Option<char>) {
    if c == '[' {
        (ScanMode::Csi, None)
    } else if c == ']' {
        (ScanMode::Osc, None)
    } else {
        // Two-character escape: the character after ESC is dropped too.
        (ScanMode::Normal, None)
    }
}

/// One step of the scanner: the next mode and the character kept, if any.
pub open spec fn step(m: ScanMode, c: char) -> (ScanMode, Option<char>) {
    match m {
        ScanMode::Normal => step_normal(c),
        ScanMode::Escape => step_escape(c),
        ScanMode::Csi => {
            if 0x20 <= (c as u32) && (c as u32) <= 0x3f {
                (ScanMode::Csi, None)
            } else if 0x40 <= (c as u32) && (c as u32) <= 0x7e {
                (ScanMode::Normal, None)
            } else {
                // Not part of a CSI sequence: the sequence is abandoned and
                // the character is read as ordinary text.
                step_normal(c)
            }
        },
        ScanMode::Osc => {
            if c == BEL {
                (ScanMode::Normal, None)
            } else if c == ESC {
                (ScanMode::OscEscape, None)
            } else {
                (ScanMode::Osc, None)
            }
        },
        ScanMode::OscEscape => {
            if c == '\\' {
                (ScanMode::Normal, None)
            } else {
                step_escape(c)
            }
        },
    }
}

pub open spec fn kept(o: Option<char>) -> Seq<char> {
    match o {
        Some(c) => seq![c],
        None => Seq::empty(),
    }
}

/// The text kept when `s` is scanned starting in mode `m`.
pub open spec fn sanitize_from(m: ScanMode, s: Seq<char>) -> Seq<char>
    decreases s.len(),
{
    if s.len() == 0 {
        Seq::empty()
    } else {
        let (m2, o) = step(m, s[0]);
        kept(o) + sanitize_from(m2, s.drop_first())
    }
}

/// The sanitized form of `s`.
pub open spec fn sanitized(s: Seq<char>) -> Seq<char> {
    sanitize_from(ScanMode::Normal, s)
}

/// Text that is safe to print: no control characters (ESC included).
pub open spec fn is_clean(s: Seq<char>) -> bool {
    forall|i: int| 0 <= i < s.len() ==> !is_control(#[trigger] s[i])
}

fn step_exec(m: ScanMode, c: char) -> (r: (ScanMode, Option<char>))
    ensures
        r == step(m, c),
{
    let normal = if c == ESC {
        (ScanMode::Escape, None)
    } else if is_control_char(c) {
        (ScanMode::Normal, None)
    } else {
        (ScanMode::Normal, Some(c))
    };
    let escape = if c == '[' {
        (ScanMode::Csi, None)
    } else if c == ']' {
        (ScanMode::Osc, None)
    } else {
        (ScanMode::Normal, None)
    };
    match m {
        ScanMode::Normal => normal,
        ScanMode::Escape => escape,
        ScanMode::Csi => {
            if ' ' <= c && c <= '?' {
                (ScanMode::Csi, None)
            } else if '@' <= c && c <= '~' {
                (ScanMode::Normal, None)
            } else {
                normal
            }
        },
        ScanMode::Osc => {
            if c == BEL {
                (ScanMode::Normal, None)
            } else if c == ESC {
                (ScanMode::OscEscape, None)
            } else {
                (ScanMode::Osc, None)
            }
        },
        ScanMode::OscEscape => {
            if c == '\\' {
                (ScanMode::Normal, None)
            } else {
                escape
            }
        },
    }
}

/// Strips escape sequences and control characters from `s`.
pub fn sanitize_terminal_text(s: &str) -> (r: String)
    ensures
        r@ == sanitized(s@),
{
    let v = crate::strs::chars_of(s);
    let mut out: Vec<char> = Vec::new();
    let mut m = ScanMode::Normal;
    let mut i: usize = 0;
    assert(v@.skip(0) =~= v@);
    while i < v.len()
        invariant
            0 <= i <= v@.len(),
            out@ + sanitize_from(m, v@.skip(i as int)) == sanitized(v@),
        decreases v.len() - i,
    {
        let c = v[i];
        let (m2, o) = step_exec(m, c);
        assert(v@.skip(i as int).drop_first() =~= v@.skip(i + 1));
        match o {
            Some(k) => {
                out.push(k);
            },
            None => {},
        }
        proof {
            assert(out@ + sanitize_from(m2, v@.skip(i + 1)) =~= sanitized(v@));
        }
        m = m2;
        i += 1;
    }
    assert(sanitize_from(m, v@.skip(i as int)) =~= Seq::<char>::empty());
    assert(out@ =~= sanitized(v@));
    crate::strs::string_of(&out)
}

proof fn lemma_sanitize_from_clean(m: ScanMode, s: Seq<char>)
    ensures
        is_clean(sanitize_from(m, s)),
    decreases s.len(),
{
    if s.len() > 0 {
        let (m2, o) = step(m, s[0]);
        lemma_sanitize_from_clean(m2, s.drop_first());
        let rest = sanitize_from(m2, s.drop_first());
        assert forall|i: int| 0 <= i < (kept(o) + rest).len() implies !is_control(
            #[trigger] (kept(o) + rest)[i],
        ) by {
            if i >= kept(o).len() {
                assert((kept(o) + rest)[i] == rest[i - kept(o).len()]);
            }
        }
    }
}

proof fn lemma_sanitize_clean_input(s: Seq<char>)
    requires
        is_clean(s),
    ensures
        sanitize_from(ScanMode::Normal, s) == s,
    decreases s.len(),
{
    if s.len() > 0 {
        assert(!is_control(s[0]));
        assert forall|i: int| 0 <= i < s.drop_first().len() implies !is_control(
            #[trigger] s.drop_first()[i],
        ) by {
            assert(s.drop_first()[i] == s[i + 1]);
        }
        lemma_sanitize_clean_input(s.drop_first());
        assert(seq![s[0]] + s.drop_first() =~= s);
    }
}

/// Sanitized text holds no control character: no escape sequence survives.
pub proof fn law_sanitized_is_clean(s: Seq<char>)
    ensures
        is_clean(sanitized(s)),
{
    lemma_sanitize_from_clean(ScanMode::Normal, s);
}

/// Text without control characters passes through unchanged.
pub proof fn law_sanitize_keeps_clean_text(s: Seq<char>)
    requires
        is_clean(s),
    ensures
        sanitized(s) == s,
{
    lemma_sanitize_clean_input(s);
}

/// Sanitizing is idempotent: re-sanitizing clean text leaves it unchanged.
pub proof fn law_sanitize_idempotent(s: Seq<char>)
    ensures
        sanitized(sanitized(s)) == sanitized(s),
{
    law_sanitized_is_clean(s);
    lemma_sanitize_clean_input(sanitized(s));
}

} // verus!
