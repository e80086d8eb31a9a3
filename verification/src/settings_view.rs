//! How the settings view shows stored secrets without revealing them.
use vstd::prelude::*;

use crate::strs::{chars_of, decimal, push_decimal, push_str, string_of, to_owned_string};

verus! {

broadcast use vstd::string::group_string_axioms;

/// One `*` for each character.
pub open spec fn stars(n: nat) -> Seq<char> {
    Seq::new(n, |i: int| '*')
}

/// A secret masked: one `*` per character.
pub fn masked(s: &str) -> (r: String)
    ensures
        r@ == stars(s@.len()),
{
    let n = chars_of(s).len();
    let mut v: Vec<char> = Vec::new();
    let mut i: usize = 0;
    while i < n
        invariant
            0 <= i <= n,
            n == s@.len(),
            v@ == stars(i as nat),
        decreases n - i,
    {
        v.push('*');
        assert(v@ =~= stars((i + 1) as nat));
        i += 1;
    }
    string_of(v.as_slice())
}

/// The summary of a secret: "not set", or how many characters it has.
pub open spec fn spec_secret_status(s: Seq<char>) -> Seq<char> {
    if s.len() == 0 {
        "not set"@
    } else {
        decimal(s.len()) + " chars stored"@
    }
}

/// Says whether a secret is stored, and how long it is, without showing it.
pub fn secret_status(s: &str) -> (r: String)
    ensures
        r@ == spec_secret_status(s@),
{
    let n = chars_of(s).len();
    if n == 0 {
        return to_owned_string("not set");
    }
    let mut v: Vec<char> = Vec::new();
    push_decimal(&mut v, n as u64);
    push_str(&mut v, " chars stored");
    string_of(v.as_slice())
}

/// The value shown in a secret's row: the masked edit buffer with a cursor
/// while that row is being edited, "not set" for an empty secret, the
/// masked secret otherwise.
pub open spec fn spec_secret_value(editing: bool, edit_buf: Seq<char>, stored: Seq<char>) -> Seq<char> {
    if editing {
        stars(edit_buf.len()) + "_"@
    } else if stored.len() == 0 {
        "not set"@
    } else {
        stars(stored.len())
    }
}

/// What a secret's row shows; `editing` is whether this row is the one
/// being edited.
pub fn secret_value(editing: bool, edit_buf: &str, stored: &str) -> (r: String)
    ensures
        r@ == spec_secret_value(editing, edit_buf@, stored@),
{
    if editing {
        let m = masked(edit_buf);
        let mut v = chars_of(m.as_str());
        push_str(&mut v, "_");
        string_of(v.as_slice())
    } else if chars_of(stored).len() == 0 {
        to_owned_string("not set")
    } else {
        masked(stored)
    }
}

} // verus!
