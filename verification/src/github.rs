//! GitHub repository browsing: request URLs and the processing of API
//! responses.  The HTTP requests themselves are made by the caller.
use vstd::prelude::*;

use crate::order::{lemma_lex_asymmetric, lemma_lex_irreflexive, lemma_lex_total, lemma_lex_transitive, lex_less, lex_lt};
use crate::strs::{chars_of, push_str, str_eq, string_of};

verus! {

broadcast use {vstd::string::group_string_axioms, vstd::seq_lib::group_to_multiset_ensures};

#[derive(Debug, Clone, Copy, PartialEq, Eq, Structural)]
pub enum NodeType {
    Dir,
    File,
}

/// One entry of a repository directory listing.
#[derive(Debug, Clone)]
pub struct TreeNode {
    pub name: String,
    pub path: String,
    pub node_type: NodeType,
}

/// One item of the `contents` API response.
#[derive(Debug, Clone)]
pub struct ContentItem {
    pub name: String,
    pub path: String,
    pub item_type: String,
}

/// The `contents` API response for a file.
#[derive(Debug, Clone)]
pub struct FileContent {
    pub content: String,
    pub encoding: Option<String>,
}

/// `https://api.github.com/repos/{owner}/{repo}`.
pub fn repo_url(owner: &str, repo: &str) -> (r: String)
    ensures
        r@ == "https://api.github.com/repos/"@ + owner@ + "/"@ + repo@,
{
    let mut v = chars_of("https://api.github.com/repos/");
    push_str(&mut v, owner);
    push_str(&mut v, "/");
    push_str(&mut v, repo);
    string_of(&v)
}

/// URL of the listing of `path` (empty for the root) on `branch`.
pub fn tree_dir_url(owner: &str, repo: &str, branch: &str, path: &str) -> (r: String)
    ensures
        r@ == "https://api.github.com/repos/"@ + owner@ + "/"@ + repo@ + "/contents"@
            + (if path@.len() == 0 { Seq::empty() } else { "/"@ + path@ }) + "?ref="@ + branch@,
{
    let mut v = chars_of("https://api.github.com/repos/");
    push_str(&mut v, owner);
    push_str(&mut v, "/");
    push_str(&mut v, repo);
    push_str(&mut v, "/contents");
    if path.unicode_len() > 0 {
        push_str(&mut v, "/");
        push_str(&mut v, path);
    }
    push_str(&mut v, "?ref=");
    push_str(&mut v, branch);
    let r = string_of(&v);
    assert(r@ =~= "https://api.github.com/repos/"@ + owner@ + "/"@ + repo@ + "/contents"@
        + (if path@.len() == 0 { Seq::empty() } else { "/"@ + path@ }) + "?ref="@ + branch@);
    r
}

/// URL of the contents of the file at `path`.
pub fn file_url(owner: &str, repo: &str, path: &str) -> (r: String)
    ensures
        r@ == "https://api.github.com/repos/"@ + owner@ + "/"@ + repo@ + "/contents/"@ + path@,
{
    let mut v = chars_of("https://api.github.com/repos/");
    push_str(&mut v, owner);
    push_str(&mut v, "/");
    push_str(&mut v, repo);
    push_str(&mut v, "/contents/");
    push_str(&mut v, path);
    string_of(&v)
}

// ---------------------------------------------------------------------------
// Directory listings
// ---------------------------------------------------------------------------

pub open spec fn is_dir(n: TreeNode) -> bool {
    n.node_type == NodeType::Dir
}

/// `a` is listed strictly before `b`: directories first, then by name.
pub open spec fn listed_before(a: TreeNode, b: TreeNode) -> bool {
    (is_dir(a) && !is_dir(b)) || (is_dir(a) == is_dir(b) && lex_lt(a.name@, b.name@))
}

pub open spec fn listing_sorted(s: Seq<TreeNode>) -> bool {
    forall|i: int, j: int| 0 <= i < j < s.len() ==> !listed_before(#[trigger] s[j], #[trigger] s[i])
}

proof fn lemma_before_transitive(a: TreeNode, b: TreeNode, c: TreeNode)
    requires
        listed_before(a, b),
        listed_before(b, c),
    ensures
        listed_before(a, c),
{
    if is_dir(a) == is_dir(b) && is_dir(b) == is_dir(c) {
        lemma_lex_transitive(a.name@, b.name@, c.name@);
    }
}

proof fn lemma_before_asymmetric(a: TreeNode, b: TreeNode)
    ensures
        !(listed_before(a, b) && listed_before(b, a)),
{
    lemma_lex_asymmetric(a.name@, b.name@);
}

/// The node an API item describes: a directory when its type is `"dir"`.
pub open spec fn node_from(item: ContentItem) -> TreeNode {
    TreeNode {
        name: item.name,
        path: item.path,
        node_type: if item.item_type@ == "dir"@ { NodeType::Dir } else { NodeType::File },
    }
}

fn before_exec(a: &TreeNode, b: &TreeNode) -> (r: bool)
    ensures
        r == listed_before(*a, *b),
{
    let a_dir = a.node_type == NodeType::Dir;
    let b_dir = b.node_type == NodeType::Dir;
    if a_dir != b_dir {
        return a_dir;
    }
    let an = chars_of(a.name.as_str());
    let bn = chars_of(b.name.as_str());
    lex_less(&an, &bn)
}

/// Inserts `x` after every element it is not listed before.
fn insert_sorted(v: &mut Vec<TreeNode>, x: TreeNode) -> (j: usize)
    requires
        listing_sorted(old(v)@),
    ensures
        listing_sorted(final(v)@),
        final(v)@.to_multiset() == old(v)@.to_multiset().insert(x),
        j <= old(v)@.len(),
        final(v)@ == old(v)@.insert(j as int, x),
        forall|i: int| 0 <= i < j ==> !listed_before(x, #[trigger] old(v)@[i]),
        forall|i: int| j <= i < old(v)@.len() ==> listed_before(x, #[trigger] old(v)@[i]),
{
    let mut j: usize = 0;
    while j < v.len() && !before_exec(&x, &v[j])
        invariant
            0 <= j <= v@.len(),
            forall|i: int| 0 <= i < j ==> !listed_before(x, #[trigger] v@[i]),
        decreases v.len() - j,
    {
        j += 1;
    }
    let ghost old_v = v@;
    v.insert(j, x);
    proof {
        broadcast use vstd::seq_lib::group_to_multiset_ensures;
        assert(v@ == old_v.insert(j as int, x));
        assert forall|a: int, b: int| 0 <= a < b < v@.len() implies !listed_before(#[trigger] v@[b], #[trigger] v@[a]) by {
            if b < j {
                assert(v@[a] == old_v[a] && v@[b] == old_v[b]);
            } else if b == j {
                assert(v@[a] == old_v[a]);
            } else if a == j {
                // x then old_v[b - 1]; x is listed before old_v[j]
                assert(v@[b] == old_v[b - 1]);
                if listed_before(old_v[b - 1], x) {
                    assert(listed_before(x, old_v[j as int]));
                    if b - 1 == j {
                        lemma_before_asymmetric(x, old_v[j as int]);
                    } else {
                        lemma_before_transitive(old_v[b - 1], x, old_v[j as int]);
                    }
                }
            } else if a < j {
                assert(v@[a] == old_v[a] && v@[b] == old_v[b - 1]);
            } else {
                assert(v@[a] == old_v[a - 1] && v@[b] == old_v[b - 1]);
            }
        }
        assert forall|i: int| j <= i < old_v.len() implies listed_before(x, #[trigger] old_v[i]) by {
            assert(listed_before(x, old_v[j as int]));
            if i > j {
                let a = old_v[j as int];
                let b = old_v[i];
                assert(!listed_before(b, a));
                lemma_lex_total(a.name@, b.name@);
                if listed_before(a, b) {
                    lemma_before_transitive(x, a, b);
                }
            }
        }
    }
    j
}

/// `ord` tells where each entry of the listing `r` came from among `n`
/// items: each item once, and entries that tie (neither listed before the
/// other) in the order of their items.
pub open spec fn stable_order(ord: Seq<int>, r: Seq<TreeNode>, items: Seq<ContentItem>) -> bool {
    &&& ord.len() == r.len()
    &&& ord.no_duplicates()
    &&& forall|k: int| 0 <= k < ord.len() ==> 0 <= #[trigger] ord[k] < items.len() && r[k] == node_from(items[ord[k]])
    &&& forall|a: int, b: int| 0 <= a < b < r.len() && !listed_before(#[trigger] r[a], #[trigger] r[b]) ==> ord[a] < ord[b]
}

/// Builds the listing from the API items: directories come before files,
/// both groups sorted by name; entries that tie keep the order of the
/// items (the sort is stable).
pub fn fetch_tree_dir(items: Vec<ContentItem>) -> (r: Vec<TreeNode>)
    ensures
        listing_sorted(r@),
        r@.len() == items@.len(),
        r@.to_multiset() == Seq::new(items@.len(), |i: int| node_from(items@[i])).to_multiset(),
        exists|ord: Seq<int>| stable_order(ord, r@, items@),
{
    let ghost mut ord: Seq<int> = Seq::empty();
    let mut r: Vec<TreeNode> = Vec::new();
    let mut i: usize = 0;
    assert(Seq::new(0nat, |k: int| node_from(items@[k])) =~= Seq::<TreeNode>::empty());
    while i < items.len()
        invariant
            0 <= i <= items@.len(),
            listing_sorted(r@),
            r@.to_multiset() == Seq::new(i as nat, |k: int| node_from(items@[k])).to_multiset(),
            stable_order(ord, r@, items@),
            forall|k: int| 0 <= k < ord.len() ==> #[trigger] ord[k] < i,
        decreases items.len() - i,
    {
        let it = &items[i];
        let is_dir = str_eq(it.item_type.as_str(), "dir");
        let node = TreeNode {
            name: it.name.clone(),
            path: it.path.clone(),
            node_type: if is_dir { NodeType::Dir } else { NodeType::File },
        };
        assert(node == node_from(items@[i as int]));
        let ghost old_r = r@;
        let j = insert_sorted(&mut r, node);
        proof {
            let o2 = ord.insert(j as int, i as int);
            assert forall|k: int| 0 <= k < o2.len() implies 0 <= #[trigger] o2[k] < items@.len() && r@[k] == node_from(items@[o2[k]]) && o2[k] < i + 1 by {
                if k < j {
                    assert(o2[k] == ord[k] && r@[k] == old_r[k]);
                } else if k > j {
                    assert(o2[k] == ord[k - 1] && r@[k] == old_r[k - 1]);
                }
            }
            assert(o2.no_duplicates()) by {
                assert forall|a: int, b: int| 0 <= a < o2.len() && 0 <= b < o2.len() && a != b implies o2[a] != o2[b] by {
                    let aa = if a < j { a } else { a - 1 };
                    let bb = if b < j { b } else { b - 1 };
                    if a != j && b != j {
                        assert(o2[a] == ord[aa] && o2[b] == ord[bb]);
                    } else if a == j {
                        assert(o2[b] == ord[bb]);
                    } else {
                        assert(o2[a] == ord[aa]);
                    }
                }
            }
            assert forall|a: int, b: int| 0 <= a < b < r@.len() && !listed_before(#[trigger] r@[a], #[trigger] r@[b]) implies o2[a] < o2[b] by {
                if b < j {
                    assert(r@[a] == old_r[a] && r@[b] == old_r[b] && o2[a] == ord[a] && o2[b] == ord[b]);
                } else if b == j {
                    assert(r@[a] == old_r[a] && o2[a] == ord[a]);
                } else if a == j {
                    assert(r@[b] == old_r[b - 1]);
                    assert(listed_before(node, old_r[b - 1]));
                } else if a < j {
                    assert(r@[a] == old_r[a] && r@[b] == old_r[b - 1] && o2[a] == ord[a] && o2[b] == ord[b - 1]);
                } else {
                    assert(r@[a] == old_r[a - 1] && r@[b] == old_r[b - 1] && o2[a] == ord[a - 1] && o2[b] == ord[b - 1]);
                }
            }
            ord = o2;
        }
        proof {
            broadcast use vstd::seq_lib::group_to_multiset_ensures;
            let prev = Seq::new(i as nat, |k: int| node_from(items@[k]));
            let next = Seq::new((i + 1) as nat, |k: int| node_from(items@[k]));
            assert(next =~= prev.push(node_from(items@[i as int])));
        }
        i += 1;
    }
    proof {
        broadcast use vstd::seq_lib::group_to_multiset_ensures;
        vstd::seq_lib::to_multiset_len(r@);
        vstd::seq_lib::to_multiset_len(Seq::new(items@.len(), |i: int| node_from(items@[i])));
    }
    r
}

} // verus!

verus! {

// ---------------------------------------------------------------------------
// File contents
// ---------------------------------------------------------------------------

/// Value of a byte in the standard base64 alphabet, or -1.
pub open spec fn b64_value(b: u8) -> int {
    if 65 <= b && b <= 90 {
        b - 65
    } else if 97 <= b && b <= 122 {
        b - 71
    } else if 48 <= b && b <= 57 {
        b + 4
    } else if b == 43 {
        62
    } else if b == 47 {
        63
    } else {
        -1
    }
}

/// The base64 digits of `bs`; every byte outside the alphabet (padding,
/// line breaks, anything else) is skipped.
pub open spec fn b64_digits(bs: Seq<u8>) -> Seq<int>
    decreases bs.len(),
{
    if bs.len() == 0 {
        Seq::empty()
    } else if b64_value(bs.last()) >= 0 {
        b64_digits(bs.drop_last()).push(b64_value(bs.last()))
    } else {
        b64_digits(bs.drop_last())
    }
}

pub open spec fn b64_byte0(d: Seq<int>) -> u8 {
    (d[0] * 4 + d[1] / 16) as u8
}

pub open spec fn b64_byte1(d: Seq<int>) -> u8 {
    ((d[1] % 16) * 16 + d[2] / 4) as u8
}

pub open spec fn b64_byte2(d: Seq<int>) -> u8 {
    ((d[2] % 4) * 64 + d[3]) as u8
}

/// Bytes encoded by a digit sequence: each full group of four digits gives
/// three bytes; a trailing group of three gives two, of two gives one, of
/// one gives nothing.
pub open spec fn b64_bytes(d: Seq<int>) -> Seq<u8>
    decreases d.len(),
{
    if d.len() >= 4 {
        seq![b64_byte0(d), b64_byte1(d), b64_byte2(d)] + b64_bytes(d.skip(4))
    } else if d.len() == 3 {
        seq![b64_byte0(d), b64_byte1(d)]
    } else if d.len() == 2 {
        seq![b64_byte0(d)]
    } else {
        Seq::empty()
    }
}

pub open spec fn all_digits(d: Seq<int>) -> bool {
    forall|i: int| 0 <= i < d.len() ==> 0 <= #[trigger] d[i] < 64
}

fn b64_value_exec(b: u8) -> (r: u8)
    ensures
        b64_value(b) >= 0 ==> r as int == b64_value(b),
        b64_value(b) < 0 ==> r == 255,
{
    if 65 <= b && b <= 90 {
        b - 65
    } else if 97 <= b && b <= 122 {
        b - 71
    } else if 48 <= b && b <= 57 {
        b + 4
    } else if b == 43 {
        62
    } else if b == 47 {
        63
    } else {
        255
    }
}

proof fn lemma_b64_digits_range(bs: Seq<u8>)
    ensures
        all_digits(b64_digits(bs)),
    decreases bs.len(),
{
    if bs.len() > 0 {
        lemma_b64_digits_range(bs.drop_last());
    }
}

/// Decode base64 text, skipping any character outside the alphabet.
pub fn base64_decode(s: &str) -> (r: Result<Vec<u8>, String>)
    ensures
        r matches Ok(out) && out@ == b64_bytes(b64_digits(vstd::utf8::encode_utf8(s@))),
{
    let bs = s.as_bytes();
    let mut d: Vec<u8> = Vec::new();
    let mut i: usize = 0;
    while i < bs.len()
        invariant
            0 <= i <= bs@.len(),
            bs@ == vstd::utf8::encode_utf8(s@),
            d@.len() == b64_digits(bs@.take(i as int)).len(),
            forall|k: int| 0 <= k < d@.len() ==> d@[k] as int == #[trigger] b64_digits(bs@.take(i as int))[k],
        decreases bs.len() - i,
    {
        let v = b64_value_exec(bs[i]);
        assert(bs@.take(i + 1).drop_last() =~= bs@.take(i as int));
        if v != 255 {
            d.push(v);
        }
        i += 1;
    }
    assert(bs@.take(bs@.len() as int) =~= bs@);
    let ghost digits = b64_digits(bs@);
    proof { lemma_b64_digits_range(bs@); }
    let mut out: Vec<u8> = Vec::new();
    let mut j: usize = 0;
    assert(digits.skip(0) =~= digits);
    while d.len() - j >= 4
        invariant
            j <= d@.len(),
            j % 4 == 0,
            d@.len() == digits.len(),
            all_digits(digits),
            forall|k: int| 0 <= k < d@.len() ==> d@[k] as int == #[trigger] digits[k],
            out@ + b64_bytes(digits.skip(j as int)) == b64_bytes(digits),
        decreases d.len() - j,
    {
        let ghost g = digits.skip(j as int);
        assert(g[0] == digits[j as int] && g[1] == digits[j + 1] && g[2] == digits[j + 2] && g[3] == digits[j + 3]);
        let d0 = d[j] as u32;
        let d1 = d[j + 1] as u32;
        let d2 = d[j + 2] as u32;
        let d3 = d[j + 3] as u32;
        out.push((d0 * 4 + d1 / 16) as u8);
        out.push(((d1 % 16) * 16 + d2 / 4) as u8);
        out.push(((d2 % 4) * 64 + d3) as u8);
        assert(g.skip(4) =~= digits.skip(j + 4));
        assert(out@ + b64_bytes(digits.skip(j + 4)) =~= b64_bytes(digits));
        j += 4;
    }
    let rem = d.len() - j;
    let ghost g = digits.skip(j as int);
    if rem == 2 {
        let d0 = d[j] as u32;
        let d1 = d[j + 1] as u32;
        out.push((d0 * 4 + d1 / 16) as u8);
    } else if rem == 3 {
        let d0 = d[j] as u32;
        let d1 = d[j + 1] as u32;
        let d2 = d[j + 2] as u32;
        out.push((d0 * 4 + d1 / 16) as u8);
        out.push(((d1 % 16) * 16 + d2 / 4) as u8);
    }
    assert(out@ =~= b64_bytes(digits));
    Ok(out)
}

/// The alphabet character (as a byte) of the base64 digit `d`.
pub open spec fn b64_char(d: int) -> u8 {
    if d < 26 {
        (d + 65) as u8
    } else if d < 52 {
        (d + 71) as u8
    } else if d < 62 {
        (d - 4) as u8
    } else if d == 62 {
        43u8
    } else {
        47u8
    }
}

/// The base64 digits standard encoding gives for `bs` (before padding):
/// four for each full group of three bytes, three for two trailing bytes,
/// two for one.
pub open spec fn enc_digits(bs: Seq<u8>) -> Seq<int>
    decreases bs.len(),
{
    if bs.len() >= 3 {
        seq![
            (bs[0] / 4) as int,
            (bs[0] % 4) * 16 + bs[1] / 16,
            (bs[1] % 16) * 4 + bs[2] / 64,
            (bs[2] % 64) as int,
        ] + enc_digits(bs.skip(3))
    } else if bs.len() == 2 {
        seq![(bs[0] / 4) as int, (bs[0] % 4) * 16 + bs[1] / 16, (bs[1] % 16) * 4]
    } else if bs.len() == 1 {
        seq![(bs[0] / 4) as int, (bs[0] % 4) * 16]
    } else {
        Seq::empty()
    }
}

/// Standard base64 text for `bs`: the alphabet characters of its digits,
/// then `=` padding to a multiple of four.
pub open spec fn b64_encode(bs: Seq<u8>) -> Seq<u8> {
    let d = enc_digits(bs).map_values(|x: int| b64_char(x));
    let pad: nat = if bs.len() % 3 == 1 { 2 } else if bs.len() % 3 == 2 { 1 } else { 0 };
    d + Seq::new(pad, |i: int| 61u8)
}

proof fn lemma_group_bytes(b0: u8, b1: u8, b2: u8)
    ensures
        ({
            let d = seq![(b0 / 4) as int, (b0 % 4) * 16 + b1 / 16, (b1 % 16) * 4 + b2 / 64, (b2 % 64) as int];
            &&& b64_byte0(d) == b0
            &&& b64_byte1(d) == b1
            &&& b64_byte2(d) == b2
        }),
{
    let d = seq![(b0 / 4) as int, (b0 % 4) * 16 + b1 / 16, (b1 % 16) * 4 + b2 / 64, (b2 % 64) as int];
    assert(d[0] * 4 + d[1] / 16 == b0 as int) by (nonlinear_arith)
        requires d[0] == b0 / 4, d[1] == (b0 % 4) * 16 + b1 / 16, 0 <= b1 < 256, 0 <= b0 < 256;
    assert((d[1] % 16) * 16 + d[2] / 4 == b1 as int) by (nonlinear_arith)
        requires d[1] == (b0 % 4) * 16 + b1 / 16, d[2] == (b1 % 16) * 4 + b2 / 64, 0 <= b1 < 256, 0 <= b0 < 256,
            0 <= b2 < 256;
    assert((d[2] % 4) * 64 + d[3] == b2 as int) by (nonlinear_arith)
        requires d[2] == (b1 % 16) * 4 + b2 / 64, d[3] == b2 % 64, 0 <= b1 < 256, 0 <= b2 < 256;
}

proof fn lemma_tail_bytes(b0: u8, b1: u8)
    ensures
        b64_byte0(seq![(b0 / 4) as int, (b0 % 4) * 16 + b1 / 16, (b1 % 16) * 4]) == b0,
        b64_byte1(seq![(b0 / 4) as int, (b0 % 4) * 16 + b1 / 16, (b1 % 16) * 4]) == b1,
        b64_byte0(seq![(b0 / 4) as int, (b0 % 4) * 16]) == b0,
{
    let d = seq![(b0 / 4) as int, (b0 % 4) * 16 + b1 / 16, (b1 % 16) * 4];
    assert(d[0] * 4 + d[1] / 16 == b0 as int) by (nonlinear_arith)
        requires d[0] == b0 / 4, d[1] == (b0 % 4) * 16 + b1 / 16, 0 <= b1 < 256, 0 <= b0 < 256;
    assert((d[1] % 16) * 16 + d[2] / 4 == b1 as int) by (nonlinear_arith)
        requires d[1] == (b0 % 4) * 16 + b1 / 16, d[2] == (b1 % 16) * 4, 0 <= b1 < 256, 0 <= b0 < 256;
    let e = seq![(b0 / 4) as int, (b0 % 4) * 16];
    assert(e[0] * 4 + e[1] / 16 == b0 as int) by (nonlinear_arith)
        requires e[0] == b0 / 4, e[1] == (b0 % 4) * 16, 0 <= b0 < 256;
}

/// Decoding the digits of an encoding gives the bytes back.
pub proof fn law_decode_digits_of_encoding(bs: Seq<u8>)
    ensures
        b64_bytes(enc_digits(bs)) == bs,
    decreases bs.len(),
{
    let d = enc_digits(bs);
    if bs.len() >= 3 {
        let g = seq![(bs[0] / 4) as int, (bs[0] % 4) * 16 + bs[1] / 16, (bs[1] % 16) * 4 + bs[2] / 64, (bs[2] % 64) as int];
        law_decode_digits_of_encoding(bs.skip(3));
        lemma_group_bytes(bs[0], bs[1], bs[2]);
        assert(d.skip(4) =~= enc_digits(bs.skip(3)));
        assert(b64_byte0(d) == b64_byte0(g) && b64_byte1(d) == b64_byte1(g) && b64_byte2(d) == b64_byte2(g));
        assert(bs =~= seq![bs[0], bs[1], bs[2]] + bs.skip(3));
    } else if bs.len() == 2 {
        lemma_tail_bytes(bs[0], bs[1]);
        assert(bs =~= seq![bs[0], bs[1]]);
    } else if bs.len() == 1 {
        lemma_tail_bytes(bs[0], 0);
        assert(bs =~= seq![bs[0]]);
    } else {
        assert(bs =~= Seq::<u8>::empty());
    }
}

proof fn lemma_enc_digits_range(bs: Seq<u8>)
    ensures
        all_digits(enc_digits(bs)),
    decreases bs.len(),
{
    if bs.len() >= 3 {
        lemma_enc_digits_range(bs.skip(3));
        let d = enc_digits(bs);
        let g = seq![(bs[0] / 4) as int, (bs[0] % 4) * 16 + bs[1] / 16, (bs[1] % 16) * 4 + bs[2] / 64, (bs[2] % 64) as int];
        assert forall|i: int| 0 <= i < d.len() implies 0 <= #[trigger] d[i] < 64 by {
            if i >= 4 {
                assert(d[i] == enc_digits(bs.skip(3))[i - 4]);
            } else {
                assert(d[i] == g[i]);
            }
        }
    }
}

proof fn lemma_digits_of_chars(ds: Seq<int>, pad: nat)
    requires
        all_digits(ds),
    ensures
        b64_digits(ds.map_values(|x: int| b64_char(x)) + Seq::new(pad, |i: int| 61u8)) == ds,
    decreases ds.len() + pad,
{
    let cs = ds.map_values(|x: int| b64_char(x));
    let t = cs + Seq::new(pad, |i: int| 61u8);
    if pad > 0 {
        lemma_digits_of_chars(ds, (pad - 1) as nat);
        assert(t.drop_last() =~= cs + Seq::new((pad - 1) as nat, |i: int| 61u8));
        assert(t.last() == 61u8);
    } else if ds.len() > 0 {
        let x = ds.last();
        lemma_digits_of_chars(ds.drop_last(), 0);
        assert(all_digits(ds.drop_last()));
        assert(t.drop_last() =~= ds.drop_last().map_values(|x: int| b64_char(x)) + Seq::new(0nat, |i: int| 61u8));
        assert(t.last() == b64_char(x));
        assert(0 <= x < 64);
        assert(b64_value(b64_char(x)) == x);
        assert(b64_digits(t) =~= ds);
    } else {
        assert(t =~= Seq::<u8>::empty());
    }
}

/// Base64 decoding undoes standard encoding: the digits of the encoded
/// text (padding skipped) decode to the bytes that were encoded.  (Line
/// breaks and other bytes outside the alphabet are skipped the same way.)
pub proof fn law_base64_round_trip(bs: Seq<u8>)
    ensures
        b64_digits(b64_encode(bs)) == enc_digits(bs),
        b64_bytes(b64_digits(b64_encode(bs))) == bs,
{
    lemma_enc_digits_range(bs);
    let pad: nat = if bs.len() % 3 == 1 { 2 } else if bs.len() % 3 == 2 { 1 } else { 0 };
    lemma_digits_of_chars(enc_digits(bs), pad);
    law_decode_digits_of_encoding(bs);
}

/// Whether a byte belongs to the base64 alphabet.
pub open spec fn in_b64_alphabet(b: u8) -> bool {
    b64_value(b) >= 0
}

/// Bytes outside the alphabet contribute no digits: the digits of a text
/// are those of its alphabet bytes alone.
proof fn lemma_digits_ignore_other_bytes(t: Seq<u8>)
    ensures
        b64_digits(t) == b64_digits(t.filter(|b: u8| in_b64_alphabet(b))),
    decreases t.len(),
{
    reveal(Seq::filter);
    let p = |b: u8| in_b64_alphabet(b);
    if t.len() > 0 {
        lemma_digits_ignore_other_bytes(t.drop_last());
        let f = t.drop_last().filter(p);
        if in_b64_alphabet(t.last()) {
            assert(t.filter(p) == f.push(t.last()));
            assert(f.push(t.last()).drop_last() =~= f);
        } else {
            assert(t.filter(p) == f);
        }
    }
}

/// Base64 decoding undoes standard encoding however the text is laid out:
/// with or without `=` padding, and with line breaks or any other bytes
/// outside the alphabet inserted anywhere.  Whenever the alphabet bytes of
/// `text` are exactly the encoding's characters, `text` decodes to `bs`.
pub proof fn law_base64_round_trip_any_layout(bs: Seq<u8>, text: Seq<u8>)
    requires
        text.filter(|b: u8| in_b64_alphabet(b)) == enc_digits(bs).map_values(|x: int| b64_char(x)),
    ensures
        b64_bytes(b64_digits(text)) == bs,
{
    lemma_enc_digits_range(bs);
    lemma_digits_ignore_other_bytes(text);
    lemma_digits_of_chars(enc_digits(bs), 0);
    assert(enc_digits(bs).map_values(|x: int| b64_char(x)) + Seq::new(0nat, |i: int| 61u8)
        =~= enc_digits(bs).map_values(|x: int| b64_char(x)));
    law_decode_digits_of_encoding(bs);
}

/// `String::from_utf8`: the text the bytes encode, when they are valid UTF-8.
#[verifier::external_body]
pub(crate) fn utf8_string(bytes: Vec<u8>) -> (r: Option<String>)
    ensures
        r is Some <==> vstd::utf8::valid_utf8(bytes@),
        r matches Some(s) ==> s@ == vstd::utf8::decode_utf8(bytes@),
{
    String::from_utf8(bytes).ok()
}

/// What `fetch_file` gives for a `contents` response: the decoded text of a
/// base64 payload, or an error naming the problem.
pub open spec fn spec_file_text(content: Seq<char>, encoding: Option<Seq<char>>) -> Result<Seq<char>, Seq<char>> {
    if encoding != Some("base64"@) {
        Err("Unexpected encoding: "@ + match encoding {
            Some(e) => e,
            None => Seq::empty(),
        })
    } else {
        let bytes = b64_bytes(b64_digits(vstd::utf8::encode_utf8(content)));
        if vstd::utf8::valid_utf8(bytes) {
            Ok(vstd::utf8::decode_utf8(bytes))
        } else {
            Err("Binary file — cannot display"@)
        }
    }
}

pub open spec fn result_view(r: Result<String, String>) -> Result<Seq<char>, Seq<char>> {
    match r {
        Ok(s) => Ok(s@),
        Err(e) => Err(e@),
    }
}

/// The raw UTF-8 text of a file from its `contents` response.  Binary files
/// give an error.
pub fn fetch_file(resp: &FileContent) -> (r: Result<String, String>)
    ensures
        result_view(r) == spec_file_text(resp.content@, match resp.encoding {
            Some(e) => Some(e@),
            None => None,
        }),
{
    let is_b64 = match &resp.encoding {
        Some(e) => str_eq(e.as_str(), "base64"),
        None => false,
    };
    if !is_b64 {
        let mut msg = chars_of("Unexpected encoding: ");
        match &resp.encoding {
            Some(e) => push_str(&mut msg, e.as_str()),
            None => {},
        }
        let m = string_of(&msg);
        proof {
            assert(m@ =~= "Unexpected encoding: "@ + match resp.encoding {
                Some(e) => e@,
                None => Seq::<char>::empty(),
            });
        }
        return Err(m);
    }
    let bytes = match base64_decode(resp.content.as_str()) {
        Ok(b) => b,
        Err(e) => return Err(e),
    };
    match utf8_string(bytes) {
        Some(text) => Ok(text),
        None => Err(crate::strs::to_owned_string("Binary file — cannot display")),
    }
}

} // verus!
