//! Steam's KeyValues text format ("VDF"), as found in `appmanifest_*.acf`
//! and `libraryfolders.vdf`:
//!
//! ```text
//! "AppState"
//! {
//!     "appid"     "440"
//!     "name"      "Team Fortress 2"
//! }
//! ```
//!
//! A document is read as a stream of quoted strings and braces; anything
//! between them (whitespace, stray characters) is skipped. Two strings in
//! a row form a key-value pair; a string followed by `{` is the key of a
//! nested block. The depth of a pair is the number of blocks open around
//! it, so the fields of an appmanifest sit at depth one.

use vstd::prelude::*;
use crate::text::{chars_eq, chars_of, parse_u64, parse_u64_chars};

verus! {

broadcast use vstd::string::group_string_axioms;

/// A key-value pair of a document, with its depth.
pub type VdfPair = (Seq<char>, Seq<char>, int);

/// The reader's state after a prefix of a document.
pub struct VdfState {
    /// Inside a quoted string.
    pub in_string: bool,
    /// The characters of the quoted string being read.
    pub current: Seq<char>,
    /// A string read that waits for its value.
    pub key: Option<Seq<char>>,
    /// Blocks open.
    pub depth: int,
    /// Pairs completed so far, in document order.
    pub pairs: Seq<VdfPair>,
}

/// The state before any character.
pub open spec fn vdf_start() -> VdfState {
    VdfState { in_string: false, current: seq![], key: None, depth: 0, pairs: seq![] }
}

/// The state after reading one more character `c`.
pub open spec fn vdf_step(st: VdfState, c: char) -> VdfState {
    if st.in_string {
        if c == '"' {
            match st.key {
                None => VdfState { in_string: false, current: seq![], key: Some(st.current), ..st },
                Some(k) => VdfState {
                    in_string: false,
                    current: seq![],
                    key: None,
                    pairs: st.pairs.push((k, st.current, st.depth)),
                    ..st
                },
            }
        } else {
            VdfState { current: st.current.push(c), ..st }
        }
    } else if c == '"' {
        VdfState { in_string: true, current: seq![], ..st }
    } else if c == '{' {
        VdfState { key: None, depth: st.depth + 1, ..st }
    } else if c == '}' {
        VdfState { key: None, depth: st.depth - 1, ..st }
    } else {
        st
    }
}

/// The state after reading all of `s`.
pub open spec fn vdf_scan(s: Seq<char>) -> VdfState
    decreases s.len(),
{
    if s.len() == 0 {
        vdf_start()
    } else {
        vdf_step(vdf_scan(s.drop_last()), s.last())
    }
}

/// The pairs of document `s`.
pub open spec fn vdf_pairs_of(s: Seq<char>) -> Seq<VdfPair> {
    vdf_scan(s).pairs
}

/// Index of the first pair of `pairs` at depth one under `key`, or
/// `pairs.len()`.
pub open spec fn first_top_level(pairs: Seq<VdfPair>, key: Seq<char>) -> int
    decreases pairs.len(),
{
    if pairs.len() == 0 {
        0
    } else if pairs[0].0 == key && pairs[0].2 == 1 {
        0
    } else {
        1 + first_top_level(pairs.drop_first(), key)
    }
}

/// The value of the first depth-one pair under `key`, if any.
pub open spec fn top_level_string(s: Seq<char>, key: Seq<char>) -> Option<Seq<char>> {
    let p = vdf_pairs_of(s);
    let i = first_top_level(p, key);
    if 0 <= i < p.len() {
        Some(p[i].1)
    } else {
        None
    }
}

/// The values of every pair under `key`, at any depth, in order.
pub open spec fn all_values(pairs: Seq<VdfPair>, key: Seq<char>) -> Seq<Seq<char>>
    decreases pairs.len(),
{
    if pairs.len() == 0 {
        seq![]
    } else if pairs.last().0 == key {
        all_values(pairs.drop_last(), key).push(pairs.last().1)
    } else {
        all_values(pairs.drop_last(), key)
    }
}

/// A pair as computed: key, value, depth.
pub type PairCells = (String, String, i128);

/// The view of computed pairs.
pub open spec fn pairs_view(v: Seq<PairCells>) -> Seq<VdfPair> {
    v.map_values(|p: PairCells| (p.0@, p.1@, p.2 as int))
}

/// Every key-value pair of `content`, in document order, with depths.
pub fn vdf_pairs(content: &str) -> (r: Vec<PairCells>)
    ensures
        pairs_view(r@) == vdf_pairs_of(content@),
{
    let cs = chars_of(content);
    let mut in_string = false;
    let mut current = String::new();
    let mut key: Option<String> = None;
    let mut depth: i128 = 0;
    let mut pairs: Vec<PairCells> = Vec::new();
    let mut i: usize = 0;
    while i < cs.len()
        invariant
            i <= cs@.len(),
            cs@ == content@,
            -(i as int) <= depth <= i,
            ({
                let st = vdf_scan(cs@.take(i as int));
                &&& st.in_string == in_string
                &&& st.current == current@
                &&& st.key == (match key {
                    Some(k) => Some(k@),
                    None => None,
                })
                &&& st.depth == depth as int
                &&& st.pairs == pairs_view(pairs@)
            }),
        decreases cs.len() - i,
    {
        let c = cs[i];
        proof {
            assert(cs@.take(i + 1).drop_last() =~= cs@.take(i as int));
            assert(cs@.take(i + 1).last() == c);
        }
        let ghost before = pairs@;
        if in_string {
            if c == '"' {
                let text = current;
                current = String::new();
                in_string = false;
                match key {
                    None => {
                        key = Some(text);
                    },
                    Some(k) => {
                        pairs.push((k, text, depth));
                        key = None;
                        proof {
                            assert(pairs_view(pairs@) =~= pairs_view(before).push(
                                (pairs@.last().0@, pairs@.last().1@, depth as int),
                            ));
                        }
                    },
                }
            } else {
                current.push(c);
            }
        } else if c == '"' {
            in_string = true;
            current = String::new();
        } else if c == '{' {
            key = None;
            depth = depth + 1;
        } else if c == '}' {
            key = None;
            depth = depth - 1;
        }
        i += 1;
    }
    assert(cs@.take(i as int) =~= cs@);
    pairs
}

/// The value of the first depth-one pair of `content` under `key`.
pub fn parse_top_level_string(content: &str, key: &str) -> (r: Option<String>)
    ensures
        match r {
            Some(v) => top_level_string(content@, key@) == Some(v@),
            None => top_level_string(content@, key@) is None,
        },
{
    let pairs = vdf_pairs(content);
    let k = chars_of(key);
    let ghost pv = pairs_view(pairs@);
    assert(pv.skip(0) =~= pv);
    let mut i: usize = 0;
    while i < pairs.len()
        invariant
            i <= pairs@.len(),
            pv == pairs_view(pairs@),
            pv == vdf_pairs_of(content@),
            k@ == key@,
            first_top_level(pv, key@) == i + first_top_level(pv.skip(i as int), key@),
        decreases pairs.len() - i,
    {
        let kc = chars_of(pairs[i].0.as_str());
        assert(pv.skip(i as int)[0] == pv[i as int]);
        if pairs[i].2 == 1 && chars_eq(kc.as_slice(), k.as_slice()) {
            return Some(pairs[i].1.clone());
        }
        assert(pv.skip(i as int).drop_first() =~= pv.skip(i + 1));
        i += 1;
    }
    None
}

/// The first depth-one value of `content` under `key`, read as a `u64`.
pub open spec fn top_level_u64(s: Seq<char>, key: Seq<char>) -> Option<u64> {
    match top_level_string(s, key) {
        Some(v) => parse_u64(v),
        None => None,
    }
}

/// [`parse_top_level_string`], read as a `u64`.
pub fn parse_top_level_u64(content: &str, key: &str) -> (r: Option<u64>)
    ensures
        r == top_level_u64(content@, key@),
{
    match parse_top_level_string(content, key) {
        Some(v) => {
            let vc = chars_of(v.as_str());
            parse_u64_chars(vc.as_slice())
        },
        None => None,
    }
}

/// The values of every pair of `content` under `key`, at any depth.
pub fn parse_all_values(content: &str, key: &str) -> (r: Vec<String>)
    ensures
        r@.map_values(|s: String| s@) == all_values(vdf_pairs_of(content@), key@),
{
    let pairs = vdf_pairs(content);
    let k = chars_of(key);
    let ghost pv = pairs_view(pairs@);
    let mut out: Vec<String> = Vec::new();
    let mut i: usize = 0;
    while i < pairs.len()
        invariant
            i <= pairs@.len(),
            pv == pairs_view(pairs@),
            k@ == key@,
            out@.map_values(|s: String| s@) == all_values(pv.take(i as int), key@),
        decreases pairs.len() - i,
    {
        let kc = chars_of(pairs[i].0.as_str());
        assert(pv.take(i + 1).drop_last() =~= pv.take(i as int));
        assert(pv.take(i + 1).last() == pv[i as int]);
        if chars_eq(kc.as_slice(), k.as_slice()) {
            let ghost prev = out@;
            out.push(pairs[i].1.clone());
            assert(out@.map_values(|s: String| s@) =~= prev.map_values(|s: String| s@).push(
                pv[i as int].1,
            ));
        }
        i += 1;
    }
    assert(pv.take(i as int) =~= pv);
    out
}

} // verus!
