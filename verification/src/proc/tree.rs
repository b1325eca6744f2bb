//! Process ancestry from `/proc/<pid>/stat` and `/proc/<pid>/comm`.
//!
//! The walk reads one parent at a time; what is decided here is how a
//! `stat` line is read and when the walk stops.

use vstd::prelude::*;
use crate::text::{
    chars_eq, chars_of, is_whitespace, is_ws, last_index_of, lemma_last_index_of,
    lemma_last_index_of_unique, parse_u32, parse_u32_chars, rfind_char, trim, trim_chars,
};

verus! {

broadcast use vstd::string::group_string_axioms;

/// Words read so far and the word being read (`str::split_whitespace`).
pub open spec fn word_scan(s: Seq<char>) -> (Seq<Seq<char>>, Seq<char>)
    decreases s.len(),
{
    if s.len() == 0 {
        (seq![], seq![])
    } else {
        let (done, cur) = word_scan(s.drop_last());
        if is_ws(s.last()) {
            if cur.len() > 0 {
                (done.push(cur), seq![])
            } else {
                (done, seq![])
            }
        } else {
            (done, cur.push(s.last()))
        }
    }
}

/// The whitespace-separated words of `s`.
pub open spec fn words(s: Seq<char>) -> Seq<Seq<char>> {
    if word_scan(s).1.len() > 0 {
        word_scan(s).0.push(word_scan(s).1)
    } else {
        word_scan(s).0
    }
}

/// The words of `s`, computed.
pub fn split_words(s: &[char]) -> (r: Vec<Vec<char>>)
    ensures
        r@.map_values(|w: Vec<char>| w@) == words(s@),
{
    let mut done: Vec<Vec<char>> = Vec::new();
    let mut cur: Vec<char> = Vec::new();
    let mut i: usize = 0;
    while i < s.len()
        invariant
            i <= s@.len(),
            done@.map_values(|w: Vec<char>| w@) == word_scan(s@.take(i as int)).0,
            cur@ == word_scan(s@.take(i as int)).1,
        decreases s.len() - i,
    {
        proof {
            assert(s@.take(i + 1).drop_last() =~= s@.take(i as int));
        }
        let c = s[i];
        if is_whitespace(c) {
            if cur.len() > 0 {
                let ghost before = done@;
                done.push(cur);
                assert(done@.map_values(|w: Vec<char>| w@) =~= before.map_values(
                    |w: Vec<char>| w@,
                ).push(done@.last()@));
            }
            cur = Vec::new();
        } else {
            cur.push(c);
        }
        i += 1;
    }
    assert(s@.take(i as int) =~= s@);
    if cur.len() > 0 {
        let ghost before = done@;
        done.push(cur);
        assert(done@.map_values(|w: Vec<char>| w@) =~= before.map_values(|w: Vec<char>| w@).push(
            done@.last()@,
        ));
    }
    done
}

/// The parent pid a `stat` line gives: the second word after the last
/// `)` (the first is the state). The `comm` field before it is
/// parenthesised and may itself hold spaces and parentheses, which is
/// why the last `)` is the separator.
pub open spec fn ppid_of(stat: Seq<char>) -> Option<u32> {
    let r = last_index_of(stat, ')');
    if r < 0 {
        None
    } else {
        let w = words(stat.skip(r + 1));
        if w.len() < 2 {
            None
        } else {
            parse_u32(w[1])
        }
    }
}

/// Read the parent pid out of a `/proc/<pid>/stat` line.
pub fn parse_ppid(stat: &str) -> (r: Option<u32>)
    ensures
        r == ppid_of(stat@),
{
    let cs = chars_of(stat);
    let r = match rfind_char(cs.as_slice(), ')') {
        Some(r) => r,
        None => return None,
    };
    proof {
        lemma_last_index_of(cs@, ')');
    }
    let n = cs.len();
    assert(r < n);
    let mut rest: Vec<char> = Vec::new();
    let mut i = r + 1;
    while i < cs.len()
        invariant
            r < cs@.len(),
            r + 1 <= i <= cs@.len(),
            rest@ == cs@.subrange(r + 1, i as int),
        decreases cs.len() - i,
    {
        rest.push(cs[i]);
        i += 1;
        assert(rest@ =~= cs@.subrange(r + 1, i as int));
    }
    assert(rest@ =~= cs@.skip(r + 1));
    let w = split_words(rest.as_slice());
    if w.len() < 2 {
        return None;
    }
    parse_u32_chars(w[1].as_slice())
}

/// Whether the ancestor walk goes on past `pid`: it stops at `init`
/// (pid 1) and never asks for the parent of pid 0.
pub fn walk_continues(pid: u32) -> (r: bool)
    ensures
        r == (pid > 1),
{
    pid > 1
}

/// Whether some `comm` of the ancestors (trimmed) is `target`.
pub fn any_comm_is(comms: &Vec<String>, target: &str) -> (r: bool)
    ensures
        r == exists|i: int| 0 <= i < comms@.len() && trim(#[trigger] comms@[i]@) == target@,
{
    let t = chars_of(target);
    let mut i: usize = 0;
    while i < comms.len()
        invariant
            i <= comms@.len(),
            t@ == target@,
            forall|j: int| 0 <= j < i ==> trim(#[trigger] comms@[j]@) != target@,
        decreases comms.len() - i,
    {
        let c = chars_of(comms[i].as_str());
        let tc = trim_chars(c.as_slice());
        if chars_eq(tc.as_slice(), t.as_slice()) {
            return true;
        }
        i += 1;
    }
    false
}

} // verus!
