//! Parse `/proc/<pid>/environ` — a process's environment block.
//!
//! The file is a null-separated sequence of `KEY=VALUE` entries.
//! Entries that are empty, lack `=`, or are not UTF-8 on either side of
//! the first `=` are skipped. A later entry for the same key replaces an
//! earlier one.

use vstd::prelude::*;
use crate::text::{
    chars_eq, chars_of, decode_utf8, find_byte, first_index_of, last_index_of,
    lemma_first_index_of, lemma_last_index_of, lemma_last_index_of_unique,
};

verus! {

broadcast use vstd::string::group_string_axioms;

/// A process environment: a map from variable names to values.
#[derive(Debug, PartialEq, Eq)]
pub struct Environ {
    /// One entry per variable, names pairwise distinct.
    vars: Vec<(String, String)>,
}

/// The map built by inserting `pairs` in order.
pub open spec fn pairs_map(pairs: Seq<(String, String)>) -> Map<Seq<char>, Seq<char>>
    decreases pairs.len(),
{
    if pairs.len() == 0 {
        Map::empty()
    } else {
        pairs_map(pairs.drop_last()).insert(pairs.last().0@, pairs.last().1@)
    }
}

/// The names in `pairs` are pairwise distinct.
pub open spec fn distinct_names(pairs: Seq<(String, String)>) -> bool {
    forall|i: int, j: int|
        0 <= i < pairs.len() && 0 <= j < pairs.len() && i != j ==> pairs[i].0@ != pairs[j].0@
}

/// What `pairs_map` holds for distinct names: each pair is present and
/// nothing else is.
pub proof fn lemma_pairs_map(pairs: Seq<(String, String)>)
    requires
        distinct_names(pairs),
    ensures
        forall|i: int|
            0 <= i < pairs.len() ==> #[trigger] pairs_map(pairs).contains_key(pairs[i].0@)
                && pairs_map(pairs)[pairs[i].0@] == pairs[i].1@,
        forall|k: Seq<char>|
            #[trigger] pairs_map(pairs).contains_key(k) ==> exists|i: int|
                0 <= i < pairs.len() && pairs[i].0@ == k,
        pairs_map(pairs).dom().finite(),
        pairs_map(pairs).dom().len() == pairs.len(),
    decreases pairs.len(),
{
    if pairs.len() > 0 {
        let init = pairs.drop_last();
        assert(distinct_names(init)) by {
            assert forall|i: int, j: int|
                0 <= i < init.len() && 0 <= j < init.len() && i != j implies init[i].0@
                != init[j].0@ by {
                assert(init[i] == pairs[i]);
                assert(init[j] == pairs[j]);
            }
        }
        lemma_pairs_map(init);
        let last = pairs.last();
        assert(!pairs_map(init).contains_key(last.0@)) by {
            if pairs_map(init).contains_key(last.0@) {
                let i = choose|i: int| 0 <= i < init.len() && init[i].0@ == last.0@;
                assert(init[i] == pairs[i]);
                assert(pairs[i].0@ == pairs[pairs.len() - 1].0@);
            }
        }
        assert forall|i: int| 0 <= i < pairs.len() implies #[trigger] pairs_map(
            pairs,
        ).contains_key(pairs[i].0@) && pairs_map(pairs)[pairs[i].0@] == pairs[i].1@ by {
            if i < pairs.len() - 1 {
                assert(init[i] == pairs[i]);
                assert(pairs[i].0@ != pairs[pairs.len() - 1].0@);
            }
        }
        assert forall|k: Seq<char>| #[trigger] pairs_map(pairs).contains_key(k) implies exists|
            i: int,
        | 0 <= i < pairs.len() && pairs[i].0@ == k by {
            if k != last.0@ {
                let i = choose|i: int| 0 <= i < init.len() && init[i].0@ == k;
                assert(init[i] == pairs[i]);
            } else {
                assert(pairs[pairs.len() - 1].0@ == k);
            }
        }
    }
}

impl Clone for Environ {
    fn clone(&self) -> (r: Self)
        ensures
            r@ == self@,
    {
        proof {
            use_type_invariant(self);
        }
        let mut vars: Vec<(String, String)> = Vec::new();
        let mut i: usize = 0;
        while i < self.vars.len()
            invariant
                i <= self.vars@.len(),
                distinct_names(self.vars@),
                vars@.len() == i,
                forall|a: int|
                    0 <= a < i ==> (#[trigger] vars@[a]).0@ == self.vars@[a].0@ && vars@[a].1@
                        == self.vars@[a].1@,
            decreases self.vars.len() - i,
        {
            let k = self.vars[i].0.clone();
            let v = self.vars[i].1.clone();
            vars.push((k, v));
            i += 1;
        }
        proof {
            lemma_same_views(vars@, self.vars@);
        }
        Environ { vars }
    }
}

/// Two pair sequences with the same views build the same map.
proof fn lemma_same_views(a: Seq<(String, String)>, b: Seq<(String, String)>)
    requires
        a.len() == b.len(),
        forall|i: int| 0 <= i < a.len() ==> (#[trigger] a[i]).0@ == b[i].0@ && a[i].1@ == b[i].1@,
    ensures
        pairs_map(a) == pairs_map(b),
        distinct_names(b) ==> distinct_names(a),
    decreases a.len(),
{
    if a.len() > 0 {
        lemma_same_views(a.drop_last(), b.drop_last());
    }
    if distinct_names(b) {
        assert forall|i: int, j: int|
            0 <= i < a.len() && 0 <= j < a.len() && i != j implies a[i].0@ != a[j].0@ by {
            assert(b[i].0@ != b[j].0@);
        }
    }
}

impl View for Environ {
    type V = Map<Seq<char>, Seq<char>>;

    closed spec fn view(&self) -> Map<Seq<char>, Seq<char>> {
        pairs_map(self.vars@)
    }
}

impl Environ {
    #[verifier::type_invariant]
    spec fn names_distinct(self) -> bool {
        distinct_names(self.vars@)
    }

    /// An empty environment.
    pub fn new() -> (r: Self)
        ensures
            r@ == Map::<Seq<char>, Seq<char>>::empty(),
    {
        Environ { vars: Vec::new() }
    }

    /// Number of variables.
    pub fn len(&self) -> (r: usize)
        ensures
            r == self@.dom().len(),
    {
        proof {
            use_type_invariant(self);
            lemma_pairs_map(self.vars@);
        }
        self.vars.len()
    }

    /// Whether there are no variables.
    pub fn is_empty(&self) -> (r: bool)
        ensures
            r == (self@.dom().len() == 0),
    {
        self.len() == 0
    }

    /// Position of the variable named `key` among the entries, if any.
    fn position(&self, key: &[char]) -> (r: Option<usize>)
        ensures
            match r {
                Some(i) => i < self.vars@.len() && self.vars@[i as int].0@ == key@,
                None => forall|i: int| 0 <= i < self.vars@.len() ==> self.vars@[i].0@ != key@,
            },
    {
        let mut i: usize = 0;
        while i < self.vars.len()
            invariant
                i <= self.vars@.len(),
                forall|j: int| 0 <= j < i ==> self.vars@[j].0@ != key@,
            decreases self.vars.len() - i,
        {
            let name = chars_of(self.vars[i].0.as_str());
            if chars_eq(name.as_slice(), key) {
                return Some(i);
            }
            i += 1;
        }
        None
    }

    /// The value of variable `key`, if set.
    pub fn get(&self, key: &str) -> (r: Option<&String>)
        ensures
            r is Some <==> self@.contains_key(key@),
            r matches Some(v) ==> v@ == self@[key@],
    {
        proof {
            use_type_invariant(self);
            lemma_pairs_map(self.vars@);
        }
        let k = chars_of(key);
        match self.position(k.as_slice()) {
            Some(i) => {
                assert(pairs_map(self.vars@).contains_key(self.vars@[i as int].0@));
                Some(&self.vars[i].1)
            },
            None => None,
        }
    }

    /// Whether variable `key` is set.
    pub fn contains_key(&self, key: &str) -> (r: bool)
        ensures
            r == self@.contains_key(key@),
    {
        self.get(key).is_some()
    }

    /// Set variable `key` to `value`, replacing any previous value.
    pub fn insert(&mut self, key: String, value: String)
        ensures
            final(self)@ == old(self)@.insert(key@, value@),
    {
        proof {
            use_type_invariant(&*self);
            lemma_pairs_map(self.vars@);
        }
        let k = chars_of(key.as_str());
        match self.position(k.as_slice()) {
            Some(i) => {
                let ghost old_vars = self.vars@;
                let ghost old_map = pairs_map(old_vars);
                let mut vars: Vec<(String, String)> = Vec::new();
                std::mem::swap(&mut vars, &mut self.vars);
                vars.set(i, (key, value));
                proof {
                    let nv = vars@;
                    assert(distinct_names(nv)) by {
                        assert forall|a: int, b: int|
                            0 <= a < nv.len() && 0 <= b < nv.len() && a != b implies nv[a].0@
                            != nv[b].0@ by {
                            if a != i && b != i {
                                assert(nv[a] == old_vars[a]);
                                assert(nv[b] == old_vars[b]);
                            } else if a == i {
                                assert(nv[b] == old_vars[b]);
                                assert(old_vars[i as int].0@ == key@);
                            } else {
                                assert(nv[a] == old_vars[a]);
                                assert(old_vars[i as int].0@ == key@);
                            }
                        }
                    }
                    lemma_pairs_map(nv);
                    assert(pairs_map(nv) =~= old_map.insert(key@, value@)) by {
                        assert forall|kk: Seq<char>| #[trigger]
                            pairs_map(nv).contains_key(kk) == old_map.insert(
                                key@,
                                value@,
                            ).contains_key(kk) by {
                            if pairs_map(nv).contains_key(kk) {
                                let j = choose|j: int| 0 <= j < nv.len() && nv[j].0@ == kk;
                                if j != i {
                                    assert(nv[j] == old_vars[j]);
                                    assert(old_map.contains_key(old_vars[j].0@));
                                }
                            }
                            if old_map.contains_key(kk) && kk != key@ {
                                let j = choose|j: int|
                                    0 <= j < old_vars.len() && old_vars[j].0@ == kk;
                                assert(j != i);
                                assert(nv[j] == old_vars[j]);
                                assert(pairs_map(nv).contains_key(nv[j].0@));
                            }
                            if kk == key@ {
                                assert(nv[i as int].0@ == key@);
                                assert(pairs_map(nv).contains_key(nv[i as int].0@));
                            }
                        }
                        assert forall|kk: Seq<char>| #[trigger]
                            pairs_map(nv).contains_key(kk) implies pairs_map(nv)[kk]
                            == old_map.insert(key@, value@)[kk] by {
                            let j = choose|j: int| 0 <= j < nv.len() && nv[j].0@ == kk;
                            if j != i {
                                assert(nv[j] == old_vars[j]);
                                assert(old_map.contains_key(old_vars[j].0@));
                            }
                        }
                    }
                }
                self.vars = vars;
            },
            None => {
                let ghost old_vars = self.vars@;
                let mut vars: Vec<(String, String)> = Vec::new();
                std::mem::swap(&mut vars, &mut self.vars);
                vars.push((key, value));
                proof {
                    let nv = vars@;
                    assert(nv.drop_last() =~= old_vars);
                    assert(distinct_names(nv)) by {
                        assert forall|a: int, b: int|
                            0 <= a < nv.len() && 0 <= b < nv.len() && a != b implies nv[a].0@
                            != nv[b].0@ by {
                            if a < old_vars.len() && b < old_vars.len() {
                                assert(nv[a] == old_vars[a]);
                                assert(nv[b] == old_vars[b]);
                            } else if a < old_vars.len() {
                                assert(nv[a] == old_vars[a]);
                            } else {
                                assert(nv[b] == old_vars[b]);
                            }
                        }
                    }
                }
                self.vars = vars;
            },
        }
    }

    /// Whether some variable of this environment is named in `names`.
    pub fn has_any_name_in(&self, names: &Vec<String>) -> (r: bool)
        ensures
            r == exists|k: Seq<char>| #[trigger]
                self@.contains_key(k) && names@.map_values(|n: String| n@).contains(k),
    {
        proof {
            use_type_invariant(self);
            lemma_pairs_map(self.vars@);
        }
        let ghost nv = names@.map_values(|n: String| n@);
        let mut i: usize = 0;
        while i < self.vars.len()
            invariant
                i <= self.vars@.len(),
                nv == names@.map_values(|n: String| n@),
                forall|a: int| 0 <= a < i ==> !nv.contains(#[trigger] self.vars@[a].0@),
            decreases self.vars.len() - i,
        {
            let name = chars_of(self.vars[i].0.as_str());
            let mut j: usize = 0;
            while j < names.len()
                invariant
                    j <= names@.len(),
                    nv == names@.map_values(|n: String| n@),
                    i < self.vars@.len(),
                    name@ == self.vars@[i as int].0@,
                    forall|b: int| 0 <= b < j ==> nv[b] != name@,
                decreases names.len() - j,
            {
                let candidate = chars_of(names[j].as_str());
                if chars_eq(candidate.as_slice(), name.as_slice()) {
                    proof {
                        use_type_invariant(self);
                        lemma_pairs_map(self.vars@);
                        assert(nv[j as int] == name@);
                        assert(nv.contains(name@));
                        assert(self@.contains_key(self.vars@[i as int].0@));
                    }
                    return true;
                }
                j += 1;
            }
            assert(!nv.contains(name@)) by {
                if nv.contains(name@) {
                    let b = choose|b: int| 0 <= b < nv.len() && nv[b] == name@;
                    assert(nv[b] != name@);
                }
            }
            i += 1;
        }
        proof {
            use_type_invariant(self);
            lemma_pairs_map(self.vars@);
        }
        assert forall|k: Seq<char>| !(#[trigger] self@.contains_key(k) && nv.contains(k)) by {
            if self@.contains_key(k) {
                let a = choose|a: int| 0 <= a < self.vars@.len() && self.vars@[a].0@ == k;
                assert(!nv.contains(self.vars@[a].0@));
            }
        }
        false
    }
}

// ---------------------------------------------------------------------
// The document format.
// ---------------------------------------------------------------------

/// The `KEY=VALUE` pair an entry holds, if it is well formed.
pub open spec fn parse_entry(e: Seq<u8>) -> Option<(Seq<char>, Seq<char>)> {
    let i = first_index_of(e, 0x3Du8);
    if e.len() == 0 || i >= e.len() {
        None
    } else if vstd::utf8::valid_utf8(e.take(i)) && vstd::utf8::valid_utf8(e.skip(i + 1)) {
        Some((vstd::utf8::decode_utf8(e.take(i)), vstd::utf8::decode_utf8(e.skip(i + 1))))
    } else {
        None
    }
}

/// `m` with the entry `e` applied.
pub open spec fn apply_entry(m: Map<Seq<char>, Seq<char>>, e: Seq<u8>) -> Map<
    Seq<char>,
    Seq<char>,
> {
    match parse_entry(e) {
        Some((k, v)) => m.insert(k, v),
        None => m,
    }
}

/// The environment a `/proc/<pid>/environ` document describes: its
/// null-separated entries applied in order.
pub open spec fn environ_of(s: Seq<u8>) -> Map<Seq<char>, Seq<char>>
    decreases s.len(),
{
    let j = last_index_of(s, 0u8);
    if j < 0 {
        apply_entry(Map::empty(), s)
    } else {
        proof {
            lemma_last_index_of(s, 0u8);
        }
        apply_entry(environ_of(s.take(j)), s.skip(j + 1))
    }
}

/// The entry `e` as a key and value, if well formed.
fn parse_entry_exec(e: &[u8]) -> (r: Option<(String, String)>)
    ensures
        match r {
            Some((k, v)) => parse_entry(e@) == Some((k@, v@)),
            None => parse_entry(e@) is None,
        },
{
    if e.len() == 0 {
        return None;
    }
    let i = find_byte(e, 0x3Du8);
    proof {
        lemma_first_index_of(e@, 0x3Du8);
    }
    if i >= e.len() {
        return None;
    }
    let key_bytes = &e[0..i];
    let value_bytes = &e[i + 1..e.len()];
    assert(key_bytes@ =~= e@.take(i as int));
    assert(value_bytes@ =~= e@.skip(i + 1));
    let key = decode_utf8(key_bytes);
    let value = decode_utf8(value_bytes);
    match (key, value) {
        (Some(k), Some(v)) => Some((k, v)),
        _ => None,
    }
}

/// Parse a null-separated `/proc/<pid>/environ` document.
pub fn parse(content: &[u8]) -> (r: Environ)
    ensures
        r@ == environ_of(content@),
{
    let mut env = Environ::new();
    let mut start: usize = 0;
    let mut i: usize = 0;
    while i < content.len()
        invariant
            start <= i <= content.len(),
            start > 0 ==> content@[start - 1] == 0u8,
            forall|j: int| start <= j < i ==> content@[j] != 0u8,
            env@ == (if start == 0 {
                Map::<Seq<char>, Seq<char>>::empty()
            } else {
                environ_of(content@.take(start - 1))
            }),
        decreases content.len() - i,
    {
        if content[i] == 0 {
            let entry = &content[start..i];
            proof {
                let t = content@.take(i as int);
                lemma_last_index_of_unique(t, 0u8, start - 1);
                assert(t.skip(start as int) =~= entry@);
                if start > 0 {
                    assert(t.take(start - 1) =~= content@.take(start - 1));
                }
            }
            if let Some((k, v)) = parse_entry_exec(entry) {
                env.insert(k, v);
            }
            start = i + 1;
        }
        i += 1;
    }
    let entry = &content[start..content.len()];
    proof {
        let t = content@;
        lemma_last_index_of_unique(t, 0u8, start - 1);
        assert(t.skip(start as int) =~= entry@);
        if start == 0 {
            assert(entry@ =~= t);
        }
    }
    if let Some((k, v)) = parse_entry_exec(entry) {
        env.insert(k, v);
    }
    env
}

} // verus!
