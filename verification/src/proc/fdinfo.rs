//! Parse `/proc/<pid>/fdinfo/*` for per-process DRM GPU statistics.
//!
//! The kernel DRM subsystem writes per-fd accounting into
//! `/proc/<pid>/fdinfo/<fd>`. For fds belonging to a DRM device there
//! are lines like:
//!
//! ```text
//! drm-driver:   amdgpu
//! drm-engine-gfx: 12345678 ns
//! drm-memory-vram: 1024 kB
//! ```
//!
//! A process may own several DRM fds; [`accumulate`] is applied to each
//! fd's document in turn, summing memory and engine time and keeping
//! the first driver name seen.

use vstd::prelude::*;
use crate::text::{
    chars_eq, chars_of, ends_with, find_char, first_index_of, is_prefix_of, is_suffix_of,
    last_index_of, lemma_first_index_of, lemma_last_index_of, lemma_last_index_of_unique,
    parse_u64, parse_u64_chars, slice_range, starts_with, string_of_chars, trim, trim_chars,
};

verus! {

broadcast use vstd::string::group_string_axioms;

/// Summary of the DRM fdinfo counters aggregated across every file
/// descriptor the process has open against a DRM device.
#[derive(Debug, Clone, PartialEq, Eq)]
pub struct GpuSummary {
    /// First DRM driver name observed (`"amdgpu"`, `"i915"`, …). `None`
    /// means no DRM fd was found for this process.
    pub driver: Option<String>,
    /// Sum of all `drm-memory-*` values in bytes across every fd.
    pub memory_bytes: u64,
    /// Sum of all `drm-engine-*` values in nanoseconds, excluding the
    /// per-engine `-capacity` fields.
    pub engine_nanoseconds: u64,
}

/// The mathematical content of a [`GpuSummary`].
pub struct GpuView {
    pub driver: Option<Seq<char>>,
    pub memory_bytes: u64,
    pub engine_nanoseconds: u64,
}

impl View for GpuSummary {
    type V = GpuView;

    open spec fn view(&self) -> GpuView {
        GpuView {
            driver: match self.driver {
                Some(d) => Some(d@),
                None => None,
            },
            memory_bytes: self.memory_bytes,
            engine_nanoseconds: self.engine_nanoseconds,
        }
    }
}

impl Default for GpuSummary {
    fn default() -> (r: Self)
        ensures
            r@ == (GpuView { driver: None, memory_bytes: 0, engine_nanoseconds: 0 }),
    {
        GpuSummary { driver: None, memory_bytes: 0, engine_nanoseconds: 0 }
    }
}

impl GpuSummary {
    /// Returns `true` if any DRM fd was observed.
    pub fn any(&self) -> (r: bool)
        ensures
            r == (self.driver is Some),
    {
        self.driver.is_some()
    }
}

/// `u64::saturating_add`.
pub open spec fn sat_add(a: u64, b: u64) -> u64 {
    if a + b > u64::MAX {
        u64::MAX
    } else {
        (a + b) as u64
    }
}

/// `u64::saturating_mul`.
pub open spec fn sat_mul(a: u64, b: u64) -> u64 {
    if a * b > u64::MAX {
        u64::MAX
    } else {
        (a * b) as u64
    }
}

/// `str::split_once(c)`: the text before and after the first `c`.
pub open spec fn split_once(s: Seq<char>, c: char) -> Option<(Seq<char>, Seq<char>)> {
    let i = first_index_of(s, c);
    if i >= s.len() {
        None
    } else {
        Some((s.take(i), s.skip(i + 1)))
    }
}

/// `split_once` on a character slice.
pub fn split_once_chars(s: &[char], c: char) -> (r: Option<(Vec<char>, Vec<char>)>)
    ensures
        match r {
            Some((a, b)) => split_once(s@, c) == Some((a@, b@)),
            None => split_once(s@, c) is None,
        },
{
    let i = find_char(s, c);
    proof {
        lemma_first_index_of(s@, c);
    }
    if i >= s.len() {
        return None;
    }
    let a = slice_range(s, 0, i);
    let b = slice_range(s, i + 1, s.len());
    assert(a@ =~= s@.take(i as int));
    assert(b@ =~= s@.skip(i + 1));
    Some((a, b))
}

/// The byte multiplier of a memory unit.
pub open spec fn unit_multiplier(unit: Seq<char>) -> Option<u64> {
    if unit == "B"@ || unit == "bytes"@ {
        Some(1u64)
    } else if unit == "kB"@ || unit == "KB"@ || unit == "KiB"@ {
        Some(1024u64)
    } else if unit == "MB"@ || unit == "MiB"@ {
        Some(1048576u64)
    } else if unit == "GB"@ || unit == "GiB"@ {
        Some(1073741824u64)
    } else {
        None
    }
}

/// A `"<number> <unit>"` memory value in bytes (saturating).
pub open spec fn byte_value(value: Seq<char>) -> Option<u64> {
    match split_once(value, ' ') {
        Some((num, unit)) => match parse_u64(num) {
            Some(n) => match unit_multiplier(trim(unit)) {
                Some(m) => Some(sat_mul(n, m)),
                None => None,
            },
            None => None,
        },
        None => None,
    }
}

/// A `"<number> ns"` engine-time value.
pub open spec fn ns_value(value: Seq<char>) -> Option<u64> {
    match split_once(value, ' ') {
        Some((num, unit)) => if trim(unit) == "ns"@ {
            parse_u64(num)
        } else {
            None
        },
        None => None,
    }
}

fn eq_lit(s: &[char], lit: &str) -> (r: bool)
    ensures
        r == (s@ == lit@),
{
    let l = chars_of(lit);
    chars_eq(s, l.as_slice())
}

fn unit_multiplier_exec(unit: &[char]) -> (r: Option<u64>)
    ensures
        r == unit_multiplier(unit@),
{
    if eq_lit(unit, "B") || eq_lit(unit, "bytes") {
        Some(1)
    } else if eq_lit(unit, "kB") || eq_lit(unit, "KB") || eq_lit(unit, "KiB") {
        Some(1024)
    } else if eq_lit(unit, "MB") || eq_lit(unit, "MiB") {
        Some(1048576)
    } else if eq_lit(unit, "GB") || eq_lit(unit, "GiB") {
        Some(1073741824)
    } else {
        None
    }
}

/// Parse a memory value such as `"1024 kB"` into bytes.
pub fn parse_byte_unit(value: &str) -> (r: Option<u64>)
    ensures
        r == byte_value(value@),
{
    let v = chars_of(value);
    byte_unit_chars(v.as_slice())
}

fn byte_unit_chars(value: &[char]) -> (r: Option<u64>)
    ensures
        r == byte_value(value@),
{
    let (num, unit) = match split_once_chars(value, ' ') {
        Some(p) => p,
        None => return None,
    };
    let n = match parse_u64_chars(num.as_slice()) {
        Some(n) => n,
        None => return None,
    };
    let u = trim_chars(unit.as_slice());
    let m = match unit_multiplier_exec(u.as_slice()) {
        Some(m) => m,
        None => return None,
    };
    match n.checked_mul(m) {
        Some(b) => Some(b),
        None => Some(u64::MAX),
    }
}

/// Parse an engine-time value such as `"500 ns"`.
pub fn parse_ns(value: &str) -> (r: Option<u64>)
    ensures
        r == ns_value(value@),
{
    let v = chars_of(value);
    ns_chars(v.as_slice())
}

fn ns_chars(value: &[char]) -> (r: Option<u64>)
    ensures
        r == ns_value(value@),
{
    let (num, unit) = match split_once_chars(value, ' ') {
        Some(p) => p,
        None => return None,
    };
    let u = trim_chars(unit.as_slice());
    if !eq_lit(u.as_slice(), "ns") {
        return None;
    }
    parse_u64_chars(num.as_slice())
}

/// `acc` updated with one fdinfo line.
pub open spec fn fd_line(acc: GpuView, line: Seq<char>) -> GpuView {
    match split_once(line, ':') {
        None => acc,
        Some((k, v)) => {
            let key = trim(k);
            let value = trim(v);
            if key == "drm-driver"@ {
                if acc.driver is None && value.len() > 0 {
                    GpuView { driver: Some(value), ..acc }
                } else {
                    acc
                }
            } else if is_prefix_of("drm-memory-"@, key) {
                match byte_value(value) {
                    Some(b) => GpuView { memory_bytes: sat_add(acc.memory_bytes, b), ..acc },
                    None => acc,
                }
            } else if is_prefix_of("drm-engine-"@, key) && !is_suffix_of("-capacity"@, key) {
                match ns_value(value) {
                    Some(n) => GpuView {
                        engine_nanoseconds: sat_add(acc.engine_nanoseconds, n),
                        ..acc
                    },
                    None => acc,
                }
            } else {
                acc
            }
        },
    }
}

/// `acc` updated with every newline-separated line of `s`, in order.
/// (A trailing `\r` or final empty line changes nothing: both are blank
/// after trimming or lack a `:`.)
pub open spec fn fd_document(acc: GpuView, s: Seq<char>) -> GpuView
    decreases s.len(),
{
    let j = last_index_of(s, '\n');
    if j < 0 {
        fd_line(acc, s)
    } else {
        proof {
            lemma_last_index_of(s, '\n');
        }
        fd_line(fd_document(acc, s.take(j)), s.skip(j + 1))
    }
}

fn fd_line_exec(summary: &mut GpuSummary, line: &[char])
    ensures
        final(summary)@ == fd_line(old(summary)@, line@),
{
    let (k, v) = match split_once_chars(line, ':') {
        Some(p) => p,
        None => return,
    };
    let key = trim_chars(k.as_slice());
    let value = trim_chars(v.as_slice());
    let drm_memory = chars_of("drm-memory-");
    let drm_engine = chars_of("drm-engine-");
    let capacity = chars_of("-capacity");
    if eq_lit(key.as_slice(), "drm-driver") {
        if summary.driver.is_none() && value.len() > 0 {
            summary.driver = Some(string_of_chars(&value));
        }
    } else if starts_with(key.as_slice(), drm_memory.as_slice()) {
        if let Some(bytes) = byte_unit_chars(value.as_slice()) {
            summary.memory_bytes = summary.memory_bytes.saturating_add(bytes);
        }
    } else if starts_with(key.as_slice(), drm_engine.as_slice()) && !ends_with(
        key.as_slice(),
        capacity.as_slice(),
    ) {
        if let Some(ns) = ns_chars(value.as_slice()) {
            summary.engine_nanoseconds = summary.engine_nanoseconds.saturating_add(ns);
        }
    }
}

/// Parse a single fdinfo document and add its DRM counters to `summary`.
pub fn accumulate(content: &str, summary: &mut GpuSummary)
    ensures
        final(summary)@ == fd_document(old(summary)@, content@),
{
    let cs = chars_of(content);
    let s = cs.as_slice();
    let ghost init = summary@;
    let mut start: usize = 0;
    let mut i: usize = 0;
    while i < s.len()
        invariant
            start <= i <= s.len(),
            s@ == content@,
            start > 0 ==> s@[start - 1] == '\n',
            forall|j: int| start <= j < i ==> s@[j] != '\n',
            summary@ == (if start == 0 {
                init
            } else {
                fd_document(init, s@.take(start - 1))
            }),
        decreases s.len() - i,
    {
        if s[i] == '\n' {
            let line = slice_range(s, start, i);
            proof {
                let t = s@.take(i as int);
                lemma_last_index_of_unique(t, '\n', start - 1);
                assert(t.skip(start as int) =~= line@);
                if start > 0 {
                    assert(t.take(start - 1) =~= s@.take(start - 1));
                } else {
                    assert(line@ =~= t);
                }
            }
            fd_line_exec(summary, line.as_slice());
            start = i + 1;
        }
        i += 1;
    }
    let line = slice_range(s, start, s.len());
    proof {
        let t = s@;
        lemma_last_index_of_unique(t, '\n', start - 1);
        assert(t.skip(start as int) =~= line@);
        if start == 0 {
            assert(line@ =~= t);
        }
    }
    fd_line_exec(summary, line.as_slice());
}

// ---------------------------------------------------------------------
// Laws of the document scan: the fold in closed form.
// ---------------------------------------------------------------------

/// The driver a line names: the trimmed value of a `drm-driver:` line,
/// when it is not empty.
pub open spec fn driver_of(line: Seq<char>) -> Option<Seq<char>> {
    match split_once(line, ':') {
        Some((k, v)) => if trim(k) == "drm-driver"@ && trim(v).len() > 0 {
            Some(trim(v))
        } else {
            None
        },
        None => None,
    }
}

/// The bytes a line adds: the value of a `drm-memory-*:` line in a known
/// unit, else zero.
pub open spec fn memory_of(line: Seq<char>) -> nat {
    match split_once(line, ':') {
        Some((k, v)) => if trim(k) != "drm-driver"@ && is_prefix_of("drm-memory-"@, trim(k)) {
            match byte_value(trim(v)) {
                Some(b) => b as nat,
                None => 0,
            }
        } else {
            0
        },
        None => 0,
    }
}

/// The nanoseconds a line adds: the value of a `drm-engine-*:` line that
/// is not a `-capacity` line, given in `ns`, else zero.
pub open spec fn engine_of(line: Seq<char>) -> nat {
    match split_once(line, ':') {
        Some((k, v)) => if trim(k) != "drm-driver"@ && !is_prefix_of("drm-memory-"@, trim(k))
            && is_prefix_of("drm-engine-"@, trim(k)) && !is_suffix_of("-capacity"@, trim(k)) {
            match ns_value(trim(v)) {
                Some(n) => n as nat,
                None => 0,
            }
        } else {
            0
        },
        None => 0,
    }
}

/// The first driver named by a line of `s`.
pub open spec fn first_driver(s: Seq<char>) -> Option<Seq<char>>
    decreases s.len(),
{
    let j = last_index_of(s, '\n');
    if j < 0 {
        driver_of(s)
    } else {
        proof {
            lemma_last_index_of(s, '\n');
        }
        match first_driver(s.take(j)) {
            Some(d) => Some(d),
            None => driver_of(s.skip(j + 1)),
        }
    }
}

/// The bytes every line of `s` adds, summed without bound.
pub open spec fn memory_total(s: Seq<char>) -> nat
    decreases s.len(),
{
    let j = last_index_of(s, '\n');
    if j < 0 {
        memory_of(s)
    } else {
        proof {
            lemma_last_index_of(s, '\n');
        }
        memory_total(s.take(j)) + memory_of(s.skip(j + 1))
    }
}

/// The nanoseconds every line of `s` adds, summed without bound.
pub open spec fn engine_total(s: Seq<char>) -> nat
    decreases s.len(),
{
    let j = last_index_of(s, '\n');
    if j < 0 {
        engine_of(s)
    } else {
        proof {
            lemma_last_index_of(s, '\n');
        }
        engine_total(s.take(j)) + engine_of(s.skip(j + 1))
    }
}

/// `x` capped at `u64::MAX`.
pub open spec fn cap_u64(x: int) -> u64 {
    if x > u64::MAX {
        u64::MAX
    } else {
        x as u64
    }
}

/// One line in closed form.
proof fn lemma_fd_line(acc: GpuView, line: Seq<char>)
    ensures
        fd_line(acc, line) == (GpuView {
            driver: if acc.driver is Some {
                acc.driver
            } else {
                driver_of(line)
            },
            memory_bytes: cap_u64(acc.memory_bytes + memory_of(line)),
            engine_nanoseconds: cap_u64(acc.engine_nanoseconds + engine_of(line)),
        }),
{
}

/// A document folded line by line is, in closed form: the driver already
/// known, else the first a line names; the memory and engine time
/// already counted plus the sum over the lines, capped at `u64::MAX`
/// (saturating addition of non-negative terms).
pub proof fn lemma_fd_document_closed_form(acc: GpuView, s: Seq<char>)
    ensures
        fd_document(acc, s) == (GpuView {
            driver: if acc.driver is Some {
                acc.driver
            } else {
                first_driver(s)
            },
            memory_bytes: cap_u64(acc.memory_bytes + memory_total(s)),
            engine_nanoseconds: cap_u64(acc.engine_nanoseconds + engine_total(s)),
        }),
    decreases s.len(),
{
    lemma_last_index_of(s, '\n');
    let j = last_index_of(s, '\n');
    if j < 0 {
        lemma_fd_line(acc, s);
    } else {
        lemma_fd_document_closed_form(acc, s.take(j));
        lemma_fd_line(fd_document(acc, s.take(j)), s.skip(j + 1));
    }
}

/// The memory units, by value: `B` and `bytes` count bytes; `kB`, `KB`
/// and `KiB` count 1024 bytes; `MB` and `MiB` 1024 of those; `GB` and
/// `GiB` 1024 of those again. Any other unit is not understood.
pub proof fn lemma_unit_table(other: Seq<char>)
    ensures
        unit_multiplier("B"@) == Some(1u64),
        unit_multiplier("bytes"@) == Some(1u64),
        unit_multiplier("kB"@) == Some(1024u64),
        unit_multiplier("KB"@) == Some(1024u64),
        unit_multiplier("KiB"@) == Some(1024u64),
        unit_multiplier("MB"@) == Some(1048576u64),
        unit_multiplier("MiB"@) == Some(1048576u64),
        unit_multiplier("GB"@) == Some(1073741824u64),
        unit_multiplier("GiB"@) == Some(1073741824u64),
        other != "B"@ && other != "bytes"@ && other != "kB"@ && other != "KB"@ && other != "KiB"@
            && other != "MB"@ && other != "MiB"@ && other != "GB"@ && other != "GiB"@
            ==> unit_multiplier(other) is None,
{
    reveal_strlit("B");
    reveal_strlit("bytes");
    reveal_strlit("kB");
    reveal_strlit("KB");
    reveal_strlit("KiB");
    reveal_strlit("MB");
    reveal_strlit("MiB");
    reveal_strlit("GB");
    reveal_strlit("GiB");
    assert("B"@.len() == 1);
    assert("bytes"@.len() == 5);
    assert("kB"@[0] != "KB"@[0]);
    assert("MB"@[0] != "kB"@[0] && "MB"@[0] != "KB"@[0]);
    assert("GB"@[0] != "kB"@[0] && "GB"@[0] != "KB"@[0] && "GB"@[0] != "MB"@[0]);
    assert("MiB"@[0] != "KiB"@[0]);
    assert("GiB"@[0] != "KiB"@[0] && "GiB"@[0] != "MiB"@[0]);
    assert("kB"@.len() == 2 && "KB"@.len() == 2 && "MB"@.len() == 2 && "GB"@.len() == 2);
    assert("KiB"@.len() == 3 && "MiB"@.len() == 3 && "GiB"@.len() == 3);
}

} // verus!
