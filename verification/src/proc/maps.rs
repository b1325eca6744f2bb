//! Parse `/proc/<pid>/maps` and detect which graphics libraries are
//! mapped into the process.
//!
//! Every mapping line carries a trailing pathname column:
//!
//! ```text
//! 7f8d12345000-7f8d12346000 r-xp 00000000 fd:01 12345 /usr/lib/libGL.so.1
//! ```
//!
//! The basename of each pathname is matched against a small set of
//! well-known shared objects and DLL names. Ordinary desktop apps link
//! Qt or GTK, neither of which pulls in raw GL / Vulkan / SDL, so any
//! of these is a strong sign of hardware-accelerated rendering.

use vstd::prelude::*;
use crate::text::{
    ascii_lower, ascii_lower_chars, chars_eq, chars_of, contains_chars, contains_sub, file_name,
    file_name_chars, is_prefix_of, is_whitespace, is_ws, last_index_of, lemma_last_index_of,
    lemma_last_index_of_unique, slice_range, starts_with, trim, trim_bounds,
};

verus! {

broadcast use vstd::string::group_string_axioms;

/// Which graphics stacks a process has mapped in. The four stacks are
/// independent (a Proton game can mix GL and Vulkan), so each has its
/// own flag.
#[derive(Debug, Clone, Copy, PartialEq, Eq, Structural)]
pub struct GraphicsLibraries {
    /// `libGL.so.*`, `libEGL.so.*`, or `libGLX.so.*` mapped.
    pub opengl: bool,
    /// `libvulkan.so.*` mapped.
    pub vulkan: bool,
    /// `libSDL2-*.so.*` or `libSDL.so.*` mapped.
    pub sdl: bool,
    /// Proton/Wine translation DLLs mapped (`dxvk`, `vkd3d`, `wined3d`,
    /// or Wine's own `d3d*.dll` / `dxgi.dll`).
    pub directx_via_proton: bool,
}

/// No library detected.
pub open spec fn no_libraries() -> GraphicsLibraries {
    GraphicsLibraries { opengl: false, vulkan: false, sdl: false, directx_via_proton: false }
}

impl Default for GraphicsLibraries {
    fn default() -> (r: Self)
        ensures
            r == no_libraries(),
    {
        GraphicsLibraries { opengl: false, vulkan: false, sdl: false, directx_via_proton: false }
    }
}

impl GraphicsLibraries {
    /// Some graphics library was detected.
    pub open spec fn any_spec(self) -> bool {
        self.opengl || self.vulkan || self.sdl || self.directx_via_proton
    }

    /// Returns `true` if any graphics library was detected.
    pub fn any(self) -> (r: bool)
        ensures
            r == self.any_spec(),
    {
        self.opengl || self.vulkan || self.sdl || self.directx_via_proton
    }
}

// ---------------------------------------------------------------------
// The pathname column.
// ---------------------------------------------------------------------

/// Index of the first whitespace character of `s`, or `s.len()`.
pub open spec fn first_ws(s: Seq<char>) -> int
    decreases s.len(),
{
    if s.len() == 0 {
        0
    } else if is_ws(s[0]) {
        0
    } else {
        1 + first_ws(s.drop_first())
    }
}

proof fn lemma_first_ws(s: Seq<char>)
    ensures
        0 <= first_ws(s) <= s.len(),
        forall|j: int| 0 <= j < first_ws(s) ==> !is_ws(s[j]),
        first_ws(s) < s.len() ==> is_ws(s[first_ws(s)]),
    decreases s.len(),
{
    if s.len() > 0 && !is_ws(s[0]) {
        lemma_first_ws(s.drop_first());
        assert forall|j: int| 0 <= j < first_ws(s) implies !is_ws(s[j]) by {
            if j > 0 {
                assert(s[j] == s.drop_first()[j - 1]);
            }
        }
    }
}

proof fn lemma_first_ws_unique(s: Seq<char>, i: int)
    requires
        0 <= i <= s.len(),
        forall|j: int| 0 <= j < i ==> !is_ws(s[j]),
        i < s.len() ==> is_ws(s[i]),
    ensures
        first_ws(s) == i,
{
    lemma_first_ws(s);
}

/// `s` with its first `n` whitespace-terminated, non-empty fields
/// removed (each field ends at a single whitespace character), or
/// `None` if it does not have that many.
pub open spec fn skip_fields(s: Seq<char>, n: nat) -> Option<Seq<char>>
    decreases n,
{
    if n == 0 {
        Some(s)
    } else {
        let i = first_ws(s);
        if i == 0 || i >= s.len() {
            None
        } else {
            skip_fields(s.skip(i + 1), (n - 1) as nat)
        }
    }
}

/// The pathname of a maps line: what follows the five leading fields
/// (`splitn(6, char::is_whitespace)` with empty pieces dropped), trimmed;
/// `None` for anonymous mappings.
pub open spec fn pathname_of(line: Seq<char>) -> Option<Seq<char>> {
    match skip_fields(line, 5) {
        Some(rest) => if trim(rest).len() > 0 {
            Some(trim(rest))
        } else {
            None
        },
        None => None,
    }
}

/// The pathname column of a maps line; `None` for anonymous mappings.
pub fn pathname_column(line: &[char]) -> (r: Option<Vec<char>>)
    ensures
        match r {
            Some(p) => pathname_of(line@) == Some(p@),
            None => pathname_of(line@) is None,
        },
{
    let mut pos: usize = 0;
    let mut n: usize = 0;
    assert(line@.skip(0) =~= line@);
    while n < 5
        invariant
            n <= 5,
            pos <= line.len(),
            skip_fields(line@, 5) == skip_fields(line@.skip(pos as int), (5 - n) as nat),
        decreases 5 - n,
    {
        let ghost rest = line@.skip(pos as int);
        let mut i = pos;
        while i < line.len() && !is_whitespace(line[i])
            invariant
                pos <= i <= line.len(),
                rest == line@.skip(pos as int),
                forall|j: int| pos <= j < i ==> !is_ws(line@[j]),
            decreases line.len() - i,
        {
            i += 1;
        }
        proof {
            lemma_first_ws_unique(rest, i - pos);
        }
        if i == pos || i >= line.len() {
            return None;
        }
        assert(rest.skip(i - pos + 1) =~= line@.skip(i + 1));
        pos = i + 1;
        n += 1;
    }
    let tail = slice_range(line, pos, line.len());
    assert(tail@ =~= line@.skip(pos as int));
    let (a, b) = trim_bounds(tail.as_slice());
    if a == b {
        None
    } else {
        Some(slice_range(tail.as_slice(), a, b))
    }
}

// ---------------------------------------------------------------------
// Classifying a mapped file.
// ---------------------------------------------------------------------

/// The lower-cased basename `classify` matches against.
pub open spec fn mapped_name(path: Seq<char>) -> Seq<char> {
    ascii_lower(
        match file_name(path) {
            Some(n) => n,
            None => path,
        },
    )
}

/// `g` with the libraries that a mapping of `path` reveals added.
pub open spec fn classify_spec(path: Seq<char>, g: GraphicsLibraries) -> GraphicsLibraries {
    let name = mapped_name(path);
    GraphicsLibraries {
        opengl: g.opengl || is_prefix_of("libgl.so"@, name) || is_prefix_of("libglx.so"@, name)
            || is_prefix_of("libegl.so"@, name),
        vulkan: g.vulkan || is_prefix_of("libvulkan.so"@, name),
        sdl: g.sdl || is_prefix_of("libsdl"@, name),
        directx_via_proton: g.directx_via_proton || contains_sub(name, "dxvk"@) || contains_sub(
            name,
            "vkd3d"@,
        ) || contains_sub(name, "wined3d"@) || name == "d3d8.dll"@ || name == "d3d9.dll"@
            || name == "d3d10.dll"@ || name == "d3d11.dll"@ || name == "d3d12.dll"@ || name
            == "dxgi.dll"@,
    }
}

/// Whether `s` starts with the literal `lit`.
fn starts_with_lit(s: &[char], lit: &str) -> (r: bool)
    ensures
        r == is_prefix_of(lit@, s@),
{
    let l = chars_of(lit);
    starts_with(s, l.as_slice())
}

/// Whether `s` contains the literal `lit`.
fn contains_lit(s: &[char], lit: &str) -> (r: bool)
    ensures
        r == contains_sub(s@, lit@),
{
    let l = chars_of(lit);
    contains_chars(s, l.as_slice())
}

/// Whether `s` equals the literal `lit`.
fn equals_lit(s: &[char], lit: &str) -> (r: bool)
    ensures
        r == (s@ == lit@),
{
    let l = chars_of(lit);
    chars_eq(s, l.as_slice())
}

/// Record in `g` the graphics stack that a mapping of `path` reveals.
pub fn classify(path: &[char], g: &mut GraphicsLibraries)
    ensures
        *final(g) == classify_spec(path@, *old(g)),
{
    let base = match file_name_chars(path) {
        Some(n) => n,
        None => slice_range(path, 0, path.len()),
    };
    assert(path@.subrange(0, path@.len() as int) =~= path@);
    let name = ascii_lower_chars(base.as_slice());
    let n = name.as_slice();
    if starts_with_lit(n, "libgl.so") || starts_with_lit(n, "libglx.so") || starts_with_lit(
        n,
        "libegl.so",
    ) {
        g.opengl = true;
    }
    if starts_with_lit(n, "libvulkan.so") {
        g.vulkan = true;
    }
    if starts_with_lit(n, "libsdl") {
        g.sdl = true;
    }
    if contains_lit(n, "dxvk") || contains_lit(n, "vkd3d") || contains_lit(n, "wined3d")
        || equals_lit(n, "d3d8.dll") || equals_lit(n, "d3d9.dll") || equals_lit(n, "d3d10.dll")
        || equals_lit(n, "d3d11.dll") || equals_lit(n, "d3d12.dll") || equals_lit(n, "dxgi.dll") {
        g.directx_via_proton = true;
    }
}

// ---------------------------------------------------------------------
// The whole document.
// ---------------------------------------------------------------------

/// `g` with the mapping on `line` (if it names a file) classified.
pub open spec fn scan_line(g: GraphicsLibraries, line: Seq<char>) -> GraphicsLibraries {
    match pathname_of(line) {
        Some(p) => classify_spec(p, g),
        None => g,
    }
}

/// The libraries a maps document reveals: every newline-separated line
/// scanned in order. (A trailing `\r` or a final empty line changes
/// nothing here, since both are blank after trimming.)
pub open spec fn maps_libraries(s: Seq<char>) -> GraphicsLibraries
    decreases s.len(),
{
    let j = last_index_of(s, '\n');
    if j < 0 {
        scan_line(no_libraries(), s)
    } else {
        proof {
            lemma_last_index_of(s, '\n');
        }
        scan_line(maps_libraries(s.take(j)), s.skip(j + 1))
    }
}

fn scan_line_exec(g: &mut GraphicsLibraries, line: &[char])
    ensures
        *final(g) == scan_line(*old(g), line@),
{
    if let Some(p) = pathname_column(line) {
        classify(p.as_slice(), g);
    }
}

/// Parse a `/proc/<pid>/maps` document into a detected-library summary.
pub fn parse(maps: &str) -> (r: GraphicsLibraries)
    ensures
        r == maps_libraries(maps@),
{
    let cs = chars_of(maps);
    let s = cs.as_slice();
    let mut g = GraphicsLibraries::default();
    let mut start: usize = 0;
    let mut i: usize = 0;
    while i < s.len()
        invariant
            start <= i <= s.len(),
            s@ == maps@,
            start > 0 ==> s@[start - 1] == '\n',
            forall|j: int| start <= j < i ==> s@[j] != '\n',
            g == (if start == 0 {
                no_libraries()
            } else {
                maps_libraries(s@.take(start - 1))
            }),
        decreases s.len() - i,
    {
        if s[i] == '\n' {
            let line = slice_range(s, start, i);
            proof {
                let t = s@.take(i as int);
                lemma_last_index_of_unique(t, '\n', start - 1);
                assert(t.skip(start as int) =~= line@);
                if start > 0 {
                    assert(t.take(start - 1) =~= s@.take(start - 1));
                } else {
                    assert(line@ =~= t);
                }
            }
            scan_line_exec(&mut g, line.as_slice());
            start = i + 1;
        }
        i += 1;
    }
    let line = slice_range(s, start, s.len());
    proof {
        let t = s@;
        lemma_last_index_of_unique(t, '\n', start - 1);
        assert(t.skip(start as int) =~= line@);
        if start == 0 {
            assert(line@ =~= t);
        }
    }
    scan_line_exec(&mut g, line.as_slice());
    g
}

// ---------------------------------------------------------------------
// Laws of the document scan.
// ---------------------------------------------------------------------

/// Field-wise `or` of two library sets.
pub open spec fn or_libraries(x: GraphicsLibraries, y: GraphicsLibraries) -> GraphicsLibraries {
    GraphicsLibraries {
        opengl: x.opengl || y.opengl,
        vulkan: x.vulkan || y.vulkan,
        sdl: x.sdl || y.sdl,
        directx_via_proton: x.directx_via_proton || y.directx_via_proton,
    }
}

/// Scanning a line only adds what the line reveals on its own.
proof fn lemma_scan_line_or(g: GraphicsLibraries, line: Seq<char>)
    ensures
        scan_line(g, line) == or_libraries(g, scan_line(no_libraries(), line)),
{
}

/// The empty document reveals nothing.
pub proof fn lemma_maps_empty()
    ensures
        maps_libraries(Seq::<char>::empty()) == no_libraries(),
{
    let e = Seq::<char>::empty();
    assert(last_index_of(e, '\n') == -1);
    assert(skip_fields(e, 5) is None);
}

/// A maps document split after a newline reveals what its two parts
/// reveal, field by field: the scan is line by line and only ever sets
/// flags.
pub proof fn lemma_maps_concat(a: Seq<char>, b: Seq<char>)
    requires
        a.len() == 0 || a.last() == '\n',
    ensures
        maps_libraries(a + b) == or_libraries(maps_libraries(a), maps_libraries(b)),
    decreases b.len(),
{
    lemma_last_index_of(b, '\n');
    let j = last_index_of(b, '\n');
    if a.len() == 0 {
        assert(a + b =~= b);
        lemma_maps_empty();
        assert(a =~= Seq::<char>::empty());
    } else {
        let ab = a + b;
        let n = a.len() as int;
        lemma_last_index_of_unique(a, '\n', n - 1);
        assert(a.skip(n) =~= Seq::<char>::empty());
        assert(skip_fields(Seq::<char>::empty(), 5) is None);
        assert(maps_libraries(a) == maps_libraries(a.take(n - 1)));
        if j < 0 {
            assert forall|k: int| n - 1 < k < ab.len() implies ab[k] != '\n' by {
                assert(ab[k] == b[k - n]);
            }
            assert(ab[n - 1] == a[n - 1]);
            lemma_last_index_of_unique(ab, '\n', n - 1);
            assert(ab.take(n - 1) =~= a.take(n - 1));
            assert(ab.skip(n) =~= b);
            lemma_scan_line_or(maps_libraries(a.take(n - 1)), b);
            assert(maps_libraries(b) == scan_line(no_libraries(), b));
        } else {
            assert forall|k: int| n + j < k < ab.len() implies ab[k] != '\n' by {
                assert(ab[k] == b[k - n]);
            }
            assert(ab[n + j] == b[j]);
            lemma_last_index_of_unique(ab, '\n', n + j);
            assert(ab.take(n + j) =~= a + b.take(j));
            assert(ab.skip(n + j + 1) =~= b.skip(j + 1));
            lemma_maps_concat(a, b.take(j));
            let line = b.skip(j + 1);
            lemma_scan_line_or(maps_libraries(a + b.take(j)), line);
            lemma_scan_line_or(maps_libraries(b.take(j)), line);
        }
    }
}

/// What a mapping reveals is decided by its lower-cased basename `name`
/// (the whole path where it has no basename): a name starting with
/// `libgl.so`, `libglx.so` or `libegl.so` marks OpenGL; `libvulkan.so`
/// marks Vulkan; `libsdl` marks SDL; a name containing `dxvk`, `vkd3d` or
/// `wined3d`, or equal to one of Wine's `d3d8.dll` .. `d3d12.dll` and
/// `dxgi.dll`, marks DirectX through Proton. Nothing else sets a flag, and
/// no flag that was already set is cleared.
pub proof fn lemma_classify_detects(path: Seq<char>, g: GraphicsLibraries, name: Seq<char>)
    requires
        name == ascii_lower(
            match file_name(path) {
                Some(b) => b,
                None => path,
            },
        ),
    ensures
        is_prefix_of("libgl.so"@, name) ==> classify_spec(path, g).opengl,
        is_prefix_of("libglx.so"@, name) ==> classify_spec(path, g).opengl,
        is_prefix_of("libegl.so"@, name) ==> classify_spec(path, g).opengl,
        is_prefix_of("libvulkan.so"@, name) ==> classify_spec(path, g).vulkan,
        is_prefix_of("libsdl"@, name) ==> classify_spec(path, g).sdl,
        contains_sub(name, "dxvk"@) ==> classify_spec(path, g).directx_via_proton,
        contains_sub(name, "vkd3d"@) ==> classify_spec(path, g).directx_via_proton,
        contains_sub(name, "wined3d"@) ==> classify_spec(path, g).directx_via_proton,
        name == "d3d8.dll"@ ==> classify_spec(path, g).directx_via_proton,
        name == "d3d9.dll"@ ==> classify_spec(path, g).directx_via_proton,
        name == "d3d10.dll"@ ==> classify_spec(path, g).directx_via_proton,
        name == "d3d11.dll"@ ==> classify_spec(path, g).directx_via_proton,
        name == "d3d12.dll"@ ==> classify_spec(path, g).directx_via_proton,
        name == "dxgi.dll"@ ==> classify_spec(path, g).directx_via_proton,
        classify_spec(path, g).opengl ==> g.opengl || is_prefix_of("libgl.so"@, name)
            || is_prefix_of("libglx.so"@, name) || is_prefix_of("libegl.so"@, name),
        classify_spec(path, g).vulkan ==> g.vulkan || is_prefix_of("libvulkan.so"@, name),
        classify_spec(path, g).sdl ==> g.sdl || is_prefix_of("libsdl"@, name),
        classify_spec(path, g).directx_via_proton ==> g.directx_via_proton || contains_sub(
            name,
            "dxvk"@,
        ) || contains_sub(name, "vkd3d"@) || contains_sub(name, "wined3d"@) || name == "d3d8.dll"@
            || name == "d3d9.dll"@ || name == "d3d10.dll"@ || name == "d3d11.dll"@ || name
            == "d3d12.dll"@ || name == "dxgi.dll"@,
        g.opengl ==> classify_spec(path, g).opengl,
        g.vulkan ==> classify_spec(path, g).vulkan,
        g.sdl ==> classify_spec(path, g).sdl,
        g.directx_via_proton ==> classify_spec(path, g).directx_via_proton,
{
}

/// A document of one mapping line reveals what its pathname's basename
/// marks: in particular a line mapping a file whose lower-cased basename
/// starts with `libegl.so` (or `libgl.so`, `libglx.so`) reveals OpenGL.
pub proof fn lemma_line_reveals_opengl(line: Seq<char>, p: Seq<char>, name: Seq<char>)
    requires
        !line.contains('\n'),
        pathname_of(line) == Some(p),
        name == ascii_lower(
            match file_name(p) {
                Some(b) => b,
                None => p,
            },
        ),
        is_prefix_of("libgl.so"@, name) || is_prefix_of("libglx.so"@, name) || is_prefix_of(
            "libegl.so"@,
            name,
        ),
    ensures
        maps_libraries(line).opengl,
{
    lemma_last_index_of(line, '\n');
    if last_index_of(line, '\n') >= 0 {
        assert(line[last_index_of(line, '\n')] == '\n');
    }
}

} // verus!
