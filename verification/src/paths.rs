//! Unix paths as `std::path::Path` reads them: joining, and comparison
//! by components.
//!
//! A path's components are a root (`/` at the start), a current-directory
//! marker (a relative path that starts with `.`), and the normal parts
//! between separators. Repeated separators, a trailing separator and `.`
//! parts after the start do not count, so `/a//b/`, `/a/./b` and `/a/b`
//! are the same path.

use vstd::prelude::*;
use crate::text::{
    ascii_lower, ascii_lower_chars, chars_eq, chars_of, file_name, file_name_chars, last_index_of,
    lemma_last_index_of, rfind_char, string_of_chars,
};

verus! {

broadcast use vstd::string::group_string_axioms;

/// A component of a path.
pub enum Component {
    /// The root directory, `/` at the start of an absolute path.
    Root,
    /// `.` at the start of a relative path.
    Cur,
    /// A part between separators, neither empty nor `.`.
    Normal(Seq<char>),
}

/// Parts read so far and the part being read.
pub open spec fn part_scan(s: Seq<char>) -> (Seq<Seq<char>>, Seq<char>)
    decreases s.len(),
{
    if s.len() == 0 {
        (seq![], seq![])
    } else {
        let (done, cur) = part_scan(s.drop_last());
        if s.last() == '/' {
            (flush(done, cur), seq![])
        } else {
            (done, cur.push(s.last()))
        }
    }
}

/// `done` with `cur` appended when it is a normal part.
pub open spec fn flush(done: Seq<Seq<char>>, cur: Seq<char>) -> Seq<Seq<char>> {
    if cur.len() == 0 || cur == seq!['.'] {
        done
    } else {
        done.push(cur)
    }
}

/// The normal parts of `s`, in order.
pub open spec fn normal_parts(s: Seq<char>) -> Seq<Seq<char>> {
    flush(part_scan(s).0, part_scan(s).1)
}

/// `s` is absolute.
pub open spec fn has_root(s: Seq<char>) -> bool {
    s.len() > 0 && s[0] == '/'
}

/// `s` is relative and starts with a `.` part.
pub open spec fn has_cur(s: Seq<char>) -> bool {
    s.len() > 0 && s[0] == '.' && (s.len() == 1 || s[1] == '/')
}

/// The leading component of `s`, if it has a root or a `.` start.
pub open spec fn lead_of(s: Seq<char>) -> Seq<Component> {
    if has_root(s) {
        seq![Component::Root]
    } else if has_cur(s) {
        seq![Component::Cur]
    } else {
        seq![]
    }
}

/// The normal parts as components.
pub open spec fn normals(parts: Seq<Seq<char>>) -> Seq<Component> {
    parts.map_values(|p: Seq<char>| Component::Normal(p))
}

/// The components of `s`, in order.
pub open spec fn components(s: Seq<char>) -> Seq<Component> {
    lead_of(s) + normals(normal_parts(s))
}

/// `Path::starts_with`: the components of `base` begin those of `p`.
pub open spec fn path_starts_with(p: Seq<char>, base: Seq<char>) -> bool {
    components(base).len() <= components(p).len() && components(p).take(
        components(base).len() as int,
    ) == components(base)
}

/// `Path` equality: the same components.
pub open spec fn same_path(a: Seq<char>, b: Seq<char>) -> bool {
    components(a) == components(b)
}

/// `PathBuf::push`/`Path::join` of `rel` onto `base`: an absolute `rel`
/// replaces `base`; otherwise a separator is put between them unless
/// `base` is empty or already ends in one.
pub open spec fn join_path(base: Seq<char>, rel: Seq<char>) -> Seq<char> {
    if has_root(rel) {
        rel
    } else if base.len() == 0 || base.last() == '/' {
        base + rel
    } else {
        base + seq!['/'] + rel
    }
}

/// The normal parts of `s`, computed.
fn parts_of(s: &[char]) -> (r: Vec<Vec<char>>)
    ensures
        r@.map_values(|p: Vec<char>| p@) == normal_parts(s@),
{
    let mut done: Vec<Vec<char>> = Vec::new();
    let mut cur: Vec<char> = Vec::new();
    let mut i: usize = 0;
    while i < s.len()
        invariant
            i <= s@.len(),
            done@.map_values(|p: Vec<char>| p@) == part_scan(s@.take(i as int)).0,
            cur@ == part_scan(s@.take(i as int)).1,
        decreases s.len() - i,
    {
        proof {
            assert(s@.take(i + 1).drop_last() =~= s@.take(i as int));
        }
        let c = s[i];
        if c == '/' {
            let ghost before = done@;
            let dot = cur.len() == 1 && cur[0] == '.';
            if cur.len() > 0 && !dot {
                done.push(cur);
                assert(done@.map_values(|p: Vec<char>| p@) =~= before.map_values(
                    |p: Vec<char>| p@,
                ).push(done@.last()@));
            }
            proof {
                let pc = part_scan(s@.take(i as int)).1;
                if pc.len() == 1 && pc[0] == '.' {
                    assert(pc =~= seq!['.']);
                }
            }
            cur = Vec::new();
        } else {
            cur.push(c);
        }
        i += 1;
    }
    assert(s@.take(i as int) =~= s@);
    let ghost before = done@;
    let dot = cur.len() == 1 && cur[0] == '.';
    proof {
        let pc = part_scan(s@).1;
        if pc.len() == 1 && pc[0] == '.' {
            assert(pc =~= seq!['.']);
        }
    }
    if cur.len() > 0 && !dot {
        done.push(cur);
        assert(done@.map_values(|p: Vec<char>| p@) =~= before.map_values(|p: Vec<char>| p@).push(
            done@.last()@,
        ));
    }
    done
}

/// The components of `s`, as `(root, current-directory marker, normal
/// parts)`.
fn comps_of(s: &str) -> (r: (bool, bool, Vec<Vec<char>>))
    ensures
        r.0 == has_root(s@),
        r.1 == (!has_root(s@) && has_cur(s@)),
        r.2@.map_values(|p: Vec<char>| p@) == normal_parts(s@),
{
    let cs = chars_of(s);
    let root = cs.len() > 0 && cs[0] == '/';
    let cur = !root && cs.len() > 0 && cs[0] == '.' && (cs.len() == 1 || cs[1] == '/');
    (root, cur, parts_of(cs.as_slice()))
}

/// Whether the parts `a` begin the parts `b`.
fn parts_prefix(a: &Vec<Vec<char>>, b: &Vec<Vec<char>>) -> (r: bool)
    ensures
        r == (a@.len() <= b@.len() && forall|j: int| 0 <= j < a@.len() ==> a@[j]@ == b@[j]@),
{
    if a.len() > b.len() {
        return false;
    }
    let mut j: usize = 0;
    while j < a.len()
        invariant
            j <= a@.len() <= b@.len(),
            forall|k: int| 0 <= k < j ==> a@[k]@ == b@[k]@,
        decreases a.len() - j,
    {
        if !chars_eq(a[j].as_slice(), b[j].as_slice()) {
            return false;
        }
        j += 1;
    }
    true
}

/// `Path::starts_with`, by components.
pub fn starts_with_path(p: &str, base: &str) -> (r: bool)
    ensures
        r == path_starts_with(p@, base@),
{
    let (pr, pc, pp) = comps_of(p);
    let (br, bc, bp) = comps_of(base);
    let ghost cp = components(p@);
    let ghost cb = components(base@);
    let ghost np = normal_parts(p@);
    let ghost nb = normal_parts(base@);
    assert(forall|j: int| 0 <= j < pp@.len() ==> pp@[j]@ == #[trigger] np[j]);
    assert(forall|j: int| 0 <= j < bp@.len() ==> bp@[j]@ == #[trigger] nb[j]);
    if br != pr || bc != pc {
        let r = cb_len_zero(br, bc, &bp);
        proof {
            if r {
                assert(cp.take(0) =~= cb);
            } else if cb.len() <= cp.len() && cp.take(cb.len() as int) == cb {
                assert(cp.take(cb.len() as int)[0] == cp[0]);
                assert(cp[0] == cb[0]);
                if lead_of(base@).len() == 0 {
                    assert(cb[0] == normals(nb)[0]);
                }
                if lead_of(p@).len() == 0 {
                    assert(cp[0] == normals(np)[0]);
                }
            }
        }
        return r;
    }
    let r = parts_prefix(&bp, &pp);
    proof {
        let lp = lead_of(p@);
        assert(lead_of(base@) == lp);
        let off = lp.len() as int;
        if r {
            assert forall|j: int| 0 <= j < cb.len() implies cp.take(cb.len() as int)[j] == cb[j] by {
                if j >= off {
                    assert(cb[j] == normals(nb)[j - off]);
                    assert(cp[j] == normals(np)[j - off]);
                }
            }
            assert(cp.take(cb.len() as int) =~= cb);
        } else if cb.len() <= cp.len() && cp.take(cb.len() as int) == cb {
            assert forall|j: int| 0 <= j < bp@.len() implies bp@[j]@ == pp@[j]@ by {
                assert(cb[j + off] == normals(nb)[j]);
                assert(cp.take(cb.len() as int)[j + off] == cp[j + off]);
                assert(cp[j + off] == normals(np)[j]);
            }
        }
    }
    r
}

/// Whether a path with these leading flags and parts has no components.
fn cb_len_zero(root: bool, cur: bool, parts: &Vec<Vec<char>>) -> (r: bool)
    ensures
        r == (!root && !cur && parts@.len() == 0),
{
    !root && !cur && parts.len() == 0
}

/// `Path` equality, by components.
pub fn paths_equal(a: &str, b: &str) -> (r: bool)
    ensures
        r == same_path(a@, b@),
{
    let ab = starts_with_path(a, b);
    let ba = starts_with_path(b, a);
    proof {
        let ca = components(a@);
        let cb = components(b@);
        if ab && ba {
            assert(ca.len() == cb.len());
            assert(ca =~= cb) by {
                assert(ca.take(cb.len() as int) =~= ca);
            }
        }
        if ca == cb {
            assert(ca.take(cb.len() as int) =~= ca);
        }
    }
    ab && ba
}

/// `Path::join` of `rel` onto `base`.
pub fn join(base: &str, rel: &str) -> (r: String)
    ensures
        r@ == join_path(base@, rel@),
{
    let b = chars_of(base);
    let rl = chars_of(rel);
    if rl.len() > 0 && rl[0] == '/' {
        return rel.to_owned();
    }
    let mut out = b.clone();
    if b.len() > 0 && b[b.len() - 1] != '/' {
        out.push('/');
    }
    let mut i: usize = 0;
    let ghost start = out@;
    while i < rl.len()
        invariant
            i <= rl@.len(),
            out@ == start + rl@.take(i as int),
        decreases rl.len() - i,
    {
        out.push(rl[i]);
        i += 1;
        assert(out@ =~= start + rl@.take(i as int));
    }
    assert(rl@.take(i as int) =~= rl@);
    proof {
        if b@.len() > 0 && b@.last() != '/' {
            assert(out@ =~= b@ + seq!['/'] + rl@);
        } else {
            assert(out@ =~= b@ + rl@);
        }
    }
    string_of_chars(&out)
}

/// `Path::extension`: what follows the last `.` of the file name, when
/// that dot is not its first character.
pub open spec fn extension(s: Seq<char>) -> Option<Seq<char>> {
    match file_name(s) {
        Some(f) => {
            let d = last_index_of(f, '.');
            if d <= 0 {
                None
            } else {
                Some(f.skip(d + 1))
            }
        },
        None => None,
    }
}

/// Whether the extension of `path` is `ext_lower` (lowercase ASCII),
/// ignoring ASCII case (`eq_ignore_ascii_case`).
pub open spec fn has_extension_ci(path: Seq<char>, ext_lower: Seq<char>) -> bool {
    extension(path) is Some && ascii_lower(extension(path)->0) == ext_lower
}

/// The extension of `path`.
pub fn extension_of(path: &str) -> (r: Option<Vec<char>>)
    ensures
        match r {
            Some(e) => extension(path@) == Some(e@),
            None => extension(path@) is None,
        },
{
    let cs = chars_of(path);
    let f = match file_name_chars(cs.as_slice()) {
        Some(f) => f,
        None => return None,
    };
    match rfind_char(f.as_slice(), '.') {
        Some(d) => {
            if d == 0 {
                return None;
            }
            proof {
                lemma_last_index_of(f@, '.');
            }
            let mut out: Vec<char> = Vec::new();
            let mut i = d + 1;
            while i < f.len()
                invariant
                    d < f@.len(),
                    d + 1 <= i <= f@.len(),
                    out@ == f@.subrange(d + 1, i as int),
                decreases f.len() - i,
            {
                out.push(f[i]);
                i += 1;
                assert(out@ =~= f@.subrange(d + 1, i as int));
            }
            assert(out@ =~= f@.skip(d + 1));
            Some(out)
        },
        None => None,
    }
}

/// Whether the extension of `path` is `ext_lower`, ignoring ASCII case.
pub fn extension_is(path: &str, ext_lower: &str) -> (r: bool)
    ensures
        r == has_extension_ci(path@, ext_lower@),
{
    match extension_of(path) {
        Some(e) => {
            let l = ascii_lower_chars(e.as_slice());
            let x = chars_of(ext_lower);
            chars_eq(l.as_slice(), x.as_slice())
        },
        None => false,
    }
}

/// The parts of normal components joined with `/`.
pub open spec fn join_normals(parts: Seq<Seq<char>>) -> Seq<char>
    decreases parts.len(),
{
    if parts.len() == 0 {
        seq![]
    } else if parts.len() == 1 {
        parts[0]
    } else {
        join_normals(parts.drop_last()) + seq!['/'] + parts.last()
    }
}

/// A path written from its leading markers and normal parts.
pub open spec fn render(root: bool, cur: bool, parts: Seq<Seq<char>>) -> Seq<char> {
    if root {
        seq!['/'] + join_normals(parts)
    } else if cur {
        if parts.len() == 0 {
            seq!['.']
        } else {
            seq!['.', '/'] + join_normals(parts)
        }
    } else {
        join_normals(parts)
    }
}

/// `Path::parent` on the components `(root, cur, parts)`: the last
/// component dropped, `None` when there is none or it is the root.
pub open spec fn parent_of(root: bool, cur: bool, parts: Seq<Seq<char>>) -> Option<(bool, bool, Seq<Seq<char>>)> {
    if parts.len() > 0 {
        Some((root, cur, parts.drop_last()))
    } else if cur {
        Some((false, false, seq![]))
    } else {
        None
    }
}

/// Up to `n` successive parents of `(root, cur, parts)`, nearest first,
/// written as paths; the walk stops where there is no parent.
pub open spec fn ancestor_dirs(root: bool, cur: bool, parts: Seq<Seq<char>>, n: nat) -> Seq<Seq<char>>
    decreases n,
{
    if n == 0 {
        seq![]
    } else {
        match parent_of(root, cur, parts) {
            Some((r, c, p)) => seq![render(r, c, p)] + ancestor_dirs(r, c, p, (n - 1) as nat),
            None => seq![],
        }
    }
}

/// The parts joined with `/`, computed.
fn join_parts(parts: &Vec<Vec<char>>) -> (r: Vec<char>)
    ensures
        r@ == join_normals(parts@.map_values(|p: Vec<char>| p@)),
{
    let ghost pv = parts@.map_values(|p: Vec<char>| p@);
    let mut out: Vec<char> = Vec::new();
    let mut i: usize = 0;
    while i < parts.len()
        invariant
            i <= parts@.len(),
            pv == parts@.map_values(|p: Vec<char>| p@),
            out@ == join_normals(pv.take(i as int)),
        decreases parts.len() - i,
    {
        assert(pv.take(i + 1).drop_last() =~= pv.take(i as int));
        let ghost before = out@;
        if i > 0 {
            out.push('/');
        }
        let mut k: usize = 0;
        let ghost mid = out@;
        while k < parts[i].len()
            invariant
                i < parts@.len(),
                k <= parts@[i as int]@.len(),
                out@ == mid + parts@[i as int]@.take(k as int),
            decreases parts@[i as int]@.len() - k,
        {
            out.push(parts[i][k]);
            k += 1;
            assert(out@ =~= mid + parts@[i as int]@.take(k as int));
        }
        assert(parts@[i as int]@.take(k as int) =~= parts@[i as int]@);
        proof {
            if i == 0 {
                assert(pv.take(1) =~= seq![pv[0]]);
                assert(out@ =~= pv[0]);
            } else {
                assert(out@ =~= before + seq!['/'] + pv[i as int]);
            }
        }
        i += 1;
    }
    assert(pv.take(i as int) =~= pv);
    out
}

/// A path written from its components.
fn render_path(root: bool, cur: bool, parts: &Vec<Vec<char>>) -> (r: String)
    ensures
        r@ == render(root, cur, parts@.map_values(|p: Vec<char>| p@)),
{
    let body = join_parts(parts);
    let mut out: Vec<char> = Vec::new();
    if root {
        out.push('/');
    } else if cur {
        out.push('.');
        if parts.len() > 0 {
            out.push('/');
        }
    }
    let ghost lead = out@;
    let mut i: usize = 0;
    while i < body.len()
        invariant
            i <= body@.len(),
            out@ == lead + body@.take(i as int),
        decreases body.len() - i,
    {
        out.push(body[i]);
        i += 1;
        assert(out@ =~= lead + body@.take(i as int));
    }
    assert(body@.take(i as int) =~= body@);
    proof {
        if !root && !cur {
            assert(out@ =~= body@);
        } else if !root && cur && parts@.len() == 0 {
            assert(parts@.map_values(|p: Vec<char>| p@).len() == 0);
            assert(body@.len() == 0);
            assert(out@ =~= seq!['.']);
        }
    }
    string_of_chars(&out)
}

/// The first `n` ancestor directories of `path`, nearest first (the
/// directory holding it, then its parent, ...), stopping at the root.
pub fn ancestor_directories(path: &str, n: usize) -> (r: Vec<String>)
    ensures
        r@.map_values(|s: String| s@) == ancestor_dirs(
            has_root(path@),
            !has_root(path@) && has_cur(path@),
            normal_parts(path@),
            n as nat,
        ),
{
    let (root0, cur0, parts0) = comps_of(path);
    let mut root = root0;
    let mut cur = cur0;
    let mut parts = parts0;
    let mut out: Vec<String> = Vec::new();
    let mut k: usize = 0;
    let ghost whole = ancestor_dirs(root0, cur0, normal_parts(path@), n as nat);
    while k < n
        invariant
            k <= n,
            whole == ancestor_dirs(
                has_root(path@),
                !has_root(path@) && has_cur(path@),
                normal_parts(path@),
                n as nat,
            ),
            out@.map_values(|s: String| s@) + ancestor_dirs(
                root,
                cur,
                parts@.map_values(|p: Vec<char>| p@),
                (n - k) as nat,
            ) == whole,
        decreases n - k,
    {
        let ghost pv = parts@.map_values(|p: Vec<char>| p@);
        let ghost r0 = root;
        let ghost c0 = cur;
        if parts.len() > 0 {
            parts.pop();
            assert(parts@.map_values(|p: Vec<char>| p@) =~= pv.drop_last());
        } else if cur {
            root = false;
            cur = false;
            parts = Vec::new();
            assert(parts@.map_values(|p: Vec<char>| p@) =~= Seq::<Seq<char>>::empty());
        } else {
            assert(ancestor_dirs(root, cur, pv, (n - k) as nat) =~= Seq::<Seq<char>>::empty());
            assert(out@.map_values(|s: String| s@) + Seq::<Seq<char>>::empty() =~= out@.map_values(
                |s: String| s@,
            ));
            return out;
        }
        let ghost nv = parts@.map_values(|p: Vec<char>| p@);
        assert(parent_of(r0, c0, pv) == Some((root, cur, nv)));
        let d = render_path(root, cur, &parts);
        let ghost before = out@.map_values(|s: String| s@);
        let ghost rest = ancestor_dirs(root, cur, nv, (n - k - 1) as nat);
        assert(ancestor_dirs(r0, c0, pv, (n - k) as nat) == seq![d@] + rest);
        out.push(d);
        assert(out@.map_values(|s: String| s@) =~= before.push(d@));
        assert(before.push(d@) + rest =~= before + (seq![d@] + rest));
        k += 1;
    }
    assert(out@.map_values(|s: String| s@) + Seq::<Seq<char>>::empty() =~= out@.map_values(|s: String| s@));
    out
}

/// Some path of `dirs` is the same path as `p`.
pub open spec fn has_same_path(dirs: Seq<Seq<char>>, p: Seq<char>) -> bool {
    exists|i: int| 0 <= i < dirs.len() && same_path(#[trigger] dirs[i], p)
}

/// `dirs` with `p` appended unless the same path is already there.
pub open spec fn with_new_path(dirs: Seq<Seq<char>>, p: Seq<char>) -> Seq<Seq<char>> {
    if has_same_path(dirs, p) {
        dirs
    } else {
        dirs.push(p)
    }
}

/// Append `p` to `dirs` unless the same path is already there
/// (`if !dirs.contains(&p) { dirs.push(p) }` on `PathBuf`s).
pub fn push_new_path(dirs: &mut Vec<String>, p: String)
    ensures
        final(dirs)@.map_values(|s: String| s@) == with_new_path(
            old(dirs)@.map_values(|s: String| s@),
            p@,
        ),
{
    let ghost dv = dirs@.map_values(|s: String| s@);
    let mut seen = false;
    let mut j: usize = 0;
    while j < dirs.len()
        invariant
            j <= dirs@.len(),
            dv == dirs@.map_values(|s: String| s@),
            seen == (exists|k: int| 0 <= k < j && same_path(#[trigger] dv[k], p@)),
        decreases dirs.len() - j,
    {
        if paths_equal(dirs[j].as_str(), p.as_str()) {
            assert(same_path(dv[j as int], p@));
            seen = true;
        }
        j += 1;
    }
    if !seen {
        dirs.push(p);
        assert(dirs@.map_values(|s: String| s@) =~= dv.push(p@));
    }
}

} // verus!
