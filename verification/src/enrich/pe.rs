//! The PE `FileVersionInfo` enricher.
//!
//! A Proton or Wine game's executable is a Windows PE that still carries
//! its `VS_VERSIONINFO` resource, which `pelite` parses natively. The
//! English (US) string table is preferred, else the first listed;
//! `ProductName` (else `FileDescription`) gives the product name,
//! `CompanyName` the publisher, `ProductVersion` (else `FileVersion`) the
//! version. A 64-bit image is tried first, then a 32-bit one.

use vstd::prelude::*;
use pelite::pe32::{Pe as Pe32, PeFile as PeFile32};
use pelite::pe64::{Pe as Pe64, PeFile as PeFile64};
use pelite::resources::version_info::VersionInfo;
use pelite::resources::Name;
use crate::enrich::identity::{no_identity, text_view, IdentityUpdate, IdentityView};
use crate::paths::{extension_is, has_extension_ci};
use crate::text::{chars_of, copy_string, string_of_chars, trim, trim_chars};

verus! {

broadcast use vstd::string::group_string_axioms;

/// Largest executable read, in bytes; larger files are skipped.
pub const MAX_PE_READ_BYTES: u64 = 67108864;

/// Whether a file of `len` bytes is too large to read.
pub fn too_large(len: u64) -> (r: bool)
    ensures
        r == (len > MAX_PE_READ_BYTES),
{
    len > MAX_PE_READ_BYTES
}

/// Whether `path` ends in `.exe`, in any ASCII case.
pub fn is_exe_path(path: &str) -> (r: bool)
    ensures
        r == has_extension_ci(path@, "exe"@),
{
    extension_is(path, "exe")
}

/// The bytes of the version resource (type `VERSION`, id 1, first
/// language) of `bytes` read as a 64-bit PE by `pelite` from a buffer
/// that starts on a 4-byte boundary, or `None` when there is none.
pub uninterp spec fn pe64_version_resource(bytes: Seq<u8>) -> Option<Seq<u8>>;

/// As [`pe64_version_resource`], for a 32-bit PE.
pub uninterp spec fn pe32_version_resource(bytes: Seq<u8>) -> Option<Seq<u8>>;

/// The version information `pelite` reads from the resource bytes `res`
/// (in a buffer that starts on a 4-byte boundary): one row per entry of
/// its `translation()`, in order, holding the translation's
/// `(lang_id, charset_id)` and, for each of `keys`, what `value` gives.
pub uninterp spec fn version_table(res: Seq<u8>, keys: Seq<Seq<char>>) -> Seq<((u16, u16), Seq<Option<Seq<char>>>)>;

/// `pelite::pe64::PeFile::from_bytes`, `resources()`, then
/// `find_resource(&[Name::VERSION, Name::Id(1)])`, copied out.
/// `from_bytes` refuses a buffer that does not start on a 4-byte
/// boundary, and past that check every alignment test on this path is on
/// offsets: the result is `None` or what [`pe64_version_resource`] names.
/// Which of the two comes back where the name is `Some` depends on where
/// the buffer lies, and is not stated.
#[verifier::external_body]
fn read_pe64_version_resource(bytes: &[u8]) -> (r: Option<Vec<u8>>)
    ensures
        r matches Some(v) ==> pe64_version_resource(bytes@) == Some(v@),
        pe64_version_resource(bytes@) is None ==> r is None,
{
    let pe = PeFile64::from_bytes(bytes).ok()?;
    let res = pe.resources().ok()?;
    res.find_resource(&[Name::VERSION, Name::Id(1)]).ok().map(|b| b.to_vec())
}

/// As [`read_pe64_version_resource`], with `pelite::pe32`.
#[verifier::external_body]
fn read_pe32_version_resource(bytes: &[u8]) -> (r: Option<Vec<u8>>)
    ensures
        r matches Some(v) ==> pe32_version_resource(bytes@) == Some(v@),
        pe32_version_resource(bytes@) is None ==> r is None,
{
    let pe = PeFile32::from_bytes(bytes).ok()?;
    let res = pe.resources().ok()?;
    res.find_resource(&[Name::VERSION, Name::Id(1)]).ok().map(|b| b.to_vec())
}

/// The view of a version table as read.
pub open spec fn table_view(t: Seq<((u16, u16), Vec<Option<String>>)>) -> Seq<((u16, u16), Seq<Option<Seq<char>>>)> {
    t.map_values(
        |e: ((u16, u16), Vec<Option<String>>)| (e.0, e.1@.map_values(|o: Option<String>| text_view(o))),
    )
}

/// `VersionInfo::try_from(res)`, then `translation()` and, for each
/// translation, `value(lang, key)` for each of `keys`. `try_from` fails
/// only when `res` does not start on a 4-byte boundary, and the rest reads
/// the words alone: the result is `None` or [`version_table`] of the
/// arguments, each row holding one value per key. `requires`: `pelite`'s
/// TLV parser panics on a block whose one-word-short key ends exactly at
/// the block's end; [`version_words_safe`] rules that shape out.
#[verifier::external_body]
fn read_version_table(res: &[u8], keys: &Vec<String>) -> (r: Option<Vec<((u16, u16), Vec<Option<String>>)>>)
    requires
        version_words_safe(res@),
    ensures
        r matches Some(t) ==> table_view(t@) == version_table(res@, keys@.map_values(|k: String| k@))
            && forall|i: int| 0 <= i < t@.len() ==> (#[trigger] t@[i]).1@.len() == keys@.len(),
{
    let vi = VersionInfo::try_from(res).ok()?;
    let langs = vi.translation();
    Some(langs.iter().map(|l| ((l.lang_id, l.charset_id), keys.iter().map(|k| vi.value(*l, k)).collect())).collect())
}

/// The `lang_id` of English (United States).
pub const LANG_EN_US: u16 = 0x0409;

/// Index of the first English (US) translation, or `t.len()`.
pub open spec fn first_en_us(t: Seq<(u16, u16)>) -> int
    decreases t.len(),
{
    if t.len() == 0 {
        0
    } else if t[0].0 == LANG_EN_US {
        0
    } else {
        1 + first_en_us(t.drop_first())
    }
}

/// The translation read: the first English (US) one, else the first.
pub open spec fn chosen_language(t: Seq<(u16, u16)>) -> Option<(u16, u16)> {
    if first_en_us(t) < t.len() {
        Some(t[first_en_us(t)])
    } else if t.len() > 0 {
        Some(t[0])
    } else {
        None
    }
}

/// Pick the translation to read.
pub fn pick_language(t: &[(u16, u16)]) -> (r: Option<(u16, u16)>)
    ensures
        r == chosen_language(t@),
{
    let mut i: usize = 0;
    assert(t@.skip(0) =~= t@);
    while i < t.len()
        invariant
            i <= t@.len(),
            first_en_us(t@) == i + first_en_us(t@.skip(i as int)),
        decreases t.len() - i,
    {
        assert(t@.skip(i as int)[0] == t@[i as int]);
        if t[i].0 == LANG_EN_US {
            return Some(t[i]);
        }
        assert(t@.skip(i as int).drop_first() =~= t@.skip(i + 1));
        i += 1;
    }
    if t.len() > 0 {
        Some(t[0])
    } else {
        None
    }
}

/// `s` trimmed, when that is not empty.
pub open spec fn non_empty_of(s: Seq<char>) -> Option<Seq<char>> {
    if trim(s).len() > 0 {
        Some(trim(s))
    } else {
        None
    }
}

/// `s` trimmed, or `None` when nothing is left.
pub fn non_empty(s: &str) -> (r: Option<String>)
    ensures
        text_view(r) == non_empty_of(s@),
{
    let c = chars_of(s);
    let t = trim_chars(c.as_slice());
    if t.len() == 0 {
        None
    } else {
        Some(string_of_chars(&t))
    }
}

/// [`non_empty`] of an optional string.
fn non_empty_opt(s: Option<String>) -> (r: Option<String>)
    ensures
        text_view(r) == match s {
            Some(v) => non_empty_of(v@),
            None => None,
        },
{
    match s {
        Some(v) => non_empty(v.as_str()),
        None => None,
    }
}

/// The patch the version strings give, each already reduced to its
/// non-empty trimmed form: product name else description, publisher,
/// product version else file version; `None` when all are missing.
pub open spec fn version_patch(
    product_name: Option<Seq<char>>,
    file_description: Option<Seq<char>>,
    company: Option<Seq<char>>,
    product_version: Option<Seq<char>>,
    file_version: Option<Seq<char>>,
) -> Option<IdentityView> {
    let name = if product_name is Some {
        product_name
    } else {
        file_description
    };
    let version = if product_version is Some {
        product_version
    } else {
        file_version
    };
    if name is None && company is None && version is None {
        None
    } else {
        Some(IdentityView { product_name: name, publisher: company, version, ..no_identity() })
    }
}

/// The patch from the version strings.
pub fn identity_from_strings(
    product_name: Option<String>,
    file_description: Option<String>,
    company: Option<String>,
    product_version: Option<String>,
    file_version: Option<String>,
) -> (r: Option<IdentityUpdate>)
    ensures
        match r {
            Some(u) => version_patch(
                text_view(product_name),
                text_view(file_description),
                text_view(company),
                text_view(product_version),
                text_view(file_version),
            ) == Some(u@),
            None => version_patch(
                text_view(product_name),
                text_view(file_description),
                text_view(company),
                text_view(product_version),
                text_view(file_version),
            ) is None,
        },
{
    let name = match product_name {
        Some(n) => Some(n),
        None => file_description,
    };
    let version = match product_version {
        Some(v) => Some(v),
        None => file_version,
    };
    if name.is_none() && company.is_none() && version.is_none() {
        return None;
    }
    let mut u = IdentityUpdate::default();
    u.product_name = name;
    u.publisher = company;
    u.version = version;
    Some(u)
}

/// An optional version string reduced to its non-empty trimmed form.
pub open spec fn reduced(v: Option<Seq<char>>) -> Option<Seq<char>> {
    match v {
        Some(s) => non_empty_of(s),
        None => None,
    }
}

// ---------------------------------------------------------------------
// Resources the version parser can read without panicking.
// ---------------------------------------------------------------------

/// Word `i` of `res`, little- or big-endian.
pub open spec fn res_word(res: Seq<u8>, i: int, little: bool) -> int {
    if little {
        res[2 * i] as int + 256 * (res[2 * i + 1] as int)
    } else {
        256 * (res[2 * i] as int) + res[2 * i + 1] as int
    }
}

/// The length, in words, a TLV block starting at word `p` gives itself:
/// half its first word, at least four.
pub open spec fn tlv_len(res: Seq<u8>, p: int, little: bool) -> int {
    if res_word(res, p, little) / 2 > 4 {
        res_word(res, p, little) / 2
    } else {
        4
    }
}

/// The shape `pelite`'s TLV parser panics on, at an even word `p`: a
/// block that fits in the words, of odd length, whose key (from word 3)
/// runs to the block's last word and ends there with its nul.
pub open spec fn panics_at(res: Seq<u8>, p: int, little: bool) -> bool {
    let l = tlv_len(res, p, little);
    &&& p % 2 == 0
    &&& p + l <= res.len() / 2
    &&& l % 2 == 1
    &&& res_word(res, p + l - 1, little) == 0
    &&& forall|j: int| p + 3 <= j < p + l - 1 ==> res_word(res, j, little) != 0
}

/// No even word of `res`, in either byte order, starts that shape. Every
/// block the parser reads starts at an even word of `res` (siblings and
/// children begin at offsets rounded up to two words) and ends within it,
/// so the parser never panics on such a resource; a resource with the
/// shape at a word the parser never reaches is refused as well.
pub open spec fn version_words_safe(res: Seq<u8>) -> bool {
    forall|p: int, little: bool| 0 <= p < res.len() / 2 ==> !#[trigger] panics_at(res, p, little)
}

/// The words of `res` in one byte order.
fn words_of(res: &[u8], little: bool) -> (w: Vec<u32>)
    ensures
        w@.len() == res@.len() / 2,
        forall|i: int| 0 <= i < w@.len() ==> w@[i] as int == res_word(res@, i, little),
        forall|i: int| 0 <= i < w@.len() ==> w@[i] < 65536,
{
    let len = res.len();
    let n = len / 2;
    let mut w: Vec<u32> = Vec::new();
    let mut i: usize = 0;
    while i < n
        invariant
            len == res@.len(),
            n == len / 2,
            i <= n,
            w@.len() == i,
            forall|k: int| 0 <= k < i ==> w@[k] as int == res_word(res@, k, little),
            forall|k: int| 0 <= k < i ==> w@[k] < 65536,
        decreases n - i,
    {
        assert(2 * i + 1 < len) by (nonlinear_arith)
            requires
                i < n,
                n == len / 2,
        ;
        let a = res[2 * i] as u32;
        let b = res[2 * i + 1] as u32;
        let x = if little {
            a + 256 * b
        } else {
            256 * a + b
        };
        w.push(x);
        i += 1;
    }
    w
}

/// For each index `i` of `w` (and `w.len()`), the first index at or after
/// `i` holding zero, or `w.len()`.
fn next_zeros(w: &Vec<u32>) -> (z: Vec<usize>)
    requires
        w@.len() < usize::MAX,
    ensures
        z@.len() == w@.len() + 1,
        forall|i: int|
            0 <= i <= w@.len() ==> {
                &&& i <= #[trigger] z@[i] <= w@.len()
                &&& z@[i] < w@.len() ==> w@[z@[i] as int] == 0
                &&& forall|j: int| i <= j < z@[i] ==> w@[j] != 0
            },
{
    let n = w.len();
    let mut z: Vec<usize> = Vec::new();
    let mut k: usize = 0;
    while k <= n
        invariant
            n == w@.len(),
            n < usize::MAX,
            k <= n + 1,
            z@.len() == k,
            forall|i: int| 0 <= i < k ==> z@[i] == n,
        decreases n + 1 - k,
    {
        z.push(n);
        k += 1;
    }
    let mut i: usize = n;
    while i > 0
        invariant
            n == w@.len(),
            i <= n,
            z@.len() == n + 1,
            forall|q: int|
                i <= q <= n ==> {
                    &&& q <= #[trigger] z@[q] <= n
                    &&& z@[q] < n ==> w@[z@[q] as int] == 0
                    &&& forall|j: int| q <= j < z@[q] ==> w@[j] != 0
                },
        decreases i,
    {
        i -= 1;
        let v = if w[i] == 0 {
            i
        } else {
            z[i + 1]
        };
        let ghost before = z@;
        z.set(i, v);
        proof {
            assert forall|q: int| i <= q <= n implies {
                &&& q <= #[trigger] z@[q] <= n
                &&& z@[q] < n ==> w@[z@[q] as int] == 0
                &&& forall|j: int| q <= j < z@[q] ==> w@[j] != 0
            } by {
                if q > i {
                    assert(z@[q] == before[q]);
                }
            }
        }
    }
    z
}

/// Whether no word of `res`, read in byte order `little`, starts the
/// panicking shape.
fn shape_free(res: &[u8], little: bool) -> (r: bool)
    ensures
        r == forall|p: int| 0 <= p < res@.len() / 2 ==> !#[trigger] panics_at(res@, p, little),
{
    let len = res.len();
    let w = words_of(res, little);
    assert(w@.len() < usize::MAX) by {
        assert(len <= usize::MAX);
    }
    let z = next_zeros(&w);
    let n = w.len();
    assert(n <= usize::MAX / 2);
    let mut p: usize = 0;
    while p < n
        invariant
            n == w@.len(),
            n == res@.len() / 2,
            n <= usize::MAX / 2,
            p <= n,
            z@.len() == n + 1,
            forall|i: int| 0 <= i < n ==> w@[i] < 65536,
            forall|i: int| 0 <= i < n ==> w@[i] as int == res_word(res@, i, little),
            forall|i: int|
                0 <= i <= n ==> {
                    &&& i <= #[trigger] z@[i] <= n
                    &&& z@[i] < n ==> w@[z@[i] as int] == 0
                    &&& forall|j: int| i <= j < z@[i] ==> w@[j] != 0
                },
            forall|q: int| 0 <= q < p ==> !#[trigger] panics_at(res@, q, little),
        decreases n - p,
    {
        let half = (w[p] / 2) as usize;
        let l: usize = if half > 4 {
            half
        } else {
            4
        };
        assert(l as int == tlv_len(res@, p as int, little));
        let hit = p % 2 == 0 && p + l <= n && l % 2 == 1 && z[p + 3] == p + l - 1;
        proof {
            if hit {
                assert(panics_at(res@, p as int, little)) by {
                    assert forall|j: int| p + 3 <= j < p + l - 1 implies res_word(res@, j, little) != 0 by {
                        assert(w@[j] != 0);
                    }
                }
            } else if p % 2 == 0 && p + l <= n && l % 2 == 1 {
                if panics_at(res@, p as int, little) {
                    let zz = z@[p + 3];
                    assert(w@[p + l - 1] == 0);
                    if zz < p + l - 1 {
                        assert(w@[zz as int] == 0);
                        assert(res_word(res@, zz as int, little) != 0);
                    } else {
                        assert(zz > p + l - 1);
                        assert(w@[p + l - 1] != 0);
                    }
                }
            }
        }
        if hit {
            return false;
        }
        p += 1;
    }
    true
}

/// Whether `pelite`'s version parser can read `res` without panicking,
/// by [`version_words_safe`].
pub fn version_resource_safe(res: &[u8]) -> (r: bool)
    ensures
        r == version_words_safe(res@),
{
    let a = shape_free(res, true);
    let b = shape_free(res, false);
    proof {
        if a && b {
            assert forall|p: int, little: bool| 0 <= p < res@.len() / 2 implies !#[trigger] panics_at(res@, p, little) by {
                if little {
                    assert(!panics_at(res@, p, true));
                } else {
                    assert(!panics_at(res@, p, false));
                }
            }
        }
        if !a {
            let p = choose|p: int| 0 <= p < res@.len() / 2 && panics_at(res@, p, true);
            assert(panics_at(res@, p, true));
        }
        if a && !b {
            let p = choose|p: int| 0 <= p < res@.len() / 2 && panics_at(res@, p, false);
            assert(panics_at(res@, p, false));
        }
    }
    a && b
}

// ---------------------------------------------------------------------
// The patch.
// ---------------------------------------------------------------------

/// The version keys read, in the order [`version_patch`] takes them.
pub open spec fn version_keys() -> Seq<Seq<char>> {
    seq!["ProductName"@, "FileDescription"@, "CompanyName"@, "ProductVersion"@, "FileVersion"@]
}

/// The row read of a table with translations `t`: the first English (US)
/// one, else the first.
pub open spec fn chosen_row(t: Seq<(u16, u16)>) -> int {
    if first_en_us(t) < t.len() {
        first_en_us(t)
    } else {
        0
    }
}

/// The translations of a version table.
pub open spec fn table_langs(t: Seq<((u16, u16), Seq<Option<Seq<char>>>)>) -> Seq<(u16, u16)> {
    t.map_values(|e: ((u16, u16), Seq<Option<Seq<char>>>)| e.0)
}

/// The patch a version table (rows keyed by [`version_keys`]) gives: the
/// chosen row's strings, each reduced; `None` without translations.
pub open spec fn table_patch(t: Seq<((u16, u16), Seq<Option<Seq<char>>>)>) -> Option<IdentityView> {
    if t.len() == 0 {
        None
    } else {
        let v = t[chosen_row(table_langs(t))].1;
        version_patch(reduced(v[0]), reduced(v[1]), reduced(v[2]), reduced(v[3]), reduced(v[4]))
    }
}

/// The patch of a version resource: none where the parser would panic.
pub open spec fn resource_patch(res: Seq<u8>) -> Option<IdentityView> {
    if version_words_safe(res) {
        table_patch(version_table(res, version_keys()))
    } else {
        None
    }
}

/// The patch of a 64-bit PE image.
pub open spec fn pe64_patch(bytes: Seq<u8>) -> Option<IdentityView> {
    match pe64_version_resource(bytes) {
        Some(res) => resource_patch(res),
        None => None,
    }
}

/// The patch of a 32-bit PE image.
pub open spec fn pe32_patch(bytes: Seq<u8>) -> Option<IdentityView> {
    match pe32_version_resource(bytes) {
        Some(res) => resource_patch(res),
        None => None,
    }
}

/// Index of the translation to read.
pub fn pick_language_index(t: &[(u16, u16)]) -> (r: Option<usize>)
    ensures
        match r {
            Some(i) => t@.len() > 0 && i == chosen_row(t@),
            None => t@.len() == 0,
        },
{
    let mut i: usize = 0;
    assert(t@.skip(0) =~= t@);
    while i < t.len()
        invariant
            i <= t@.len(),
            first_en_us(t@) == i + first_en_us(t@.skip(i as int)),
        decreases t.len() - i,
    {
        assert(t@.skip(i as int)[0] == t@[i as int]);
        if t[i].0 == LANG_EN_US {
            return Some(i);
        }
        assert(t@.skip(i as int).drop_first() =~= t@.skip(i + 1));
        i += 1;
    }
    if t.len() > 0 {
        Some(0)
    } else {
        None
    }
}

/// A copy of an optional string.
fn copy_opt(s: &Option<String>) -> (r: Option<String>)
    ensures
        text_view(r) == text_view(*s),
{
    match s {
        Some(v) => Some(copy_string(v)),
        None => None,
    }
}

/// The patch a version table read with the [`version_keys`] gives.
pub fn patch_from_table(t: &Vec<((u16, u16), Vec<Option<String>>)>) -> (r: Option<IdentityUpdate>)
    requires
        forall|i: int| 0 <= i < t@.len() ==> (#[trigger] t@[i]).1@.len() == 5,
    ensures
        match r {
            Some(u) => table_patch(table_view(t@)) == Some(u@),
            None => table_patch(table_view(t@)) is None,
        },
{
    let mut langs: Vec<(u16, u16)> = Vec::new();
    let mut k: usize = 0;
    while k < t.len()
        invariant
            k <= t@.len(),
            langs@ == table_langs(table_view(t@)).take(k as int),
        decreases t.len() - k,
    {
        langs.push(t[k].0);
        k += 1;
        assert(langs@ =~= table_langs(table_view(t@)).take(k as int));
    }
    assert(langs@ =~= table_langs(table_view(t@)));
    let i = match pick_language_index(langs.as_slice()) {
        Some(i) => i,
        None => return None,
    };
    let row = &t[i].1;
    assert(row@.len() == 5);
    let r = identity_from_strings(
        non_empty_opt(copy_opt(&row[0])),
        non_empty_opt(copy_opt(&row[1])),
        non_empty_opt(copy_opt(&row[2])),
        non_empty_opt(copy_opt(&row[3])),
        non_empty_opt(copy_opt(&row[4])),
    );
    proof {
        let v = table_view(t@)[i as int].1;
        assert(v == row@.map_values(|o: Option<String>| text_view(o)));
        assert(v[0] == text_view(row@[0]));
        assert(v[1] == text_view(row@[1]));
        assert(v[2] == text_view(row@[2]));
        assert(v[3] == text_view(row@[3]));
        assert(v[4] == text_view(row@[4]));
    }
    r
}

/// The patch of the version resource `res`, when it can be read: none
/// where the parser would panic (where the read itself would have
/// failed), and where the table cannot be read because `res` does not
/// start on a 4-byte boundary.
fn resource_patch_of(res: &[u8]) -> (r: Option<IdentityUpdate>)
    ensures
        r matches Some(u) ==> resource_patch(res@) == Some(u@),
        resource_patch(res@) is None ==> r is None,
{
    if !version_resource_safe(res) {
        return None;
    }
    let keys = vec![
        "ProductName".to_owned(),
        "FileDescription".to_owned(),
        "CompanyName".to_owned(),
        "ProductVersion".to_owned(),
        "FileVersion".to_owned(),
    ];
    proof {
        reveal_strlit("ProductName");
        reveal_strlit("FileDescription");
        reveal_strlit("CompanyName");
        reveal_strlit("ProductVersion");
        reveal_strlit("FileVersion");
        assert(keys@.map_values(|k: String| k@) =~= version_keys());
    }
    match read_version_table(res, &keys) {
        Some(t) => patch_from_table(&t),
        None => None,
    }
}

/// The patch of a 64-bit image, when its resource can be read.
fn extract_64(bytes: &[u8]) -> (r: Option<IdentityUpdate>)
    ensures
        r matches Some(u) ==> pe64_patch(bytes@) == Some(u@),
        pe64_patch(bytes@) is None ==> r is None,
{
    match read_pe64_version_resource(bytes) {
        Some(res) => resource_patch_of(res.as_slice()),
        None => None,
    }
}

/// The patch of a 32-bit image, when its resource can be read.
fn extract_32(bytes: &[u8]) -> (r: Option<IdentityUpdate>)
    ensures
        r matches Some(u) ==> pe32_patch(bytes@) == Some(u@),
        pe32_patch(bytes@) is None ==> r is None,
{
    match read_pe32_version_resource(bytes) {
        Some(res) => resource_patch_of(res.as_slice()),
        None => None,
    }
}

/// The patch of the PE image `bytes`: read as a 64-bit image, else as a
/// 32-bit one. `pelite` refuses a buffer that does not start on a 4-byte
/// boundary, so a patch comes back only where that read succeeds: what
/// comes back is the image's exact patch, and nothing comes back where
/// neither image has one.
pub fn pe_patch(bytes: &[u8]) -> (r: Option<IdentityUpdate>)
    ensures
        r matches Some(u) ==> pe64_patch(bytes@) == Some(u@) || pe32_patch(bytes@) == Some(u@),
        pe64_patch(bytes@) is None && pe32_patch(bytes@) is None ==> r is None,
{
    match extract_64(bytes) {
        Some(u) => Some(u),
        None => extract_32(bytes),
    }
}

} // verus!
