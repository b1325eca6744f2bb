//! Identity patches and how the enrichment cascade merges them.
//!
//! Each enricher returns `Option<IdentityUpdate>`; `None` means the
//! source does not apply. The cascade runs the sources from lowest to
//! highest priority and merges each patch on top of the accumulated one:
//! every field the patch sets overwrites the accumulated field, fields it
//! leaves unset are kept. So sources can be partial, and the last source
//! to set a field wins.

use vstd::prelude::*;
use crate::text::copy_string;

verus! {

/// The graphics API an application renders with.
#[derive(Debug, Clone, Copy, PartialEq, Eq, Structural)]
pub enum GraphicsPlatform {
    Unknown,
    OpenGl,
    Vulkan,
    DirectX,
}

/// The instruction set of an application's process.
#[derive(Debug, Clone, Copy, PartialEq, Eq, Structural)]
pub enum ProcessArchitecture {
    Unknown,
    X86,
    X86_64,
}

/// The enricher that named an application.
#[derive(Debug, Clone, Copy, PartialEq, Eq, Structural)]
pub enum DetectedVia {
    Desktop,
    Pe,
    Gog,
    Heroic,
    Lutris,
    Steam,
}

/// Icons at the sizes the database keeps, as encoded image bytes.
#[derive(Debug, PartialEq, Eq)]
pub struct Icons {
    pub icon_16: Option<Vec<u8>>,
    pub icon_32: Option<Vec<u8>>,
    pub icon_48: Option<Vec<u8>>,
    pub icon_256: Option<Vec<u8>>,
}

/// The mathematical content of an [`Icons`].
pub struct IconsView {
    pub icon_16: Option<Seq<u8>>,
    pub icon_32: Option<Seq<u8>>,
    pub icon_48: Option<Seq<u8>>,
    pub icon_256: Option<Seq<u8>>,
}

/// The view of optional bytes.
pub open spec fn bytes_view(b: Option<Vec<u8>>) -> Option<Seq<u8>> {
    match b {
        Some(v) => Some(v@),
        None => None,
    }
}

/// The view of an optional string.
pub open spec fn text_view(s: Option<String>) -> Option<Seq<char>> {
    match s {
        Some(v) => Some(v@),
        None => None,
    }
}

impl View for Icons {
    type V = IconsView;

    open spec fn view(&self) -> IconsView {
        IconsView {
            icon_16: bytes_view(self.icon_16),
            icon_32: bytes_view(self.icon_32),
            icon_48: bytes_view(self.icon_48),
            icon_256: bytes_view(self.icon_256),
        }
    }
}

/// A copy of optional bytes.
fn copy_bytes(b: &Option<Vec<u8>>) -> (r: Option<Vec<u8>>)
    ensures
        bytes_view(r) == bytes_view(*b),
{
    match b {
        Some(v) => {
            let mut out: Vec<u8> = Vec::new();
            let mut i: usize = 0;
            while i < v.len()
                invariant
                    i <= v@.len(),
                    out@ == v@.take(i as int),
                decreases v.len() - i,
            {
                out.push(v[i]);
                i += 1;
                assert(out@ =~= v@.take(i as int));
            }
            assert(v@.take(i as int) =~= v@);
            Some(out)
        },
        None => None,
    }
}

/// A copy of an optional string.
fn copy_text(s: &Option<String>) -> (r: Option<String>)
    ensures
        text_view(r) == text_view(*s),
{
    match s {
        Some(v) => Some(copy_string(v)),
        None => None,
    }
}

/// No icon at any size.
pub open spec fn no_icons() -> IconsView {
    IconsView { icon_16: None, icon_32: None, icon_48: None, icon_256: None }
}

impl Default for Icons {
    fn default() -> (r: Self)
        ensures
            r@ == no_icons(),
    {
        Icons { icon_16: None, icon_32: None, icon_48: None, icon_256: None }
    }
}

impl Clone for Icons {
    fn clone(&self) -> (r: Self)
        ensures
            r@ == self@,
    {
        Icons {
            icon_16: copy_bytes(&self.icon_16),
            icon_32: copy_bytes(&self.icon_32),
            icon_48: copy_bytes(&self.icon_48),
            icon_256: copy_bytes(&self.icon_256),
        }
    }
}

/// Identity fields an enricher found for an application; `None` means
/// "not found here".
#[derive(Debug, PartialEq, Eq)]
pub struct IdentityUpdate {
    pub product_name: Option<String>,
    pub publisher: Option<String>,
    pub version: Option<String>,
    pub executable_path: Option<String>,
    pub launcher_exe_path: Option<String>,
    pub wineprefix_path: Option<String>,
    pub installed_flatpak_ref: Option<String>,
    pub graphics_platform: Option<GraphicsPlatform>,
    pub process_architecture: Option<ProcessArchitecture>,
    pub group_id: Option<i64>,
    pub icons: Icons,
    /// The enricher whose patch supplied the product name.
    pub detected_via: Option<DetectedVia>,
}

/// The mathematical content of an [`IdentityUpdate`].
pub struct IdentityView {
    pub product_name: Option<Seq<char>>,
    pub publisher: Option<Seq<char>>,
    pub version: Option<Seq<char>>,
    pub executable_path: Option<Seq<char>>,
    pub launcher_exe_path: Option<Seq<char>>,
    pub wineprefix_path: Option<Seq<char>>,
    pub installed_flatpak_ref: Option<Seq<char>>,
    pub graphics_platform: Option<GraphicsPlatform>,
    pub process_architecture: Option<ProcessArchitecture>,
    pub group_id: Option<i64>,
    pub icons: IconsView,
    pub detected_via: Option<DetectedVia>,
}

impl View for IdentityUpdate {
    type V = IdentityView;

    open spec fn view(&self) -> IdentityView {
        IdentityView {
            product_name: text_view(self.product_name),
            publisher: text_view(self.publisher),
            version: text_view(self.version),
            executable_path: text_view(self.executable_path),
            launcher_exe_path: text_view(self.launcher_exe_path),
            wineprefix_path: text_view(self.wineprefix_path),
            installed_flatpak_ref: text_view(self.installed_flatpak_ref),
            graphics_platform: self.graphics_platform,
            process_architecture: self.process_architecture,
            group_id: self.group_id,
            icons: self.icons@,
            detected_via: self.detected_via,
        }
    }
}

/// A patch that sets nothing.
pub open spec fn no_identity() -> IdentityView {
    IdentityView {
        product_name: None,
        publisher: None,
        version: None,
        executable_path: None,
        launcher_exe_path: None,
        wineprefix_path: None,
        installed_flatpak_ref: None,
        graphics_platform: None,
        process_architecture: None,
        group_id: None,
        icons: no_icons(),
        detected_via: None,
    }
}

impl Default for IdentityUpdate {
    fn default() -> (r: Self)
        ensures
            r@ == no_identity(),
    {
        IdentityUpdate {
            product_name: None,
            publisher: None,
            version: None,
            executable_path: None,
            launcher_exe_path: None,
            wineprefix_path: None,
            installed_flatpak_ref: None,
            graphics_platform: None,
            process_architecture: None,
            group_id: None,
            icons: Icons::default(),
            detected_via: None,
        }
    }
}

impl Clone for IdentityUpdate {
    fn clone(&self) -> (r: Self)
        ensures
            r@ == self@,
    {
        IdentityUpdate {
            product_name: copy_text(&self.product_name),
            publisher: copy_text(&self.publisher),
            version: copy_text(&self.version),
            executable_path: copy_text(&self.executable_path),
            launcher_exe_path: copy_text(&self.launcher_exe_path),
            wineprefix_path: copy_text(&self.wineprefix_path),
            installed_flatpak_ref: copy_text(&self.installed_flatpak_ref),
            graphics_platform: self.graphics_platform,
            process_architecture: self.process_architecture,
            group_id: self.group_id,
            icons: self.icons.clone(),
            detected_via: self.detected_via,
        }
    }
}

/// `patch` when it is set, else `acc`.
pub open spec fn over<T>(acc: Option<T>, patch: Option<T>) -> Option<T> {
    if patch is Some {
        patch
    } else {
        acc
    }
}

/// Icons of `patch` over those of `acc`, size by size.
pub open spec fn icons_over(acc: IconsView, patch: IconsView) -> IconsView {
    IconsView {
        icon_16: over(acc.icon_16, patch.icon_16),
        icon_32: over(acc.icon_32, patch.icon_32),
        icon_48: over(acc.icon_48, patch.icon_48),
        icon_256: over(acc.icon_256, patch.icon_256),
    }
}

/// `patch` from enricher `source` merged over `acc`: each field the
/// patch sets wins; the provenance becomes `source` exactly when the
/// patch supplies the product name.
pub open spec fn merged(acc: IdentityView, source: DetectedVia, patch: IdentityView) -> IdentityView {
    IdentityView {
        product_name: over(acc.product_name, patch.product_name),
        publisher: over(acc.publisher, patch.publisher),
        version: over(acc.version, patch.version),
        executable_path: over(acc.executable_path, patch.executable_path),
        launcher_exe_path: over(acc.launcher_exe_path, patch.launcher_exe_path),
        wineprefix_path: over(acc.wineprefix_path, patch.wineprefix_path),
        installed_flatpak_ref: over(acc.installed_flatpak_ref, patch.installed_flatpak_ref),
        graphics_platform: over(acc.graphics_platform, patch.graphics_platform),
        process_architecture: over(acc.process_architecture, patch.process_architecture),
        group_id: over(acc.group_id, patch.group_id),
        icons: icons_over(acc.icons, patch.icons),
        detected_via: if patch.product_name is Some {
            Some(source)
        } else {
            acc.detected_via
        },
    }
}

/// Merge the icons of `patch` over `acc`, size by size.
pub fn merge_icons(acc: &mut Icons, patch: Icons)
    ensures
        final(acc)@ == icons_over(old(acc)@, patch@),
{
    if patch.icon_16.is_some() {
        acc.icon_16 = patch.icon_16;
    }
    if patch.icon_32.is_some() {
        acc.icon_32 = patch.icon_32;
    }
    if patch.icon_48.is_some() {
        acc.icon_48 = patch.icon_48;
    }
    if patch.icon_256.is_some() {
        acc.icon_256 = patch.icon_256;
    }
}

/// Merge `patch`, from enricher `source`, over `acc`. Nothing changes
/// when `patch` is `None`.
pub fn merge_into(acc: &mut IdentityUpdate, source: DetectedVia, patch: Option<IdentityUpdate>)
    ensures
        match patch {
            Some(p) => final(acc)@ == merged(old(acc)@, source, p@),
            None => final(acc)@ == old(acc)@,
        },
{
    let patch = match patch {
        Some(p) => p,
        None => return,
    };
    if patch.product_name.is_some() {
        acc.product_name = patch.product_name;
        acc.detected_via = Some(source);
    }
    if patch.publisher.is_some() {
        acc.publisher = patch.publisher;
    }
    if patch.version.is_some() {
        acc.version = patch.version;
    }
    if patch.executable_path.is_some() {
        acc.executable_path = patch.executable_path;
    }
    if patch.launcher_exe_path.is_some() {
        acc.launcher_exe_path = patch.launcher_exe_path;
    }
    if patch.wineprefix_path.is_some() {
        acc.wineprefix_path = patch.wineprefix_path;
    }
    if patch.installed_flatpak_ref.is_some() {
        acc.installed_flatpak_ref = patch.installed_flatpak_ref;
    }
    if patch.graphics_platform.is_some() {
        acc.graphics_platform = patch.graphics_platform;
    }
    if patch.process_architecture.is_some() {
        acc.process_architecture = patch.process_architecture;
    }
    if patch.group_id.is_some() {
        acc.group_id = patch.group_id;
    }
    merge_icons(&mut acc.icons, patch.icons);
}

/// The patch sets no field.
pub open spec fn sets_nothing(p: IdentityView) -> bool {
    &&& p.product_name is None
    &&& p.publisher is None
    &&& p.version is None
    &&& p.executable_path is None
    &&& p.launcher_exe_path is None
    &&& p.wineprefix_path is None
    &&& p.installed_flatpak_ref is None
    &&& p.graphics_platform is None
    &&& p.process_architecture is None
    &&& p.group_id is None
    &&& p.icons.icon_16 is None
    &&& p.icons.icon_32 is None
    &&& p.icons.icon_48 is None
    &&& p.icons.icon_256 is None
}

/// Whether the patch carries no change.
pub fn is_empty(patch: &IdentityUpdate) -> (r: bool)
    ensures
        r == sets_nothing(patch@),
{
    patch.product_name.is_none() && patch.publisher.is_none() && patch.version.is_none()
        && patch.executable_path.is_none() && patch.launcher_exe_path.is_none()
        && patch.wineprefix_path.is_none() && patch.installed_flatpak_ref.is_none()
        && patch.graphics_platform.is_none() && patch.process_architecture.is_none()
        && patch.group_id.is_none() && patch.icons.icon_16.is_none()
        && patch.icons.icon_32.is_none() && patch.icons.icon_48.is_none()
        && patch.icons.icon_256.is_none()
}

// ---------------------------------------------------------------------
// Laws of merging.
// ---------------------------------------------------------------------

/// Merging a patch that sets nothing changes nothing, provenance
/// included.
pub proof fn lemma_empty_patch_is_identity(acc: IdentityView, source: DetectedVia, patch: IdentityView)
    requires
        sets_nothing(patch),
    ensures
        merged(acc, source, patch) == acc,
{
}

/// The provenance always names the source of the product name: after a
/// merge, the provenance is the patch's source exactly when the patch set
/// the name, and is otherwise what it was.
pub proof fn lemma_provenance_follows_name(acc: IdentityView, source: DetectedVia, patch: IdentityView)
    ensures
        patch.product_name is Some ==> merged(acc, source, patch).detected_via == Some(source)
            && merged(acc, source, patch).product_name == patch.product_name,
        patch.product_name is None ==> merged(acc, source, patch).detected_via == acc.detected_via
            && merged(acc, source, patch).product_name == acc.product_name,
{
}

/// Merging is last-wins and idempotent: merging the same patch twice is
/// merging it once, and a later patch's fields override an earlier one's.
pub proof fn lemma_merge_last_wins(
    acc: IdentityView,
    s1: DetectedVia,
    p1: IdentityView,
    s2: DetectedVia,
    p2: IdentityView,
)
    ensures
        merged(merged(acc, s1, p1), s1, p1) == merged(acc, s1, p1),
        p2.product_name is Some ==> merged(merged(acc, s1, p1), s2, p2).product_name
            == p2.product_name,
        p2.publisher is Some ==> merged(merged(acc, s1, p1), s2, p2).publisher == p2.publisher,
        p2.version is Some ==> merged(merged(acc, s1, p1), s2, p2).version == p2.version,
        p2.executable_path is Some ==> merged(merged(acc, s1, p1), s2, p2).executable_path
            == p2.executable_path,
{
}

/// Every field a patch sets wins, and every field it leaves unset keeps
/// the accumulated value: this holds field by field for all the identity
/// fields and for each icon size.
pub proof fn lemma_patch_field_wins(acc: IdentityView, source: DetectedVia, patch: IdentityView)
    ensures
        patch.product_name is Some ==> merged(acc, source, patch).product_name == patch.product_name,
        patch.product_name is None ==> merged(acc, source, patch).product_name == acc.product_name,
        patch.publisher is Some ==> merged(acc, source, patch).publisher == patch.publisher,
        patch.publisher is None ==> merged(acc, source, patch).publisher == acc.publisher,
        patch.version is Some ==> merged(acc, source, patch).version == patch.version,
        patch.version is None ==> merged(acc, source, patch).version == acc.version,
        patch.executable_path is Some ==> merged(acc, source, patch).executable_path == patch.executable_path,
        patch.executable_path is None ==> merged(acc, source, patch).executable_path == acc.executable_path,
        patch.launcher_exe_path is Some ==> merged(acc, source, patch).launcher_exe_path == patch.launcher_exe_path,
        patch.launcher_exe_path is None ==> merged(acc, source, patch).launcher_exe_path == acc.launcher_exe_path,
        patch.wineprefix_path is Some ==> merged(acc, source, patch).wineprefix_path == patch.wineprefix_path,
        patch.wineprefix_path is None ==> merged(acc, source, patch).wineprefix_path == acc.wineprefix_path,
        patch.installed_flatpak_ref is Some ==> merged(acc, source, patch).installed_flatpak_ref == patch.installed_flatpak_ref,
        patch.installed_flatpak_ref is None ==> merged(acc, source, patch).installed_flatpak_ref == acc.installed_flatpak_ref,
        patch.graphics_platform is Some ==> merged(acc, source, patch).graphics_platform == patch.graphics_platform,
        patch.graphics_platform is None ==> merged(acc, source, patch).graphics_platform == acc.graphics_platform,
        patch.process_architecture is Some ==> merged(acc, source, patch).process_architecture == patch.process_architecture,
        patch.process_architecture is None ==> merged(acc, source, patch).process_architecture == acc.process_architecture,
        patch.group_id is Some ==> merged(acc, source, patch).group_id == patch.group_id,
        patch.group_id is None ==> merged(acc, source, patch).group_id == acc.group_id,
        patch.icons.icon_16 is Some ==> merged(acc, source, patch).icons.icon_16
            == patch.icons.icon_16,
        patch.icons.icon_16 is None ==> merged(acc, source, patch).icons.icon_16
            == acc.icons.icon_16,
        patch.icons.icon_32 is Some ==> merged(acc, source, patch).icons.icon_32
            == patch.icons.icon_32,
        patch.icons.icon_32 is None ==> merged(acc, source, patch).icons.icon_32
            == acc.icons.icon_32,
        patch.icons.icon_48 is Some ==> merged(acc, source, patch).icons.icon_48
            == patch.icons.icon_48,
        patch.icons.icon_48 is None ==> merged(acc, source, patch).icons.icon_48
            == acc.icons.icon_48,
        patch.icons.icon_256 is Some ==> merged(acc, source, patch).icons.icon_256
            == patch.icons.icon_256,
        patch.icons.icon_256 is None ==> merged(acc, source, patch).icons.icon_256
            == acc.icons.icon_256,
{
}

} // verus!
