//! Non-launcher game check.
//!
//! Given what was observed about a candidate process and its
//! foreground window, decide whether the process should be tracked as a
//! game. Stateless: callers manage the "already running" set, and the
//! `/proc` reads that feed [`decide_from_inputs`] happen elsewhere.
//!
//! A process is accepted as a game when all of the following hold:
//!
//! 1. Its executable is not in the blocklist (compositor, shell, and
//!    launcher binaries, plus whatever the user blocked).
//! 2. Its environment does not attribute it to a launcher that has its
//!    own lifecycle source (a real Steam app), unless a foreground-source
//!    launcher (Heroic, Lutris) also claims it.
//! 3. Its `maps` contain at least one graphics library.
//! 4. Either its window is fullscreen, or it uses a meaningful amount of
//!    GPU memory.
//!
//! Gamescope ancestry relaxes 3 and 4: gamescope only hosts games.

use vstd::prelude::*;
use crate::proc::environ::Environ;
use crate::proc::fdinfo::GpuSummary;
use crate::proc::maps::{no_libraries, GraphicsLibraries};
use crate::text::{
    chars_eq, chars_of, copy_string, file_name, file_name_chars, parse_u64, parse_u64_chars,
    string_of_chars, trim, trim_chars,
};

verus! {

broadcast use vstd::string::group_string_axioms;

/// The views of a list of strings.
pub open spec fn names_of(v: Seq<String>) -> Seq<Seq<char>> {
    v.map_values(|s: String| s@)
}

/// `comm` values of the gamescope nested compositor.
pub open spec fn gamescope_comms() -> Seq<Seq<char>> {
    seq!["gamescope"@, "gamescope-wl"@]
}

/// Knobs the daemon supplies to the game check.
#[derive(Debug)]
pub struct GateConfig {
    /// Executable basenames that are never games.
    pub blocklist: Vec<String>,
    /// Minimum per-process GPU memory, in bytes, for a window that is
    /// not fullscreen to be accepted.
    pub gpu_memory_threshold_bytes: u64,
    /// Variables whose nonzero appid value marks a process as owned by a
    /// launcher with its own lifecycle source (Steam).
    pub launcher_env_vars: Vec<String>,
    /// Variables whose presence marks a process as launched by a
    /// foreground-source launcher (Lutris, Heroic); they override
    /// `launcher_env_vars`.
    pub foreground_source_launcher_env_vars: Vec<String>,
}

/// The mathematical content of a [`GateConfig`].
pub struct GateConfigView {
    pub blocklist: Seq<Seq<char>>,
    pub gpu_memory_threshold_bytes: u64,
    pub launcher_env_vars: Seq<Seq<char>>,
    pub foreground_source_launcher_env_vars: Seq<Seq<char>>,
}

impl View for GateConfig {
    type V = GateConfigView;

    open spec fn view(&self) -> GateConfigView {
        GateConfigView {
            blocklist: names_of(self.blocklist@),
            gpu_memory_threshold_bytes: self.gpu_memory_threshold_bytes,
            launcher_env_vars: names_of(self.launcher_env_vars@),
            foreground_source_launcher_env_vars: names_of(
                self.foreground_source_launcher_env_vars@,
            ),
        }
    }
}

/// The default GPU memory threshold: 50 MiB.
pub open spec fn default_gpu_memory_threshold() -> u64 {
    52428800
}

impl Default for GateConfig {
    fn default() -> (r: Self)
        ensures
            r@.blocklist == default_blocklist_names(),
            r@.gpu_memory_threshold_bytes == default_gpu_memory_threshold(),
            r@.launcher_env_vars == default_launcher_env_var_names(),
            r@.foreground_source_launcher_env_vars
                == default_foreground_source_launcher_env_var_names(),
    {
        GateConfig {
            blocklist: default_blocklist(),
            gpu_memory_threshold_bytes: 50 * 1024 * 1024,
            launcher_env_vars: default_launcher_env_vars(),
            foreground_source_launcher_env_vars: default_foreground_source_launcher_env_vars(),
        }
    }
}

impl Clone for GateConfig {
    fn clone(&self) -> (r: Self)
        ensures
            r@ == self@,
    {
        GateConfig {
            blocklist: copy_names(&self.blocklist),
            gpu_memory_threshold_bytes: self.gpu_memory_threshold_bytes,
            launcher_env_vars: copy_names(&self.launcher_env_vars),
            foreground_source_launcher_env_vars: copy_names(
                &self.foreground_source_launcher_env_vars,
            ),
        }
    }
}

/// A copy of a list of names.
pub fn copy_names(v: &Vec<String>) -> (r: Vec<String>)
    ensures
        names_of(r@) == names_of(v@),
{
    let mut out: Vec<String> = Vec::new();
    let mut i: usize = 0;
    while i < v.len()
        invariant
            i <= v.len(),
            out@.len() == i,
            forall|j: int| 0 <= j < i ==> (#[trigger] out@[j])@ == v@[j]@,
        decreases v.len() - i,
    {
        out.push(copy_string(&v[i]));
        i += 1;
    }
    assert(names_of(out@) =~= names_of(v@));
    out
}

/// A list of owned names from literals.
fn names_from(lits: &[&str]) -> (r: Vec<String>)
    ensures
        names_of(r@) == lits@.map_values(|s: &str| s@),
{
    let mut out: Vec<String> = Vec::new();
    let mut i: usize = 0;
    while i < lits.len()
        invariant
            i <= lits.len(),
            out@.len() == i,
            forall|j: int| 0 <= j < i ==> (#[trigger] out@[j])@ == lits@[j]@,
        decreases lits.len() - i,
    {
        out.push(lits[i].to_owned());
        i += 1;
    }
    assert(names_of(out@) =~= lits@.map_values(|s: &str| s@));
    out
}

/// `SteamAppId` and `STEAM_COMPAT_APP_ID`.
pub open spec fn default_launcher_env_var_names() -> Seq<Seq<char>> {
    seq!["SteamAppId"@, "STEAM_COMPAT_APP_ID"@]
}

/// `LUTRIS_GAME_UUID` and `HEROIC_APP_NAME`.
pub open spec fn default_foreground_source_launcher_env_var_names() -> Seq<Seq<char>> {
    seq!["LUTRIS_GAME_UUID"@, "HEROIC_APP_NAME"@]
}

/// The baseline never-track binaries on KDE Plasma.
pub open spec fn default_blocklist_names() -> Seq<Seq<char>> {
    seq![
        "kwin_wayland"@,
        "kwin_x11"@,
        "plasmashell"@,
        "kded5"@,
        "kded6"@,
        "krunner"@,
        "kactivitymanagerd"@,
        "kwalletd5"@,
        "kwalletd6"@,
        "ksmserver"@,
        "systemsettings"@,
        "systemsettings5"@,
        "polkit-kde-authentication-agent-1"@,
        "Xwayland"@,
        "Xorg"@,
        "gnome-shell"@,
        "mutter"@,
        "gdm-x-session"@,
        "ludex-daemon"@,
        "ludex"@,
    ]
}

/// Environment variables that mean "Steam started this process, so the
/// foreground source should not count it again". Matched by value: only
/// a nonzero appid counts, so non-Steam shortcuts (appid zero) still
/// reach the foreground source. `SteamGameId` is left out because it is
/// nonzero for shortcuts too.
pub fn default_launcher_env_vars() -> (r: Vec<String>)
    ensures
        names_of(r@) == default_launcher_env_var_names(),
{
    let lits: [&str; 2] = ["SteamAppId", "STEAM_COMPAT_APP_ID"];
    let r = names_from(&lits);
    assert(lits@.map_values(|s: &str| s@) =~= default_launcher_env_var_names());
    r
}

/// Environment variables identifying processes launched by a
/// foreground-source launcher (Lutris, Heroic). Their presence overrides
/// the Steam variables, which Proton-based launches inherit even though
/// Steam never saw them.
pub fn default_foreground_source_launcher_env_vars() -> (r: Vec<String>)
    ensures
        names_of(r@) == default_foreground_source_launcher_env_var_names(),
{
    let lits: [&str; 2] = ["LUTRIS_GAME_UUID", "HEROIC_APP_NAME"];
    let r = names_from(&lits);
    assert(lits@.map_values(|s: &str| s@) =~= default_foreground_source_launcher_env_var_names());
    r
}

/// Baseline never-track binaries: things that always load a graphics
/// library and have a high GPU footprint but are never games.
pub fn default_blocklist() -> (r: Vec<String>)
    ensures
        names_of(r@) == default_blocklist_names(),
{
    let lits: [&str; 20] = [
        "kwin_wayland",
        "kwin_x11",
        "plasmashell",
        "kded5",
        "kded6",
        "krunner",
        "kactivitymanagerd",
        "kwalletd5",
        "kwalletd6",
        "ksmserver",
        "systemsettings",
        "systemsettings5",
        "polkit-kde-authentication-agent-1",
        "Xwayland",
        "Xorg",
        "gnome-shell",
        "mutter",
        "gdm-x-session",
        "ludex-daemon",
        "ludex",
    ];
    let r = names_from(&lits);
    assert(lits@.map_values(|s: &str| s@) =~= default_blocklist_names());
    r
}

/// Fields the daemon collects about the foreground window.
#[derive(Debug, Clone, Copy)]
pub struct GateInput {
    /// Process id of the candidate.
    pub pid: u32,
    /// Whether the candidate's window is fullscreen on its output.
    pub window_is_fullscreen: bool,
}

/// Launcher identity of an accepted process that belongs to a
/// foreground-source launcher.
#[derive(Debug, PartialEq, Eq)]
pub enum LauncherAttribution {
    /// The process inherited Heroic's `HEROIC_APP_NAME`.
    Heroic {
        /// Value of `HEROIC_APP_NAME`, trimmed.
        app_name: String,
    },
    /// The process carries Lutris's `LUTRIS_GAME_UUID`.
    Lutris {
        /// Value of `LUTRIS_GAME_UUID`, trimmed.
        uuid: String,
    },
}

/// The mathematical content of a [`LauncherAttribution`].
pub enum AttributionView {
    Heroic(Seq<char>),
    Lutris(Seq<char>),
}

impl View for LauncherAttribution {
    type V = AttributionView;

    open spec fn view(&self) -> AttributionView {
        match self {
            LauncherAttribution::Heroic { app_name } => AttributionView::Heroic(app_name@),
            LauncherAttribution::Lutris { uuid } => AttributionView::Lutris(uuid@),
        }
    }
}

impl Clone for LauncherAttribution {
    fn clone(&self) -> (r: Self)
        ensures
            r@ == self@,
    {
        match self {
            LauncherAttribution::Heroic { app_name } => LauncherAttribution::Heroic {
                app_name: copy_string(app_name),
            },
            LauncherAttribution::Lutris { uuid } => LauncherAttribution::Lutris {
                uuid: copy_string(uuid),
            },
        }
    }
}

/// The view of an optional attribution.
pub open spec fn attribution_view(a: Option<LauncherAttribution>) -> Option<AttributionView> {
    match a {
        Some(x) => Some(x@),
        None => None,
    }
}

/// What the game check knows about a process it accepted.
#[derive(Debug, PartialEq, Eq)]
pub struct AcceptedProcess {
    /// The process's executable path.
    pub executable_path: String,
    /// Which graphics stacks the process has mapped in.
    pub graphics_libraries: GraphicsLibraries,
    /// Foreground-source launcher attribution, if the environment
    /// carried one.
    pub attribution: Option<LauncherAttribution>,
}

/// Why the game check rejected a process.
#[derive(Debug, Clone, Copy, PartialEq, Eq, Structural)]
pub enum RejectionReason {
    /// The executable could not be read.
    ExeUnreadable,
    /// The executable's basename is in the blocklist.
    Blocklisted,
    /// The environment attributes the process to a launcher with its
    /// own source.
    AttributedToLauncher,
    /// The memory maps could not be read.
    MapsUnreadable,
    /// No graphics library was mapped into the process.
    NoGraphicsLibrary,
    /// The window is not fullscreen and GPU memory is below threshold.
    NotFullscreenAndLowGpu,
}

/// The game check's verdict.
#[derive(Debug, PartialEq, Eq)]
pub enum GateDecision {
    /// Track this process.
    Accept(AcceptedProcess),
    /// Don't track it, for the given reason.
    Reject(RejectionReason),
}

/// The mathematical content of a [`GateDecision`].
pub enum DecisionView {
    Accept {
        executable_path: Seq<char>,
        graphics_libraries: GraphicsLibraries,
        attribution: Option<AttributionView>,
    },
    Reject(RejectionReason),
}

impl View for GateDecision {
    type V = DecisionView;

    open spec fn view(&self) -> DecisionView {
        match self {
            GateDecision::Accept(a) => DecisionView::Accept {
                executable_path: a.executable_path@,
                graphics_libraries: a.graphics_libraries,
                attribution: attribution_view(a.attribution),
            },
            GateDecision::Reject(r) => DecisionView::Reject(*r),
        }
    }
}

// ---------------------------------------------------------------------
// The decision, stated.
// ---------------------------------------------------------------------

/// The executable's basename is blocklisted.
pub open spec fn blocklisted(exe: Seq<char>, blocklist: Seq<Seq<char>>) -> bool {
    match file_name(exe) {
        Some(n) => blocklist.contains(n),
        None => false,
    }
}

/// Some variable of `env` is named in `names`.
pub open spec fn env_has_any(env: Map<Seq<char>, Seq<char>>, names: Seq<Seq<char>>) -> bool {
    exists|k: Seq<char>| #[trigger] env.contains_key(k) && names.contains(k)
}

/// `env` attributes the process to a real Steam app: one of the
/// launcher variables holds a nonzero appid (after trimming).
pub open spec fn steam_attributed(
    env: Map<Seq<char>, Seq<char>>,
    launcher_vars: Seq<Seq<char>>,
) -> bool {
    exists|i: int|
        0 <= i < launcher_vars.len() && env.contains_key(#[trigger] launcher_vars[i]) && match parse_u64(
            trim(env[launcher_vars[i]]),
        ) {
            Some(n) => n != 0,
            None => false,
        }
}

/// `env` carries some launcher-attribution variable, Steam or
/// foreground-source, by presence.
pub open spec fn has_attribution(env: Map<Seq<char>, Seq<char>>, cfg: GateConfigView) -> bool {
    env_has_any(env, cfg.launcher_env_vars) || env_has_any(
        env,
        cfg.foreground_source_launcher_env_vars,
    )
}

/// The foreground-source launcher identity `env` carries: a non-blank
/// `HEROIC_APP_NAME`, else a non-blank `LUTRIS_GAME_UUID`.
pub open spec fn attribution_of(env: Map<Seq<char>, Seq<char>>) -> Option<AttributionView> {
    if env.contains_key("HEROIC_APP_NAME"@) && trim(env["HEROIC_APP_NAME"@]).len() > 0 {
        Some(AttributionView::Heroic(trim(env["HEROIC_APP_NAME"@])))
    } else if env.contains_key("LUTRIS_GAME_UUID"@) && trim(env["LUTRIS_GAME_UUID"@]).len() > 0 {
        Some(AttributionView::Lutris(trim(env["LUTRIS_GAME_UUID"@])))
    } else {
        None
    }
}

/// The game check's decision on explicit inputs.
pub open spec fn gate_decision(
    exe: Option<Seq<char>>,
    env: Option<Map<Seq<char>, Seq<char>>>,
    libs: Option<GraphicsLibraries>,
    gpu_memory: u64,
    window_is_fullscreen: bool,
    gamescope_ancestry: bool,
    cfg: GateConfigView,
) -> DecisionView {
    match exe {
        None => DecisionView::Reject(RejectionReason::ExeUnreadable),
        Some(e) => if blocklisted(e, cfg.blocklist) {
            DecisionView::Reject(RejectionReason::Blocklisted)
        } else if env is Some && !env_has_any(env->0, cfg.foreground_source_launcher_env_vars)
            && steam_attributed(env->0, cfg.launcher_env_vars) {
            DecisionView::Reject(RejectionReason::AttributedToLauncher)
        } else if libs is None && !gamescope_ancestry {
            DecisionView::Reject(RejectionReason::MapsUnreadable)
        } else {
            let l = match libs {
                Some(l) => l,
                None => no_libraries(),
            };
            if !l.any_spec() && !gamescope_ancestry {
                DecisionView::Reject(RejectionReason::NoGraphicsLibrary)
            } else if !(window_is_fullscreen || gamescope_ancestry) && gpu_memory
                < cfg.gpu_memory_threshold_bytes {
                DecisionView::Reject(RejectionReason::NotFullscreenAndLowGpu)
            } else {
                DecisionView::Accept {
                    executable_path: e,
                    graphics_libraries: l,
                    attribution: match env {
                        Some(m) => attribution_of(m),
                        None => None,
                    },
                }
            }
        },
    }
}

// ---------------------------------------------------------------------
// The decision, computed.
// ---------------------------------------------------------------------

/// Whether `key` is one of `names`.
pub fn names_contain(names: &Vec<String>, key: &[char]) -> (r: bool)
    ensures
        r == names_of(names@).contains(key@),
{
    let ghost nv = names_of(names@);
    let mut i: usize = 0;
    while i < names.len()
        invariant
            i <= names@.len(),
            nv == names_of(names@),
            forall|j: int| 0 <= j < i ==> nv[j] != key@,
        decreases names.len() - i,
    {
        let c = chars_of(names[i].as_str());
        if chars_eq(c.as_slice(), key) {
            assert(nv[i as int] == key@);
            return true;
        }
        i += 1;
    }
    assert(!nv.contains(key@)) by {
        if nv.contains(key@) {
            let j = choose|j: int| 0 <= j < nv.len() && nv[j] == key@;
            assert(nv[j] != key@);
        }
    }
    false
}

/// Whether the basename of `exe` is in `blocklist`.
pub fn is_blocklisted(exe: &str, blocklist: &Vec<String>) -> (r: bool)
    ensures
        r == blocklisted(exe@, names_of(blocklist@)),
{
    let e = chars_of(exe);
    match file_name_chars(e.as_slice()) {
        Some(name) => names_contain(blocklist, name.as_slice()),
        None => false,
    }
}

/// Whether `comm` names the gamescope compositor.
pub fn is_gamescope_comm(comm: &str) -> (r: bool)
    ensures
        r == gamescope_comms().contains(comm@),
{
    let c = chars_of(comm);
    let a = chars_of("gamescope");
    let b = chars_of("gamescope-wl");
    let r = chars_eq(c.as_slice(), a.as_slice()) || chars_eq(c.as_slice(), b.as_slice());
    proof {
        let g = gamescope_comms();
        if g.contains(comm@) {
            let j = choose|j: int| 0 <= j < g.len() && g[j] == comm@;
            assert(j == 0 || j == 1);
        }
        if r {
            if c@ == a@ {
                assert(g[0] == comm@);
            } else {
                assert(g[1] == comm@);
            }
        }
    }
    r
}

/// Whether `env` attributes the process to a real Steam app — one the
/// Steam content-log source tracks — as opposed to a non-Steam game added
/// to Steam as a shortcut (whose appid is zero).
pub fn attributed_to_steam(env: &Environ, config: &GateConfig) -> (r: bool)
    ensures
        r == steam_attributed(env@, config@.launcher_env_vars),
{
    let ghost lv = config@.launcher_env_vars;
    let mut i: usize = 0;
    while i < config.launcher_env_vars.len()
        invariant
            i <= config.launcher_env_vars@.len(),
            lv == names_of(config.launcher_env_vars@),
            forall|j: int|
                0 <= j < i ==> !(env@.contains_key(#[trigger] lv[j]) && match parse_u64(
                    trim(env@[lv[j]]),
                ) {
                    Some(n) => n != 0,
                    None => false,
                }),
        decreases config.launcher_env_vars.len() - i,
    {
        let key = config.launcher_env_vars[i].as_str();
        if let Some(v) = env.get(key) {
            let vc = chars_of(v.as_str());
            let t = trim_chars(vc.as_slice());
            if let Some(appid) = parse_u64_chars(t.as_slice()) {
                if appid != 0 {
                    assert(lv[i as int] == key@);
                    return true;
                }
            }
        }
        assert(lv[i as int] == key@);
        i += 1;
    }
    false
}

/// Whether `env` carries any launcher-attribution variable at all — a
/// Steam appid variable or a foreground-source launcher id, by presence.
pub fn has_launcher_attribution(env: &Environ, config: &GateConfig) -> (r: bool)
    ensures
        r == has_attribution(env@, config@),
{
    env.has_any_name_in(&config.launcher_env_vars) || env.has_any_name_in(
        &config.foreground_source_launcher_env_vars,
    )
}

/// Index of the first environment in `envs` that carries attribution,
/// or `envs.len()`.
pub open spec fn first_attributed(envs: Seq<Environ>, cfg: GateConfigView) -> int
    decreases envs.len(),
{
    if envs.len() == 0 {
        0
    } else if has_attribution(envs[0]@, cfg) {
        0
    } else {
        1 + first_attributed(envs.drop_first(), cfg)
    }
}

proof fn lemma_first_attributed(envs: Seq<Environ>, cfg: GateConfigView, i: int)
    requires
        0 <= i <= envs.len(),
        forall|j: int| 0 <= j < i ==> !has_attribution(#[trigger] envs[j]@, cfg),
        i < envs.len() ==> has_attribution(envs[i]@, cfg),
    ensures
        first_attributed(envs, cfg) == i,
    decreases envs.len(),
{
    if envs.len() > 0 && i > 0 {
        assert forall|j: int| 0 <= j < i - 1 implies !has_attribution(
            #[trigger] envs.drop_first()[j]@,
            cfg,
        ) by {
            assert(envs.drop_first()[j] == envs[j + 1]);
        }
        lemma_first_attributed(envs.drop_first(), cfg, i - 1);
    }
}

/// The environment that carries a window's launcher attribution: `own`
/// when it has any attribution variable, otherwise the nearest ancestor
/// environment (ancestors listed nearest first) that has one, otherwise
/// `own` unchanged.
pub open spec fn resolved_environ(
    own: Environ,
    ancestors: Seq<Environ>,
    cfg: GateConfigView,
) -> Map<Seq<char>, Seq<char>> {
    if has_attribution(own@, cfg) {
        own@
    } else if first_attributed(ancestors, cfg) < ancestors.len() {
        ancestors[first_attributed(ancestors, cfg)]@
    } else {
        own@
    }
}

/// Resolve the environment that carries a window's launcher
/// attribution. A game may re-exec itself with the launcher variables
/// stripped from its own environment while an ancestor in its launch
/// chain keeps them; falling back to the nearest such ancestor keeps the
/// game from being counted a second time as a native window.
pub fn resolve_attribution_environ(
    own: Environ,
    ancestors: Vec<Environ>,
    config: &GateConfig,
) -> (r: Environ)
    ensures
        r@ == resolved_environ(own, ancestors@, config@),
{
    if has_launcher_attribution(&own, config) {
        return own;
    }
    let ghost anc = ancestors@;
    let mut chain = ancestors;
    let mut i: usize = 0;
    while i < chain.len()
        invariant
            i <= chain@.len(),
            chain@ == anc,
            anc == ancestors@,
            !has_attribution(own@, config@),
            forall|j: int| 0 <= j < i ==> !has_attribution(#[trigger] anc[j]@, config@),
        decreases chain.len() - i,
    {
        if has_launcher_attribution(&chain[i], config) {
            proof {
                lemma_first_attributed(anc, config@, i as int);
            }
            return chain.remove(i);
        }
        i += 1;
    }
    proof {
        lemma_first_attributed(anc, config@, i as int);
    }
    own
}

/// The value of `key` in `env`, trimmed, when non-blank.
fn trimmed_nonblank(env: &Environ, key: &str) -> (r: Option<String>)
    ensures
        match r {
            Some(s) => env@.contains_key(key@) && trim(env@[key@]).len() > 0 && s@ == trim(
                env@[key@],
            ),
            None => !(env@.contains_key(key@) && trim(env@[key@]).len() > 0),
        },
{
    match env.get(key) {
        Some(v) => {
            let vc = chars_of(v.as_str());
            let t = trim_chars(vc.as_slice());
            if t.len() == 0 {
                None
            } else {
                Some(string_of_chars(&t))
            }
        },
        None => None,
    }
}

/// Extract a foreground-source launcher's id from the environment.
pub fn extract_launcher_attribution(env: &Environ) -> (r: Option<LauncherAttribution>)
    ensures
        attribution_view(r) == attribution_of(env@),
{
    if let Some(name) = trimmed_nonblank(env, "HEROIC_APP_NAME") {
        return Some(LauncherAttribution::Heroic { app_name: name });
    }
    if let Some(uuid) = trimmed_nonblank(env, "LUTRIS_GAME_UUID") {
        return Some(LauncherAttribution::Lutris { uuid });
    }
    None
}

/// The game check's decision from explicit observations.
///
/// `gamescope_ancestry` signals that the process runs inside a nested
/// gamescope compositor: the fullscreen/GPU requirement is bypassed and a
/// missing `maps` read or graphics library degrades to accept.
pub fn decide_from_inputs(
    exe: Option<&str>,
    environ: Option<&Environ>,
    libs: Option<GraphicsLibraries>,
    gpu: Option<&GpuSummary>,
    window_is_fullscreen: bool,
    gamescope_ancestry: bool,
    config: &GateConfig,
) -> (r: GateDecision)
    ensures
        r@ == gate_decision(
            match exe {
                Some(e) => Some(e@),
                None => None,
            },
            match environ {
                Some(e) => Some(e@),
                None => None,
            },
            libs,
            match gpu {
                Some(g) => g.memory_bytes,
                None => 0,
            },
            window_is_fullscreen,
            gamescope_ancestry,
            config@,
        ),
{
    let exe_path = match exe {
        Some(e) => e,
        None => return GateDecision::Reject(RejectionReason::ExeUnreadable),
    };
    if is_blocklisted(exe_path, &config.blocklist) {
        return GateDecision::Reject(RejectionReason::Blocklisted);
    }
    if let Some(env) = environ {
        let foreground_attributed = env.has_any_name_in(
            &config.foreground_source_launcher_env_vars,
        );
        if !foreground_attributed && attributed_to_steam(env, config) {
            return GateDecision::Reject(RejectionReason::AttributedToLauncher);
        }
    }
    let libs = match libs {
        Some(l) => l,
        None => if gamescope_ancestry {
            GraphicsLibraries::default()
        } else {
            return GateDecision::Reject(RejectionReason::MapsUnreadable);
        },
    };
    if !libs.any() && !gamescope_ancestry {
        return GateDecision::Reject(RejectionReason::NoGraphicsLibrary);
    }
    if !(window_is_fullscreen || gamescope_ancestry) {
        let memory = match gpu {
            Some(g) => g.memory_bytes,
            None => 0,
        };
        if memory < config.gpu_memory_threshold_bytes {
            return GateDecision::Reject(RejectionReason::NotFullscreenAndLowGpu);
        }
    }
    let attribution = match environ {
        Some(env) => extract_launcher_attribution(env),
        None => None,
    };
    GateDecision::Accept(
        AcceptedProcess {
            executable_path: exe_path.to_owned(),
            graphics_libraries: libs,
            attribution,
        },
    )
}

// ---------------------------------------------------------------------
// Laws of the decision.
// ---------------------------------------------------------------------

/// A process is accepted only when every check passes: its executable
/// was read and is not blocklisted, it is not a real Steam app's process
/// (unless a foreground-source launcher claims it), and either it runs
/// under gamescope or it maps a graphics library and is fullscreen or
/// over the GPU-memory threshold.
pub proof fn lemma_accept_passes_every_check(
    exe: Option<Seq<char>>,
    env: Option<Map<Seq<char>, Seq<char>>>,
    libs: Option<GraphicsLibraries>,
    gpu_memory: u64,
    window_is_fullscreen: bool,
    gamescope_ancestry: bool,
    cfg: GateConfigView,
)
    requires
        gate_decision(exe, env, libs, gpu_memory, window_is_fullscreen, gamescope_ancestry, cfg) is Accept,
    ensures
        exe is Some,
        !blocklisted(exe->0, cfg.blocklist),
        env matches Some(m) ==> (env_has_any(m, cfg.foreground_source_launcher_env_vars)
            || !steam_attributed(m, cfg.launcher_env_vars)),
        gamescope_ancestry || (libs matches Some(l) && l.any_spec() && (window_is_fullscreen
            || gpu_memory >= cfg.gpu_memory_threshold_bytes)),
{
}

/// The blocklist wins over every other signal: fullscreen, GPU use,
/// gamescope ancestry and launcher attribution cannot admit a
/// blocklisted executable.
pub proof fn lemma_blocklist_always_rejects(
    exe: Seq<char>,
    env: Option<Map<Seq<char>, Seq<char>>>,
    libs: Option<GraphicsLibraries>,
    gpu_memory: u64,
    window_is_fullscreen: bool,
    gamescope_ancestry: bool,
    cfg: GateConfigView,
)
    requires
        blocklisted(exe, cfg.blocklist),
    ensures
        gate_decision(Some(exe), env, libs, gpu_memory, window_is_fullscreen, gamescope_ancestry, cfg)
            == DecisionView::Reject(RejectionReason::Blocklisted),
{
}

/// A foreground-source launcher's variable overrides Steam attribution:
/// an environ that names one is never rejected as a Steam app's process.
pub proof fn lemma_foreground_launcher_overrides_steam(
    exe: Seq<char>,
    env: Map<Seq<char>, Seq<char>>,
    libs: Option<GraphicsLibraries>,
    gpu_memory: u64,
    window_is_fullscreen: bool,
    gamescope_ancestry: bool,
    cfg: GateConfigView,
)
    requires
        env_has_any(env, cfg.foreground_source_launcher_env_vars),
    ensures
        gate_decision(Some(exe), Some(env), libs, gpu_memory, window_is_fullscreen, gamescope_ancestry, cfg)
            != DecisionView::Reject(RejectionReason::AttributedToLauncher),
{
}

/// The default blocklist holds exactly the desktop's own binaries: the
/// KDE Plasma and GNOME shells and services, the X servers, and this
/// daemon and its client.
pub proof fn lemma_default_blocklist_members()
    ensures
        default_blocklist_names().len() == 20,
        default_blocklist_names().contains("kwin_wayland"@),
        default_blocklist_names().contains("kwin_x11"@),
        default_blocklist_names().contains("plasmashell"@),
        default_blocklist_names().contains("kded5"@),
        default_blocklist_names().contains("kded6"@),
        default_blocklist_names().contains("krunner"@),
        default_blocklist_names().contains("kactivitymanagerd"@),
        default_blocklist_names().contains("kwalletd5"@),
        default_blocklist_names().contains("kwalletd6"@),
        default_blocklist_names().contains("ksmserver"@),
        default_blocklist_names().contains("systemsettings"@),
        default_blocklist_names().contains("systemsettings5"@),
        default_blocklist_names().contains("polkit-kde-authentication-agent-1"@),
        default_blocklist_names().contains("Xwayland"@),
        default_blocklist_names().contains("Xorg"@),
        default_blocklist_names().contains("gnome-shell"@),
        default_blocklist_names().contains("mutter"@),
        default_blocklist_names().contains("gdm-x-session"@),
        default_blocklist_names().contains("ludex-daemon"@),
        default_blocklist_names().contains("ludex"@),
{
    assert(default_blocklist_names()[0] == "kwin_wayland"@);
    assert(default_blocklist_names()[1] == "kwin_x11"@);
    assert(default_blocklist_names()[2] == "plasmashell"@);
    assert(default_blocklist_names()[3] == "kded5"@);
    assert(default_blocklist_names()[4] == "kded6"@);
    assert(default_blocklist_names()[5] == "krunner"@);
    assert(default_blocklist_names()[6] == "kactivitymanagerd"@);
    assert(default_blocklist_names()[7] == "kwalletd5"@);
    assert(default_blocklist_names()[8] == "kwalletd6"@);
    assert(default_blocklist_names()[9] == "ksmserver"@);
    assert(default_blocklist_names()[10] == "systemsettings"@);
    assert(default_blocklist_names()[11] == "systemsettings5"@);
    assert(default_blocklist_names()[12] == "polkit-kde-authentication-agent-1"@);
    assert(default_blocklist_names()[13] == "Xwayland"@);
    assert(default_blocklist_names()[14] == "Xorg"@);
    assert(default_blocklist_names()[15] == "gnome-shell"@);
    assert(default_blocklist_names()[16] == "mutter"@);
    assert(default_blocklist_names()[17] == "gdm-x-session"@);
    assert(default_blocklist_names()[18] == "ludex-daemon"@);
    assert(default_blocklist_names()[19] == "ludex"@);
}

/// The default variables: Steam attribution by `SteamAppId` and
/// `STEAM_COMPAT_APP_ID`, the foreground-source override by
/// `LUTRIS_GAME_UUID` and `HEROIC_APP_NAME`, and gamescope recognised as
/// `gamescope` or `gamescope-wl`; no other names.
pub proof fn lemma_default_names()
    ensures
        default_launcher_env_var_names().len() == 2,
        default_launcher_env_var_names().contains("SteamAppId"@),
        default_launcher_env_var_names().contains("STEAM_COMPAT_APP_ID"@),
        default_foreground_source_launcher_env_var_names().len() == 2,
        default_foreground_source_launcher_env_var_names().contains("LUTRIS_GAME_UUID"@),
        default_foreground_source_launcher_env_var_names().contains("HEROIC_APP_NAME"@),
        gamescope_comms().len() == 2,
        gamescope_comms().contains("gamescope"@),
        gamescope_comms().contains("gamescope-wl"@),
{
    assert(default_launcher_env_var_names()[0] == "SteamAppId"@);
    assert(default_launcher_env_var_names()[1] == "STEAM_COMPAT_APP_ID"@);
    assert(default_foreground_source_launcher_env_var_names()[0] == "LUTRIS_GAME_UUID"@);
    assert(default_foreground_source_launcher_env_var_names()[1] == "HEROIC_APP_NAME"@);
    assert(gamescope_comms()[0] == "gamescope"@);
    assert(gamescope_comms()[1] == "gamescope-wl"@);
}

/// A process that passes every check is accepted, with its executable,
/// the libraries it maps (none when only gamescope vouched for it) and
/// the launcher identity its environ carries: its executable was read
/// and is not blocklisted, it is not a real Steam app's process (unless a
/// foreground-source launcher claims it), and either it runs under
/// gamescope or it maps a graphics library and is fullscreen or over the
/// GPU-memory threshold.
pub proof fn lemma_every_check_passing_accepts(
    exe: Seq<char>,
    env: Option<Map<Seq<char>, Seq<char>>>,
    libs: Option<GraphicsLibraries>,
    gpu_memory: u64,
    window_is_fullscreen: bool,
    gamescope_ancestry: bool,
    cfg: GateConfigView,
)
    requires
        !blocklisted(exe, cfg.blocklist),
        env matches Some(m) ==> (env_has_any(m, cfg.foreground_source_launcher_env_vars)
            || !steam_attributed(m, cfg.launcher_env_vars)),
        gamescope_ancestry || (libs matches Some(l) && l.any_spec() && (window_is_fullscreen
            || gpu_memory >= cfg.gpu_memory_threshold_bytes)),
    ensures
        gate_decision(Some(exe), env, libs, gpu_memory, window_is_fullscreen, gamescope_ancestry, cfg)
            == (DecisionView::Accept {
            executable_path: exe,
            graphics_libraries: match libs {
                Some(l) => l,
                None => no_libraries(),
            },
            attribution: match env {
                Some(m) => attribution_of(m),
                None => None,
            },
        }),
{
}

/// The launcher identity an environ carries: a non-blank Heroic app name
/// (trimmed) wins over a non-blank Lutris game id (trimmed); blank or
/// missing values give none.
pub proof fn lemma_attribution_prefers_heroic(env: Map<Seq<char>, Seq<char>>, h: Seq<char>, l: Seq<char>)
    ensures
        env.contains_key("HEROIC_APP_NAME"@) && env["HEROIC_APP_NAME"@] == h && trim(h).len() > 0
            ==> attribution_of(env) == Some(AttributionView::Heroic(trim(h))),
        !(env.contains_key("HEROIC_APP_NAME"@) && trim(env["HEROIC_APP_NAME"@]).len() > 0)
            && env.contains_key("LUTRIS_GAME_UUID"@) && env["LUTRIS_GAME_UUID"@] == l && trim(l).len()
            > 0 ==> attribution_of(env) == Some(AttributionView::Lutris(trim(l))),
        !(env.contains_key("HEROIC_APP_NAME"@) && trim(env["HEROIC_APP_NAME"@]).len() > 0)
            && !(env.contains_key("LUTRIS_GAME_UUID"@) && trim(env["LUTRIS_GAME_UUID"@]).len() > 0)
            ==> attribution_of(env) is None,
{
}

} // verus!
