//! Identity of a tracked game: which launcher owns it and the id that
//! launcher uses for it.

use vstd::prelude::*;
use crate::text::{chars_eq, chars_of, copy_string};

verus! {

/// The launcher a game belongs to.
#[derive(Debug, Clone, Copy, PartialEq, Eq, Hash, Structural)]
pub enum LauncherType {
    /// A Steam app, identified by its appid.
    Steam,
    /// A native (or Wine) executable, identified by its path.
    Native,
    /// A Heroic game, identified by `HEROIC_APP_NAME`.
    Heroic,
    /// A Lutris game, identified by `LUTRIS_GAME_UUID`.
    Lutris,
    /// A Flatpak application, identified by its app id.
    Flatpak,
}

/// The identity sessions are keyed by: launcher plus launcher-specific id.
#[derive(Debug, PartialEq, Eq, Hash)]
pub struct GameKey {
    /// Which launcher owns the game.
    pub launcher_type: LauncherType,
    /// The launcher's own id for the game.
    pub launcher_id: String,
}

/// The mathematical content of a [`GameKey`].
pub type KeyView = (LauncherType, Seq<char>);

impl View for GameKey {
    type V = KeyView;

    open spec fn view(&self) -> KeyView {
        (self.launcher_type, self.launcher_id@)
    }
}

impl Clone for GameKey {
    fn clone(&self) -> (r: Self)
        ensures
            r@ == self@,
    {
        GameKey { launcher_type: self.launcher_type, launcher_id: copy_string(&self.launcher_id) }
    }
}

impl GameKey {
    /// Whether two keys are the same: same launcher, same id.
    pub fn same_as(&self, other: &GameKey) -> (r: bool)
        ensures
            r == (self@ == other@),
    {
        let a = chars_of(self.launcher_id.as_str());
        let b = chars_of(other.launcher_id.as_str());
        self.launcher_type == other.launcher_type && chars_eq(a.as_slice(), b.as_slice())
    }

    /// A key from its parts.
    pub fn new(launcher_type: LauncherType, launcher_id: String) -> (r: GameKey)
        ensures
            r@ == (launcher_type, launcher_id@),
    {
        GameKey { launcher_type, launcher_id }
    }

    /// The key of Steam app `appid`.
    pub fn steam(appid: &str) -> (r: GameKey)
        ensures
            r@ == (LauncherType::Steam, appid@),
    {
        GameKey { launcher_type: LauncherType::Steam, launcher_id: appid.to_owned() }
    }

    /// The key of the native executable at `path`.
    pub fn native(path: &str) -> (r: GameKey)
        ensures
            r@ == (LauncherType::Native, path@),
    {
        GameKey { launcher_type: LauncherType::Native, launcher_id: path.to_owned() }
    }

    /// The key of the Heroic game `app_name`.
    pub fn heroic(app_name: &str) -> (r: GameKey)
        ensures
            r@ == (LauncherType::Heroic, app_name@),
    {
        GameKey { launcher_type: LauncherType::Heroic, launcher_id: app_name.to_owned() }
    }

    /// The key of the Lutris game `uuid`.
    pub fn lutris(uuid: &str) -> (r: GameKey)
        ensures
            r@ == (LauncherType::Lutris, uuid@),
    {
        GameKey { launcher_type: LauncherType::Lutris, launcher_id: uuid.to_owned() }
    }
}

} // verus!
