//! In-memory configuration state: the window geometry, the night-mode
//! flag and the last-used asset folder.
//!
//! The viewer core only reads and writes these through the get/set calls
//! here; loading them from and persisting them to an on-disk store is the
//! outer layer's affair, which seeds a [`Storage`] with [`Storage::load`]
//! and writes changed values back after each set call.

use vstd::prelude::*;

use crate::geom::{Pos, Size};

verus! {

/// Window placement worth restoring on the next start.
#[derive(Clone, Copy, Debug, Eq, PartialEq, Structural)]
pub struct WinInfo {
    pub pos: Pos,
    pub size: Size,
}

/// Storage for configuration items.
pub struct Storage {
    win_info: Option<WinInfo>,
    night_mode: Option<bool>,
    asset_path: Option<String>,
}

impl Storage {
    /// The stored window placement, if any.
    pub closed spec fn spec_win_info(self) -> Option<WinInfo> {
        self.win_info
    }

    /// The stored night-mode flag, if any.
    pub closed spec fn spec_night_mode(self) -> Option<bool> {
        self.night_mode
    }

    /// The stored asset folder, if any.
    pub closed spec fn spec_asset_path(self) -> Option<String> {
        self.asset_path
    }

    /// Empty storage, with nothing set.
    pub fn new() -> (r: Storage)
        ensures
            r.spec_win_info() is None,
            r.spec_night_mode() is None,
            r.spec_asset_path() is None,
    {
        Storage { win_info: None, night_mode: None, asset_path: None }
    }

    /// Storage seeded with whatever the outer store had persisted.
    pub fn load(win_info: Option<WinInfo>, night_mode: Option<bool>, asset_path: Option<String>)
        -> (r: Storage)
        ensures
            r.spec_win_info() == win_info,
            r.spec_night_mode() == night_mode,
            r.spec_asset_path() == asset_path,
    {
        Storage { win_info, night_mode, asset_path }
    }

    /// Remember the window placement.
    pub fn set_win_info(&mut self, win_info: &WinInfo)
        ensures
            final(self).spec_win_info() == Some(*win_info),
            final(self).spec_night_mode() == old(self).spec_night_mode(),
            final(self).spec_asset_path() == old(self).spec_asset_path(),
    {
        self.win_info = Some(*win_info);
    }

    /// The remembered window placement, if any.
    pub fn get_win_info(&self) -> (r: Option<WinInfo>)
        ensures
            r == self.spec_win_info(),
    {
        self.win_info
    }

    /// Remember the night-mode flag.
    pub fn set_night_mode(&mut self, dark: bool)
        ensures
            final(self).spec_night_mode() == Some(dark),
            final(self).spec_win_info() == old(self).spec_win_info(),
            final(self).spec_asset_path() == old(self).spec_asset_path(),
    {
        self.night_mode = Some(dark);
    }

    /// The remembered night-mode flag, if any.
    pub fn get_night_mode(&self) -> (r: Option<bool>)
        ensures
            r == self.spec_night_mode(),
    {
        self.night_mode
    }

    /// Remember the last-used asset folder.
    pub fn set_asset_path(&mut self, path: String)
        ensures
            final(self).spec_asset_path() == Some(path),
            final(self).spec_win_info() == old(self).spec_win_info(),
            final(self).spec_night_mode() == old(self).spec_night_mode(),
    {
        self.asset_path = Some(path);
    }

    /// The remembered asset folder, if any, as text.
    pub fn get_asset_path(&self) -> (r: Option<String>)
        ensures
            r is Some <==> self.spec_asset_path() is Some,
            r matches Some(s) ==> self.spec_asset_path() matches Some(t) && s@ == t@,
    {
        match &self.asset_path {
            Some(p) => Some(p.clone()),
            None => None,
        }
    }
}

} // verus!
