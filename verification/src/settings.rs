//! Persistent user settings and their change detection: a settings value
//! remembers the state it last saw saved and can say whether it has changed
//! since. Reading and writing the settings file lives outside the core.

use vstd::prelude::*;

verus! {

/// What to do with nodes the filter left invisible.
#[derive(Debug, Default, Clone, Copy, PartialEq, Eq, Structural)]
pub enum SearchFilterMode {
    #[default]
    GrayOut,
    Hide,
}

/// How a sound gets selected in the list.
#[derive(Debug, Default, Clone, Copy, PartialEq, Eq, Structural)]
pub enum SfxSelectMode {
    #[default]
    Hover,
    Click,
}

/// A half-open range of sound ids offered for bulk download.
#[derive(Debug, Clone, Copy, PartialEq, Eq, Structural)]
pub struct IdRange {
    pub start: u32,
    pub end: u32,
}

/// The persisted settings. `last_state` is the snapshot taken at the last
/// save; it is never itself saved, compared or snapshotted.
#[derive(Debug)]
pub struct PersistentSettings {
    pub gd_folder: String,
    pub search_filter_mode: SearchFilterMode,
    pub sfx_select_mode: SfxSelectMode,
    pub play_sfx_on_click: bool,
    pub locale: String,
    pub download_ids_range: IdRange,
    pub last_state: Option<Box<PersistentSettings>>,
}

/// Equality of the persisted fields: everything but `last_state`.
pub open spec fn same_settings(a: PersistentSettings, b: PersistentSettings) -> bool {
    &&& a.gd_folder@ == b.gd_folder@
    &&& a.search_filter_mode == b.search_filter_mode
    &&& a.sfx_select_mode == b.sfx_select_mode
    &&& a.play_sfx_on_click == b.play_sfx_on_click
    &&& a.locale@ == b.locale@
    &&& a.download_ids_range == b.download_ids_range
}

/// The persisted fields of `s`, with no snapshot attached.
pub open spec fn snapshot_of(s: PersistentSettings) -> PersistentSettings {
    PersistentSettings { last_state: None, ..s }
}

impl PartialEq for PersistentSettings {
    /// Settings compare by their persisted fields alone.
    fn eq(&self, other: &PersistentSettings) -> (r: bool) {
        self.gd_folder == other.gd_folder && self.search_filter_mode == other.search_filter_mode
            && self.sfx_select_mode == other.sfx_select_mode && self.play_sfx_on_click
            == other.play_sfx_on_click && self.locale == other.locale && self.download_ids_range
            == other.download_ids_range
    }
}

impl vstd::std_specs::cmp::PartialEqSpecImpl for PersistentSettings {
    open spec fn obeys_eq_spec() -> bool {
        true
    }

    open spec fn eq_spec(&self, other: &PersistentSettings) -> bool {
        same_settings(*self, *other)
    }
}

impl Default for PersistentSettings {
    fn default() -> (r: PersistentSettings)
        ensures
            r.gd_folder@ == Seq::<char>::empty(),
            r.search_filter_mode == SearchFilterMode::GrayOut,
            r.sfx_select_mode == SfxSelectMode::Hover,
            r.play_sfx_on_click,
            r.locale@ == "en_US"@,
            r.download_ids_range == (IdRange { start: 0, end: 14500 }),
            r.last_state is None,
    {
        PersistentSettings {
            gd_folder: String::new(),
            search_filter_mode: SearchFilterMode::GrayOut,
            sfx_select_mode: SfxSelectMode::Hover,
            play_sfx_on_click: true,
            locale: "en_US".to_owned(),
            download_ids_range: IdRange { start: 0, end: 14500 },
            last_state: None,
        }
    }
}

impl PersistentSettings {
    /// Copies the persisted fields; the copy carries no snapshot.
    pub fn clone(&self) -> (r: PersistentSettings)
        ensures
            r == snapshot_of(*self),
    {
        PersistentSettings {
            gd_folder: self.gd_folder.clone(),
            search_filter_mode: self.search_filter_mode,
            sfx_select_mode: self.sfx_select_mode,
            play_sfx_on_click: self.play_sfx_on_click,
            locale: self.locale.clone(),
            download_ids_range: self.download_ids_range,
            last_state: None,
        }
    }

    /// Have the persisted fields changed since the last snapshot? Before any
    /// snapshot was taken, the settings count as changed.
    pub fn has_changed(&self) -> (r: bool)
        ensures
            r == match self.last_state {
                None => true,
                Some(last) => !same_settings(*self, *last),
            },
    {
        match &self.last_state {
            None => true,
            Some(last) => !(*self == **last),
        }
    }

    /// Remembers the current persisted fields as the last saved state. The
    /// snapshot itself carries no nested snapshot.
    pub fn set_last_state(&mut self)
        ensures
            snapshot_of(*final(self)) == snapshot_of(*old(self)),
            final(self).last_state matches Some(last) && *last == snapshot_of(*old(self)),
    {
        let snap = PersistentSettings {
            gd_folder: self.gd_folder.clone(),
            search_filter_mode: self.search_filter_mode,
            sfx_select_mode: self.sfx_select_mode,
            play_sfx_on_click: self.play_sfx_on_click,
            locale: self.locale.clone(),
            download_ids_range: self.download_ids_range,
            last_state: None,
        };
        self.last_state = Some(Box::new(snap));
    }
}

/// The game folder for the settings, from whatever the folder discovery
/// found: the discovered path, or empty when there is none.
pub fn get_gd_folder(found: Option<String>) -> (r: String)
    ensures
        r@ == match found {
            Some(p) => p@,
            None => Seq::<char>::empty(),
        },
{
    match found {
        Some(p) => p,
        None => String::new(),
    }
}

/// Drops an optional value: how a snapshot field is treated when settings
/// are copied.
pub fn ignore_option<T>(_v: &Option<T>) -> (r: Option<T>)
    ensures
        r is None,
{
    None
}

} // verus!
