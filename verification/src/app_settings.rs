//! The application-wide settings.
//!
//! There are two snapshots: what is on disk, or will be at the next save, and
//! what the window is drawn from. They differ only while unsaved edits are being
//! tried on. The edits are kept beside the saved settings, so that dropping them
//! is all it takes to go back.

use vstd::prelude::*;

use crate::erd_pane::copy_part;

verus! {

/// Who draws the title bar.
#[derive(Clone, Copy, Debug, PartialEq, Eq, Structural)]
pub enum TitlebarStyle {
    /// The application.
    Integrated,
    /// The platform.
    System,
}

/// What is saved of a window. The placement follows the live window; the rest is
/// the user's choice.
#[derive(Clone, Copy, Debug, PartialEq, Eq, Structural)]
pub struct WindowState {
    pub x: Option<i32>,
    pub y: Option<i32>,
    pub width: u32,
    pub height: u32,
    pub maximized: bool,
    /// The opacity of the background, by its bits.
    pub background_opacity: u32,
    pub background_blur: bool,
    pub titlebar: TitlebarStyle,
}

/// Where a window is.
#[derive(Clone, Copy, Debug, PartialEq, Eq, Structural)]
pub struct WindowGeometry {
    pub x: i32,
    pub y: i32,
    pub width: u32,
    pub height: u32,
    pub maximized: bool,
}

/// A window's state with a placement written into it: its appearance stays.
pub open spec fn placed(geometry: WindowGeometry, state: WindowState) -> WindowState {
    WindowState {
        x: Some(geometry.x),
        y: Some(geometry.y),
        width: geometry.width,
        height: geometry.height,
        maximized: geometry.maximized,
        ..state
    }
}

/// Whether a state already records a placement.
pub open spec fn records(geometry: WindowGeometry, state: WindowState) -> bool {
    placed(geometry, state) == state
}

/// The placement a state records, where it carries both coordinates.
pub open spec fn placement_of(state: WindowState) -> Option<WindowGeometry> {
    match (state.x, state.y) {
        (Some(x), Some(y)) => Some(
            WindowGeometry {
                x,
                y,
                width: state.width,
                height: state.height,
                maximized: state.maximized,
            },
        ),
        _ => None,
    }
}

/// Writes a placement into a window's state, leaving its appearance alone.
pub fn apply_to(geometry: WindowGeometry, state: &mut WindowState)
    ensures
        *final(state) == placed(geometry, *old(state)),
{
    state.x = Some(geometry.x);
    state.y = Some(geometry.y);
    state.width = geometry.width;
    state.height = geometry.height;
    state.maximized = geometry.maximized;
}

/// Whether a state already records a placement.
pub fn matches(geometry: WindowGeometry, state: &WindowState) -> (r: bool)
    ensures
        r == records(geometry, *state),
{
    let same_x = match state.x {
        Some(x) => x == geometry.x,
        None => false,
    };
    let same_y = match state.y {
        Some(y) => y == geometry.y,
        None => false,
    };
    same_x && same_y && state.width == geometry.width && state.height == geometry.height
        && state.maximized == geometry.maximized
}

/// The placement a state records, or none where it carries no position: the
/// platform picks one then.
pub fn saved_geometry(state: &WindowState) -> (r: Option<WindowGeometry>)
    ensures
        r == placement_of(*state),
{
    match (state.x, state.y) {
        (Some(x), Some(y)) => Some(
            WindowGeometry {
                x,
                y,
                width: state.width,
                height: state.height,
                maximized: state.maximized,
            },
        ),
        _ => None,
    }
}

/// A placement survives the trip through the settings, and the user's choices
/// survive it too.
pub proof fn a_placement_survives(geometry: WindowGeometry, state: WindowState)
    ensures
        placement_of(placed(geometry, state)) == Some(geometry),
        records(geometry, placed(geometry, state)),
        placed(geometry, state).background_opacity == state.background_opacity,
        placed(geometry, state).background_blur == state.background_blur,
        placed(geometry, state).titlebar == state.titlebar,
{
}

/// The settings, as far as they are read here.
#[derive(Debug)]
pub struct AppSettings {
    pub theme: String,
    /// The size of the interface's font, by its bits.
    pub ui_font_size: u32,
    /// Whether a new connection confirms writes.
    pub confirm_writes_default: bool,
    /// A release that is never to be mentioned again.
    pub ignored_update: Option<String>,
    /// The bridge, where another than the one that comes along is to be used.
    pub bridge_jar: String,
    pub window: WindowState,
}

impl AppSettings {
    /// A copy of the settings.
    pub fn copy(&self) -> (r: Self)
        ensures
            r == *self,
    {
        AppSettings {
            theme: self.theme.clone(),
            ui_font_size: self.ui_font_size,
            confirm_writes_default: self.confirm_writes_default,
            ignored_update: copy_part(&self.ignored_update),
            bridge_jar: self.bridge_jar.clone(),
            window: self.window,
        }
    }
}

/// The two snapshots.
#[derive(Debug)]
pub struct CurrentSettings {
    /// What is on disk, or will be.
    pub saved: AppSettings,
    /// Unsaved settings the window is drawn from.
    pub preview: Option<AppSettings>,
}

/// What the window is drawn from.
pub open spec fn drawn_from(settings: CurrentSettings) -> AppSettings {
    match settings.preview {
        Some(preview) => preview,
        None => settings.saved,
    }
}

impl CurrentSettings {
    /// Takes what could be read from disk, or the defaults where nothing could:
    /// the application starts whatever is on disk.
    pub fn init(loaded: Option<AppSettings>, defaults: AppSettings) -> (r: Self)
        ensures
            r == (CurrentSettings {
                saved: match loaded {
                    Some(settings) => settings,
                    None => defaults,
                },
                preview: None,
            }),
    {
        CurrentSettings {
            saved: match loaded {
                Some(settings) => settings,
                None => defaults,
            },
            preview: None,
        }
    }

    /// A snapshot of the settings that are, or will be, on disk.
    pub fn current(&self) -> (r: AppSettings)
        ensures
            r == self.saved,
    {
        self.saved.copy()
    }

    /// Takes other settings in place of these.
    pub fn replace(&mut self, settings: AppSettings)
        ensures
            *final(self) == (CurrentSettings { saved: settings, ..*old(self) }),
    {
        self.saved = settings;
    }

    /// A snapshot of the settings the interface is drawn from.
    pub fn effective(&self) -> (r: AppSettings)
        ensures
            r == drawn_from(*self),
    {
        match &self.preview {
            Some(preview) => preview.copy(),
            None => self.saved.copy(),
        }
    }

    /// Shows settings without saving them.
    pub fn set_preview(&mut self, settings: AppSettings)
        ensures
            *final(self) == (CurrentSettings { preview: Some(settings), ..*old(self) }),
    {
        self.preview = Some(settings);
    }

    /// Drops what is being tried on, if anything is.
    pub fn clear_preview(&mut self)
        ensures
            *final(self) == (CurrentSettings { preview: None, ..*old(self) }),
    {
        self.preview = None;
    }

    /// Records where the window is. Says whether anything changed: a window that
    /// repaints and has not moved changes nothing.
    pub fn record_window_geometry(&mut self, geometry: WindowGeometry) -> (r: bool)
        ensures
            r == !records(geometry, old(self).saved.window),
            *final(self) == (CurrentSettings {
                saved: AppSettings {
                    window: placed(geometry, old(self).saved.window),
                    ..old(self).saved
                },
                ..*old(self)
            }),
    {
        if matches(geometry, &self.saved.window) {
            return false;
        }
        apply_to(geometry, &mut self.saved.window);
        true
    }

    /// The release that is never to be mentioned again.
    pub fn ignored(&self) -> (r: Option<String>)
        ensures
            r == self.saved.ignored_update,
    {
        copy_part(&self.saved.ignored_update)
    }

    /// Takes note of a release that is never to be mentioned again. The settings
    /// are to be written at once.
    pub fn set_ignored(&mut self, tag: Option<String>)
        ensures
            *final(self) == (CurrentSettings {
                saved: AppSettings { ignored_update: tag, ..old(self).saved },
                ..*old(self)
            }),
    {
        self.saved.ignored_update = tag;
    }
}

/// Cancelling is free: what is tried on hides the saved settings from everything
/// that draws and from nothing that saves, and dropping it brings them back,
/// however often it is dropped.
pub proof fn dropping_a_preview_brings_the_settings_back(
    settings: CurrentSettings,
    tried: AppSettings,
)
    requires
        settings.preview is None,
    ensures
        ({
            let trying = CurrentSettings { preview: Some(tried), ..settings };
            let dropped = CurrentSettings { preview: None, ..trying };
            &&& drawn_from(trying) == tried
            &&& trying.saved == settings.saved
            &&& dropped == settings
            &&& drawn_from(dropped) == settings.saved
            &&& (CurrentSettings { preview: None, ..dropped }) == dropped
        }),
{
}

/// Saving what was tried on and dropping it leave one answer, and so does every
/// step on the way.
pub proof fn saving_and_dropping_agree(settings: CurrentSettings, tried: AppSettings)
    ensures
        ({
            let trying = CurrentSettings { preview: Some(tried), ..settings };
            let saved = CurrentSettings { saved: tried, ..trying };
            let dropped = CurrentSettings { preview: None, ..saved };
            &&& drawn_from(trying) == tried
            &&& drawn_from(saved) == tried
            &&& drawn_from(dropped) == tried
            &&& dropped.saved == tried
        }),
{
}

} // verus!
