//! The application's configuration record and its defaults.
use vstd::prelude::*;

verus! {

/// The rectangle of the screen that the capture loop samples.
#[derive(Debug, Clone, Copy, PartialEq, Eq)]
pub struct OcrConfig {
    pub capture_width: u32,
    pub capture_height: u32,
    pub capture_x: i32,
    pub capture_y: i32,
}

/// Key names bound to the global toggles.
#[derive(Debug, Clone)]
pub struct HotkeysConfig {
    pub toggle_box: String,
    pub toggle_action: String,
    pub exit_app: String,
}

/// Settings of the status overlay.
#[derive(Debug, Clone, Copy, PartialEq, Eq)]
pub struct UiConfig {
    pub enable_overlay: bool,
    pub status_x: i32,
    pub status_y: i32,
}

/// The whole configuration record.
#[derive(Debug, Clone)]
pub struct AppConfig {
    pub ocr: OcrConfig,
    pub hotkeys: HotkeysConfig,
    pub ui: UiConfig,
}

pub const DEFAULT_CAPTURE_WIDTH: u32 = 1162;
pub const DEFAULT_CAPTURE_HEIGHT: u32 = 586;
pub const DEFAULT_CAPTURE_X: i32 = 122;
pub const DEFAULT_CAPTURE_Y: i32 = 40;

impl AppConfig {
    /// Whether `self` is the record that `default` builds.
    pub open spec fn is_default(&self) -> bool {
        &&& self.ocr.capture_width == DEFAULT_CAPTURE_WIDTH
        &&& self.ocr.capture_height == DEFAULT_CAPTURE_HEIGHT
        &&& self.ocr.capture_x == DEFAULT_CAPTURE_X
        &&& self.ocr.capture_y == DEFAULT_CAPTURE_Y
        &&& self.hotkeys.toggle_box@ == "F3"@
        &&& self.hotkeys.toggle_action@ == "F4"@
        &&& self.hotkeys.exit_app@ == "F5"@
        &&& self.ui.enable_overlay
        &&& self.ui.status_x == 85
        &&& self.ui.status_y == 1
    }
}

impl Default for AppConfig {
    fn default() -> (r: Self)
        ensures
            r.is_default(),
    {
        AppConfig {
            ocr: OcrConfig {
                capture_width: DEFAULT_CAPTURE_WIDTH,
                capture_height: DEFAULT_CAPTURE_HEIGHT,
                capture_x: DEFAULT_CAPTURE_X,
                capture_y: DEFAULT_CAPTURE_Y,
            },
            hotkeys: HotkeysConfig {
                toggle_box: String::from_str("F3"),
                toggle_action: String::from_str("F4"),
                exit_app: String::from_str("F5"),
            },
            ui: UiConfig { enable_overlay: true, status_x: 85, status_y: 1 },
        }
    }
}

} // verus!
