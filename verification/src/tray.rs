//! Tray menu: the actions it may take and the state it displays.
use vstd::prelude::*;

use crate::record::Settings;
use crate::text::str_eq;

verus! {

/// Side effects a tray-menu action is allowed to take against the main panel.
/// `OpenSettings` must not activate the home view first.
#[derive(Debug, Clone, Copy, PartialEq, Eq, Structural)]
pub enum TrayMenuIntent {
    ShowMain,
    TogglePause,
    OpenSettings,
    Quit,
}

pub open spec fn tray_intent_of(action: Seq<char>) -> Option<TrayMenuIntent> {
    if action == "show"@ {
        Some(TrayMenuIntent::ShowMain)
    } else if action == "pause"@ {
        Some(TrayMenuIntent::TogglePause)
    } else if action == "settings"@ {
        Some(TrayMenuIntent::OpenSettings)
    } else if action == "quit"@ {
        Some(TrayMenuIntent::Quit)
    } else {
        None
    }
}

/// Map a tray action name to its intent; unknown names are an error naming
/// the action.
pub fn tray_menu_intent(action: &str) -> (r: Result<TrayMenuIntent, String>)
    ensures
        match tray_intent_of(action@) {
            Some(i) => r == Ok::<TrayMenuIntent, String>(i),
            None => r matches Err(e) && e@ == "unknown tray action: "@ + action@,
        },
{
    if str_eq(action, "show") {
        Ok(TrayMenuIntent::ShowMain)
    } else if str_eq(action, "pause") {
        Ok(TrayMenuIntent::TogglePause)
    } else if str_eq(action, "settings") {
        Ok(TrayMenuIntent::OpenSettings)
    } else if str_eq(action, "quit") {
        Ok(TrayMenuIntent::Quit)
    } else {
        let mut e = String::new();
        e.append("unknown tray action: ");
        e.append(action);
        Err(e)
    }
}

/// Window state the tray menu renders.
#[derive(Debug, Clone)]
pub struct TrayMenuState {
    pub paused: bool,
    pub theme: String,
    pub enable_blur: bool,
    pub blur_strength: i32,
    pub enable_animation: bool,
    pub panel_opacity: i32,
    pub language: String,
}

/// The tray state for the current pause flag and settings.
pub fn tray_menu_state(paused: bool, settings: &Settings) -> (r: TrayMenuState)
    ensures
        r.paused == paused,
        r.theme@ == settings.theme@,
        r.enable_blur == settings.enable_blur,
        r.blur_strength == settings.blur_strength,
        r.enable_animation == settings.enable_animation,
        r.panel_opacity == settings.panel_opacity,
        r.language@ == settings.language@,
{
    TrayMenuState {
        paused,
        theme: settings.theme.clone(),
        enable_blur: settings.enable_blur,
        blur_strength: settings.blur_strength,
        enable_animation: settings.enable_animation,
        panel_opacity: settings.panel_opacity,
        language: settings.language.clone(),
    }
}

} // verus!
