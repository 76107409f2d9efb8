//! Player settings without audio levels: gameplay, video and accessibility choices.
use vstd::prelude::*;

verus! {

#[derive(Debug, Clone, Copy, PartialEq, Eq, Structural)]
pub struct GameplaySettings {
    pub show_round_timer: bool,
    pub auto_pause_on_focus_loss: bool,
}

impl Default for GameplaySettings {
    fn default() -> (r: Self)
        ensures
            r == (GameplaySettings { show_round_timer: true, auto_pause_on_focus_loss: true }),
    {
        GameplaySettings { show_round_timer: true, auto_pause_on_focus_loss: true }
    }
}

#[derive(Debug, Clone, Copy, PartialEq, Eq, Structural)]
pub struct VideoSettings {
    pub screen_shake_percent: u8,
    pub vsync: bool,
}

impl Default for VideoSettings {
    fn default() -> (r: Self)
        ensures
            r == (VideoSettings { screen_shake_percent: 100, vsync: true }),
    {
        VideoSettings { screen_shake_percent: 100, vsync: true }
    }
}

impl VideoSettings {
    /// Screen shake in percent, at most 100.
    pub fn clamped_screen_shake(self) -> (r: u8)
        ensures
            r == if self.screen_shake_percent < 100 { self.screen_shake_percent } else { 100 },
    {
        if self.screen_shake_percent < 100 {
            self.screen_shake_percent
        } else {
            100
        }
    }
}

#[derive(Debug, Clone, Copy, PartialEq, Eq, Structural)]
pub struct AccessibilitySettings {
    pub high_contrast_ui: bool,
    pub reduce_motion: bool,
}

impl Default for AccessibilitySettings {
    fn default() -> (r: Self)
        ensures
            r == (AccessibilitySettings { high_contrast_ui: false, reduce_motion: false }),
    {
        AccessibilitySettings { high_contrast_ui: false, reduce_motion: false }
    }
}

/// Version written into saved settings.
pub fn default_version() -> (r: u32)
    ensures
        r == 1,
{
    1
}

} // verus!
