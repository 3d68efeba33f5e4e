//! The look of the application.

use vstd::prelude::*;

verus! {

/// The colour scheme that the system reports.
#[derive(Clone, Copy, Debug, PartialEq, Eq, Structural)]
pub enum Mode {
    Unknown,
    Light,
    Dark,
}

/// The application's themes.
#[derive(Clone, Copy, Debug, PartialEq, Eq, Structural)]
pub enum Theme {
    Light,
    Dark,
}

/// The theme that mirrors the system's colour scheme; dark where the system
/// reports none.
pub fn celeste_theme(mode: Mode) -> (theme: Theme)
    ensures
        theme is Light <==> mode is Light,
{
    match mode {
        Mode::Light => Theme::Light,
        Mode::Dark | Mode::Unknown => Theme::Dark,
    }
}

} // verus!
