//! Light and dark themes.

use vstd::prelude::*;

verus! {

/// The application theme.
#[derive(Debug, Clone, Copy, PartialEq, Eq, Structural)]
pub enum Theme {
    /// Light text on dark backgrounds.
    Dark,
    /// Dark text on light backgrounds.
    Light,
}

impl Theme {
    /// Whether the theme is dark.
    pub fn is_dark(&self) -> (r: bool)
        ensures
            r == (*self == Theme::Dark),
    {
        match self {
            Theme::Dark => true,
            Theme::Light => false,
        }
    }

    /// Whether the theme is light.
    pub fn is_light(&self) -> (r: bool)
        ensures
            r == (*self == Theme::Light),
    {
        match self {
            Theme::Dark => false,
            Theme::Light => true,
        }
    }
}

} // verus!
