//! The application's color theme.

use vstd::prelude::*;

verus! {

/// Light or dark appearance.
#[derive(Clone, Copy, Debug, Default, PartialEq, Eq, Structural)]
pub enum ThemeMode {
    #[default]
    Light,
    Dark,
}

} // verus!
