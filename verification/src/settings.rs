//! Explicit column-width settings.
//!
//! The caller reads its configuration file once, puts the raw values
//! here, and passes the value to the call sites that need widths:
//! there is no hidden global state in the library.

use vstd::prelude::*;

verus! {

/// Raw width settings as read from the user's configuration, absent
/// where the configuration does not mention them.
pub struct Settings {
    pub author_name_width: Option<u64>,
    pub author_rel_date_width: Option<u64>,
    pub modules_width: Option<u64>,
}

impl Settings {
    /// Settings for a configuration that sets nothing.
    pub fn new() -> (r: Settings)
        ensures
            r.author_name_width is None,
            r.author_rel_date_width is None,
            r.modules_width is None,
    {
        Settings { author_name_width: None, author_rel_date_width: None, modules_width: None }
    }
}

/// The column width of the author name: the configured value, or ten
/// columns where the configuration is silent.
pub fn author_name_width(settings: &Settings) -> (r: usize)
    ensures
        r == match settings.author_name_width {
            None => 10usize,
            Some(v) => v as usize,
        },
{
    match settings.author_name_width {
        None => 10,
        Some(v) => #[verifier::truncate] (v as usize),
    }
}

/// The column width of the relative author date: the configured
/// value, or zero where the configuration is silent.
pub fn author_rel_date_width(settings: &Settings) -> (r: usize)
    ensures
        r == match settings.author_rel_date_width {
            None => 0usize,
            Some(v) => v as usize,
        },
{
    match settings.author_rel_date_width {
        None => 0,
        Some(v) => #[verifier::truncate] (v as usize),
    }
}

/// The column width of the modules column: the configured value, or
/// thirty-five columns where the configuration is silent.
pub fn modules_width(settings: &Settings) -> (r: usize)
    ensures
        r == match settings.modules_width {
            None => 35usize,
            Some(v) => v as usize,
        },
{
    match settings.modules_width {
        None => 35,
        Some(v) => #[verifier::truncate] (v as usize),
    }
}

} // verus!
