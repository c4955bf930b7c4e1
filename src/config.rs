use vstd::prelude::*;
use crate::theme::DEFAULT_NAME;

verus! {

/// Settings kept between sessions.
#[derive(Clone, Debug)]
pub struct Config {
    /// Name of the theme to start on.
    pub theme: String,
}

impl Config {
    /// Settings naming the default theme.
    pub fn new() -> (r: Config)
        ensures
            r.theme@ == DEFAULT_NAME@,
    {
        Config { theme: DEFAULT_NAME.to_owned() }
    }
}

} // verus!
