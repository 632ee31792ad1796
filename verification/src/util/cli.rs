//! Command-line options shared by several commands.

use vstd::prelude::*;

use crate::config::ConfigData;

verus! {

/// The profile that a command runs under: the one named on the command line,
/// else the configured default, else `default`.
pub open spec fn chosen_profile(arg: Option<Seq<char>>, configured: Option<Seq<char>>) -> Seq<char> {
    match arg {
        Some(p) => p,
        None => match configured {
            Some(d) => d,
            None => "default"@,
        },
    }
}

/// The `--profile` option.
#[derive(Clone, Debug)]
pub struct ProfileArgs {
    pub profile: Option<String>,
}

impl ProfileArgs {
    /// The `--profile` value as a sequence of characters, if given.
    pub open spec fn profile_arg(&self) -> Option<Seq<char>> {
        match self.profile {
            Some(p) => Some(p@),
            None => None,
        }
    }

    /// The profile to use, given the stored settings.
    pub fn profile<'a>(&'a self, config_data: &'a ConfigData) -> (r: &'a str)
        ensures
            r@ == chosen_profile(self.profile_arg(), config_data@),
    {
        match &self.profile {
            Some(p) => p.as_str(),
            None => match config_data.default_profile() {
                Some(d) => d,
                None => "default",
            },
        }
    }
}

/// A profile named on the command line wins; without one, the configured
/// default applies; without that, the profile called `default`. So after
/// `set_default_profile(p)`, a command run without `--profile` uses `p`.
pub proof fn lemma_profile_precedence(arg: Seq<char>, configured: Option<Seq<char>>, p: Seq<char>)
    ensures
        chosen_profile(Some(arg), configured) == arg,
        chosen_profile(None, Some(p)) == p,
        chosen_profile(None, None) == "default"@,
{
}

} // verus!
