//! Stored application settings and the OAuth application credentials that
//! are read from the process environment.

use vstd::prelude::*;
use vstd::string::*;

use crate::util::AuthEnvironment;
use crate::text::{
    lemma_first_lookup_absent, lemma_first_lookup_index, lookup_pair_first, pair_lookup_first,
};

verus! {

/// Name of the settings file inside the application's configuration directory.
pub const CONFIG_DATA_PATH: &'static str = "config.toml";

/// Application settings kept between runs.
#[derive(Clone, Debug)]
pub struct ConfigData {
    default_profile: Option<String>,
}

impl View for ConfigData {
    /// The default profile's name, if one is set.
    type V = Option<Seq<char>>;

    closed spec fn view(&self) -> Option<Seq<char>> {
        match self.default_profile {
            Some(p) => Some(p@),
            None => None,
        }
    }
}

impl ConfigData {
    /// Settings with no default profile.
    pub fn new() -> (c: ConfigData)
        ensures
            c@ is None,
    {
        ConfigData { default_profile: None }
    }

    /// The default profile, if one is set.
    pub fn default_profile(&self) -> (r: Option<&str>)
        ensures
            match r {
                Some(p) => self@ == Some(p@),
                None => self@ is None,
            },
    {
        match &self.default_profile {
            Some(p) => Some(p.as_str()),
            None => None,
        }
    }

    /// Makes `profile` the default profile.
    pub fn set_default_profile(&mut self, profile: &str)
        ensures
            final(self)@ == Some(profile@),
    {
        self.default_profile = Some(profile.to_owned());
    }
}

impl Default for ConfigData {
    fn default() -> (c: ConfigData)
        ensures
            c@ is None,
    {
        ConfigData::new()
    }
}

/// What reading the settings file gave.
#[derive(Debug)]
pub enum ConfigFileRead {
    /// There is no settings file.
    Missing,
    /// The file exists but its contents could not be read as text.
    Unreadable,
    /// The file's text was parsed into these settings.
    Parsed(ConfigData),
    /// The file's text is not valid settings; holds the parser's message.
    Invalid(String),
}

/// The settings to use after reading the settings file: a missing or
/// unreadable file means default settings, parsed settings are used as
/// they are, and invalid contents are an error.
pub fn config_from_read(read: ConfigFileRead) -> (r: Result<ConfigData, String>)
    ensures
        match read {
            ConfigFileRead::Missing => (r matches Ok(c) && c@ is None),
            ConfigFileRead::Unreadable => (r matches Ok(c) && c@ is None),
            ConfigFileRead::Parsed(d) => (r matches Ok(c) && c@ == d@),
            ConfigFileRead::Invalid(m) => (r matches Err(e) && e@ == m@),
        },
{
    match read {
        ConfigFileRead::Missing => Ok(ConfigData::default()),
        ConfigFileRead::Unreadable => Ok(ConfigData::default()),
        ConfigFileRead::Parsed(d) => Ok(d),
        ConfigFileRead::Invalid(m) => Err(m),
    }
}

/// What the `set default-profile` command reports.
#[derive(Clone, Debug)]
pub enum DefaultProfileReport {
    /// The default profile was changed to the given name.
    NowSet(String),
    /// The default profile was left as the given name.
    Current(String),
    /// No default profile is set.
    NotSet,
}

impl DefaultProfileReport {
    /// The line shown to the user.
    pub open spec fn spec_message(self) -> Seq<char> {
        match self {
            DefaultProfileReport::NowSet(p) => "The current default profile is now ("@ + p@ + ")."@,
            DefaultProfileReport::Current(p) => "The current default profile is ("@ + p@ + ")."@,
            DefaultProfileReport::NotSet => "No default profile is set."@,
        }
    }

    /// The line shown to the user.
    pub fn message(&self) -> (m: String)
        ensures
            m@ == self.spec_message(),
    {
        match self {
            DefaultProfileReport::NowSet(p) => {
                let mut m = String::from_str("The current default profile is now (");
                m.append(p.as_str());
                m.append(").");
                m
            },
            DefaultProfileReport::Current(p) => {
                let mut m = String::from_str("The current default profile is (");
                m.append(p.as_str());
                m.append(").");
                m
            },
            DefaultProfileReport::NotSet => String::from_str("No default profile is set."),
        }
    }
}

/// The `set default-profile` command: with a profile name it becomes the
/// default; without one the settings are left alone and the current default
/// is reported.
pub fn default_profile_subcommand(config: &mut ConfigData, profile: Option<&str>) -> (r:
    DefaultProfileReport)
    ensures
        match profile {
            Some(p) => final(config)@ == Some(p@) && (r matches DefaultProfileReport::NowSet(q)
                && q@ == p@),
            None => final(config)@ == old(config)@ && match old(config)@ {
                Some(d) => (r matches DefaultProfileReport::Current(q) && q@ == d),
                None => r is NotSet,
            },
        },
{
    match profile {
        Some(p) => {
            config.set_default_profile(p);
            DefaultProfileReport::NowSet(p.to_owned())
        },
        None => match config.default_profile() {
            Some(d) => DefaultProfileReport::Current(d.to_owned()),
            None => DefaultProfileReport::NotSet,
        },
    }
}

/// Client id and secret of the OAuth application.
#[derive(Clone, Debug)]
pub struct OAuthClientCredentials {
    pub client_id: String,
    pub client_secret: String,
}

/// A snapshot of the process environment.
#[derive(Clone, Debug)]
pub struct EnvSnapshot {
    /// Variables whose values are valid Unicode, as name/value pairs.
    pub vars: Vec<(String, String)>,
    /// Variables whose values are not valid Unicode, each paired with its
    /// value written in `Debug` form.
    pub not_unicode: Vec<(String, String)>,
}

/// Why the OAuth application credentials could not be read.
#[derive(Clone, Debug)]
pub enum CredentialsError {
    /// The named environment variable is not set.
    MissingVar(String),
    /// The named environment variable's value, given in `Debug` form, is not
    /// valid Unicode.
    NotUnicode(String, String),
}

impl CredentialsError {
    /// The message shown to the user.
    pub open spec fn spec_message(self) -> Seq<char> {
        match self {
            CredentialsError::MissingVar(_) => "environment variable not found"@,
            CredentialsError::NotUnicode(_, v) => "environment variable was not valid unicode: "@
                + v@,
        }
    }

    /// The message shown to the user.
    pub fn message(&self) -> (m: String)
        ensures
            m@ == self.spec_message(),
    {
        match self {
            CredentialsError::MissingVar(_) => String::from_str("environment variable not found"),
            CredentialsError::NotUnicode(_, v) => {
                let mut m = String::from_str("environment variable was not valid unicode: ");
                m.append(v.as_str());
                m
            },
        }
    }
}

/// What reading variable `name` gives: its value, or why there is none
/// (`None` when it is not set, `Some(rendering)` when its value is not valid
/// Unicode). Where a name occurs more than once the first entry counts, as
/// for the process environment.
pub open spec fn env_var(env: EnvSnapshot, name: Seq<char>) -> Result<Seq<char>, Option<Seq<char>>> {
    match pair_lookup_first(env.vars@, name) {
        Some(v) => Ok(v),
        None => match pair_lookup_first(env.not_unicode@, name) {
            Some(r) => Err(Some(r)),
            None => Err(None),
        },
    }
}

/// A variable that is set is read back unchanged: when the first entry
/// named `name` among the valid variables is at `i`, reading the variable
/// gives exactly that entry's value.
pub proof fn lemma_env_var_reads_value(env: EnvSnapshot, name: Seq<char>, i: int)
    requires
        0 <= i < env.vars@.len(),
        env.vars@[i].0@ == name,
        forall|j: int| 0 <= j < i ==> (#[trigger] env.vars@[j]).0@ != name,
    ensures
        env_var(env, name) == Ok::<Seq<char>, Option<Seq<char>>>(env.vars@[i].1@),
{
    lemma_first_lookup_index(env.vars@, name, i);
}

/// A variable that appears in neither list is reported as not set.
pub proof fn lemma_env_var_absent(env: EnvSnapshot, name: Seq<char>)
    requires
        forall|j: int| 0 <= j < env.vars@.len() ==> (#[trigger] env.vars@[j]).0@ != name,
        forall|j: int| 0 <= j < env.not_unicode@.len() ==> (#[trigger] env.not_unicode@[j]).0@
            != name,
    ensures
        env_var(env, name) == Err::<Seq<char>, Option<Seq<char>>>(None),
{
    lemma_first_lookup_absent(env.vars@, name);
    lemma_first_lookup_absent(env.not_unicode@, name);
}

/// When both credential variables of an environment are set, the
/// credentials are exactly their values (the first entry of each name),
/// unchanged, whatever their length.
pub proof fn lemma_creds_are_var_values(env: EnvSnapshot, e: AuthEnvironment, i: int, k: int)
    requires
        0 <= i < env.vars@.len(),
        0 <= k < env.vars@.len(),
        env.vars@[i].0@ == e.client_id_var(),
        env.vars@[k].0@ == e.client_secret_var(),
        forall|j: int| 0 <= j < i ==> (#[trigger] env.vars@[j]).0@ != e.client_id_var(),
        forall|j: int| 0 <= j < k ==> (#[trigger] env.vars@[j]).0@ != e.client_secret_var(),
    ensures
        creds_from_vars(env, e.client_id_var(), e.client_secret_var()) == Ok::<
            (Seq<char>, Seq<char>),
            (Seq<char>, Option<Seq<char>>),
        >((env.vars@[i].1@, env.vars@[k].1@)),
{
    lemma_env_var_reads_value(env, e.client_id_var(), i);
    lemma_env_var_reads_value(env, e.client_secret_var(), k);
}

/// Reads one variable from the snapshot.
pub fn read_env_var(env: &EnvSnapshot, name: &str) -> (r: Result<String, CredentialsError>)
    ensures
        match env_var(*env, name@) {
            Ok(v) => (r matches Ok(s) && s@ == v),
            Err(None) => (r matches Err(CredentialsError::MissingVar(n)) && n@ == name@),
            Err(Some(rendering)) => (r matches Err(CredentialsError::NotUnicode(n, x)) && n@
                == name@ && x@ == rendering),
        },
{
    match lookup_pair_first(&env.vars, name) {
        Some(v) => Ok(v),
        None => match lookup_pair_first(&env.not_unicode, name) {
            Some(rendering) => Err(CredentialsError::NotUnicode(name.to_owned(), rendering)),
            None => Err(CredentialsError::MissingVar(name.to_owned())),
        },
    }
}

/// The credentials read from variables `id_name` and `secret_name`, or the
/// failed name (with the reason, as in `env_var`) of the first of the two
/// that cannot be read.
pub open spec fn creds_from_vars(env: EnvSnapshot, id_name: Seq<char>, secret_name: Seq<char>) -> Result<
    (Seq<char>, Seq<char>),
    (Seq<char>, Option<Seq<char>>),
> {
    match env_var(env, id_name) {
        Err(why) => Err((id_name, why)),
        Ok(id) => match env_var(env, secret_name) {
            Err(why) => Err((secret_name, why)),
            Ok(secret) => Ok((id, secret)),
        },
    }
}

/// Whether `r` is the outcome that `creds_from_vars` describes.
pub open spec fn creds_outcome(
    r: Result<OAuthClientCredentials, CredentialsError>,
    expected: Result<(Seq<char>, Seq<char>), (Seq<char>, Option<Seq<char>>)>,
) -> bool {
    match (r, expected) {
        (Ok(c), Ok((id, secret))) => c.client_id@ == id && c.client_secret@ == secret,
        (Err(CredentialsError::MissingVar(n)), Err((name, None))) => n@ == name,
        (Err(CredentialsError::NotUnicode(n, x)), Err((name, Some(rendering)))) => n@ == name
            && x@ == rendering,
        _ => false,
    }
}

impl AuthEnvironment {
    /// The environment variable holding the OAuth client id.
    pub open spec fn client_id_var(self) -> Seq<char> {
        match self {
            AuthEnvironment::Sandbox => "SANDBOX_CLIENT_ID"@,
            AuthEnvironment::Production => "CLIENT_ID"@,
        }
    }

    /// The environment variable holding the OAuth client secret.
    pub open spec fn client_secret_var(self) -> Seq<char> {
        match self {
            AuthEnvironment::Sandbox => "SANDBOX_CLIENT_SECRET"@,
            AuthEnvironment::Production => "CLIENT_SECRET"@,
        }
    }
}

fn creds_from_named_vars(env: &EnvSnapshot, id_name: &str, secret_name: &str) -> (r: Result<
    OAuthClientCredentials,
    CredentialsError,
>)
    ensures
        creds_outcome(r, creds_from_vars(*env, id_name@, secret_name@)),
{
    let client_id = match read_env_var(env, id_name) {
        Ok(v) => v,
        Err(e) => return Err(e),
    };
    let client_secret = match read_env_var(env, secret_name) {
        Ok(v) => v,
        Err(e) => return Err(e),
    };
    Ok(OAuthClientCredentials { client_id, client_secret })
}

/// Credentials of the sandbox application, from `SANDBOX_CLIENT_ID` and
/// `SANDBOX_CLIENT_SECRET`.
pub fn get_oauth_sandbox_creds(env: &EnvSnapshot) -> (r: Result<
    OAuthClientCredentials,
    CredentialsError,
>)
    ensures
        creds_outcome(
            r,
            creds_from_vars(
                *env,
                AuthEnvironment::Sandbox.client_id_var(),
                AuthEnvironment::Sandbox.client_secret_var(),
            ),
        ),
{
    creds_from_named_vars(env, "SANDBOX_CLIENT_ID", "SANDBOX_CLIENT_SECRET")
}

/// Credentials of the production application, from `CLIENT_ID` and
/// `CLIENT_SECRET`.
pub fn get_oauth_production_creds(env: &EnvSnapshot) -> (r: Result<
    OAuthClientCredentials,
    CredentialsError,
>)
    ensures
        creds_outcome(
            r,
            creds_from_vars(
                *env,
                AuthEnvironment::Production.client_id_var(),
                AuthEnvironment::Production.client_secret_var(),
            ),
        ),
{
    creds_from_named_vars(env, "CLIENT_ID", "CLIENT_SECRET")
}

/// Credentials of the OAuth application for `environment`.
pub fn get_oauth_creds(environment: &AuthEnvironment, env: &EnvSnapshot) -> (r: Result<
    OAuthClientCredentials,
    CredentialsError,
>)
    ensures
        creds_outcome(
            r,
            creds_from_vars(*env, environment.client_id_var(), environment.client_secret_var()),
        ),
{
    match environment {
        AuthEnvironment::Sandbox => get_oauth_sandbox_creds(env),
        AuthEnvironment::Production => get_oauth_production_creds(env),
    }
}

} // verus!
