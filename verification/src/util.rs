//! The QuickBooks environments a profile can be bound to, and the fixed
//! endpoints that belong to each of them; the login and secret-store rules
//! and the shared command-line options live in the submodules.

pub mod auth;
pub mod cli;
pub mod secrets;

use vstd::prelude::*;
use vstd::string::*;

use crate::text::{ascii_fold, eq_ignore_ascii_case, str_eq, str_eq_ignore_ascii_case};

verus! {

/// Which QuickBooks environment to authenticate against.
#[derive(Clone, Copy, Debug, PartialEq, Eq, Structural)]
pub enum AuthEnvironment {
    Sandbox,
    Production,
}

/// Whether a candidate `input` names the value whose canonical name is `name`.
pub open spec fn name_matches(name: Seq<char>, input: Seq<char>, ignore_case: bool) -> bool {
    if ignore_case {
        eq_ignore_ascii_case(name, input)
    } else {
        name == input
    }
}

/// The environment that a command-line value selects: the first variant,
/// in declaration order, whose name matches.
pub open spec fn parsed_environment(input: Seq<char>, ignore_case: bool) -> Option<AuthEnvironment> {
    if name_matches(AuthEnvironment::Sandbox.arg_name(), input, ignore_case) {
        Some(AuthEnvironment::Sandbox)
    } else if name_matches(AuthEnvironment::Production.arg_name(), input, ignore_case) {
        Some(AuthEnvironment::Production)
    } else {
        None
    }
}

impl AuthEnvironment {
    /// The value's name on the command line and in the secret store.
    pub open spec fn arg_name(self) -> Seq<char> {
        match self {
            AuthEnvironment::Sandbox => "sandbox"@,
            AuthEnvironment::Production => "production"@,
        }
    }

    /// Base URL of the REST API for this environment.
    pub open spec fn rest_base(self) -> Seq<char> {
        match self {
            AuthEnvironment::Sandbox => "https://sandbox-quickbooks.api.intuit.com/"@,
            AuthEnvironment::Production => "https://quickbooks.api.intuit.com/"@,
        }
    }

    /// OpenID discovery document URL for this environment.
    pub open spec fn discovery(self) -> Seq<char> {
        match self {
            AuthEnvironment::Sandbox => "https://developer.api.intuit.com/.well-known/openid_sandbox_configuration"@,
            AuthEnvironment::Production => "https://developer.api.intuit.com/.well-known/openid_configuration"@,
        }
    }

    /// The name under which the environment is given on the command line.
    pub fn arg_string(&self) -> (s: String)
        ensures
            s@ == self.arg_name(),
    {
        match self {
            AuthEnvironment::Sandbox => String::from_str("sandbox"),
            AuthEnvironment::Production => String::from_str("production"),
        }
    }

    /// Reads an environment from its name, comparing ASCII letters without
    /// case when `ignore_case` is set. An unknown name gives the message
    /// `invalid variant: <input>`.
    pub fn from_str(input: &str, ignore_case: bool) -> (r: Result<AuthEnvironment, String>)
        ensures
            match r {
                Ok(e) => parsed_environment(input@, ignore_case) == Some(e),
                Err(msg) => parsed_environment(input@, ignore_case) is None
                    && msg@ == "invalid variant: "@ + input@,
            },
    {
        if Self::matches_name("sandbox", input, ignore_case) {
            Ok(AuthEnvironment::Sandbox)
        } else if Self::matches_name("production", input, ignore_case) {
            Ok(AuthEnvironment::Production)
        } else {
            let mut msg = String::from_str("invalid variant: ");
            msg.append(input);
            Err(msg)
        }
    }

    fn matches_name(name: &str, input: &str, ignore_case: bool) -> (r: bool)
        ensures
            r == name_matches(name@, input@, ignore_case),
    {
        if ignore_case {
            str_eq_ignore_ascii_case(name, input)
        } else {
            str_eq(name, input)
        }
    }

    /// Base URL of the QuickBooks REST API for this environment.
    pub fn rest_base_url(&self) -> (s: String)
        ensures
            s@ == self.rest_base(),
    {
        match self {
            AuthEnvironment::Sandbox => String::from_str("https://sandbox-quickbooks.api.intuit.com/"),
            AuthEnvironment::Production => String::from_str("https://quickbooks.api.intuit.com/"),
        }
    }

    /// URL of the OpenID discovery document for this environment.
    pub fn discovery_url(&self) -> (s: String)
        ensures
            s@ == self.discovery(),
    {
        match self {
            AuthEnvironment::Sandbox => String::from_str(
                "https://developer.api.intuit.com/.well-known/openid_sandbox_configuration",
            ),
            AuthEnvironment::Production => String::from_str(
                "https://developer.api.intuit.com/.well-known/openid_configuration",
            ),
        }
    }
}

/// Reading back the name that `arg_string` writes gives the same
/// environment, whether or not case is ignored.
pub proof fn lemma_arg_name_round_trip(e: AuthEnvironment, ignore_case: bool)
    ensures
        parsed_environment(e.arg_name(), ignore_case) == Some(e),
{
    reveal_strlit("sandbox");
    reveal_strlit("production");
    assert("sandbox"@.len() == 7);
    assert("production"@.len() == 10);
    let n = e.arg_name();
    assert(eq_ignore_ascii_case(n, n));
}

/// `s` is `name` with any of its ASCII lower-case letters written in upper case.
pub open spec fn upper_case_variant(s: Seq<char>, name: Seq<char>) -> bool {
    &&& s.len() == name.len()
    &&& forall|i: int|
        0 <= i < s.len() ==> (#[trigger] s[i] == name[i] || (97 <= name[i] as int <= 122
            && s[i] as int == name[i] as int - 32))
}

/// An environment's name with any of its letters in upper case is read as
/// that environment when case is ignored (so `SANDBOX`, `Sandbox` and
/// `PRODUCTION` are read as the environments they spell).
pub proof fn lemma_case_variants_parse(e: AuthEnvironment, s: Seq<char>)
    requires
        upper_case_variant(s, e.arg_name()),
    ensures
        parsed_environment(s, true) == Some(e),
{
    reveal_strlit("sandbox");
    reveal_strlit("production");
    assert("sandbox"@.len() == 7);
    assert("production"@.len() == 10);
    let n = e.arg_name();
    assert forall|i: int| 0 <= i < n.len() implies 97 <= #[trigger] n[i] as int <= 122 by {
        if e == AuthEnvironment::Sandbox {
            assert(n =~= seq!['s', 'a', 'n', 'd', 'b', 'o', 'x']);
        } else {
            assert(n =~= seq!['p', 'r', 'o', 'd', 'u', 'c', 't', 'i', 'o', 'n']);
        }
    }
    assert forall|i: int| 0 <= i < n.len() implies ascii_fold(#[trigger] n[i]) == ascii_fold(s[i]) by {
        assert(97 <= n[i] as int <= 122);
    }
    assert(eq_ignore_ascii_case(n, s));
}

/// Only an environment's own name is read as it: the text has the name's
/// length, and character by character it is the name's letter, in upper
/// case too when case is ignored, and exactly it otherwise.
pub proof fn lemma_parse_only_names(s: Seq<char>, ignore_case: bool, e: AuthEnvironment)
    requires
        parsed_environment(s, ignore_case) == Some(e),
    ensures
        s.len() == e.arg_name().len(),
        !ignore_case ==> s == e.arg_name(),
        forall|i: int| 0 <= i < s.len() ==> ascii_fold(#[trigger] s[i]) == e.arg_name()[i] as int,
{
    reveal_strlit("sandbox");
    reveal_strlit("production");
    let n = e.arg_name();
    assert forall|i: int| 0 <= i < n.len() implies 97 <= #[trigger] n[i] as int <= 122 by {
        if e == AuthEnvironment::Sandbox {
            assert(n =~= seq!['s', 'a', 'n', 'd', 'b', 'o', 'x']);
        } else {
            assert(n =~= seq!['p', 'r', 'o', 'd', 'u', 'c', 't', 'i', 'o', 'n']);
        }
    }
    if e == AuthEnvironment::Sandbox {
        assert(name_matches(n, s, ignore_case));
    } else {
        assert(name_matches(n, s, ignore_case));
    }
    assert forall|i: int| 0 <= i < s.len() implies ascii_fold(#[trigger] s[i]) == n[i] as int by {
        assert(97 <= n[i] as int <= 122);
        if ignore_case {
            assert(ascii_fold(n[i]) == ascii_fold(s[i]));
        } else {
            assert(s[i] == n[i]);
        }
    }
}

/// Distinct environments have distinct names.
pub proof fn lemma_arg_name_injective(a: AuthEnvironment, b: AuthEnvironment)
    ensures
        a.arg_name() == b.arg_name() ==> a == b,
{
    reveal_strlit("sandbox");
    reveal_strlit("production");
    assert("sandbox"@.len() == 7);
    assert("production"@.len() == 10);
}

} // verus!
