//! The rules of logging in: the redirect address, the anti-forgery state,
//! the check of the browser's redirect, and the attributes under which a
//! profile's token is kept in the secret store.

use vstd::prelude::*;
use vstd::string::*;

use base64::Engine as _;

use crate::text::{
    decimal, decimal_value, is_ascii_digit, lemma_decimal_reads_back, str_eq, u16_to_decimal,
};

verus! {

/// OAuth scopes requested at login.
pub const SCOPES: &'static str =
    "openid email profile address phone com.intuit.quickbooks.accounting com.intuit.quickbooks.payment";

/// Value of the `server` attribute on every secret-store item of this program.
pub const SECRET_SERVICE_SERVER: &'static str = "qbcli";

// ---------------------------------------------------------------------------
// Redirect address
// ---------------------------------------------------------------------------

/// Why no redirect address could be formed.
#[derive(Clone, Copy, Debug, PartialEq, Eq, Structural)]
pub enum RedirectConfigError {
    /// Exactly one of host and port was given.
    NeedHostAndPort,
}

impl RedirectConfigError {
    /// The message shown to the user.
    pub fn message(&self) -> (m: String)
        ensures
            m@ == "need host and port"@,
    {
        String::from_str("need host and port")
    }
}

/// The redirect address `https://<host>:<port>`.
pub open spec fn redirect_text(host: Seq<char>, port: u16) -> Seq<char> {
    "https://"@ + host + ":"@ + decimal(port as nat)
}

/// The redirect address is `https://`, the host, `:`, then the port as a
/// base-ten numeral of ASCII digits that reads back as the port.
pub proof fn lemma_redirect_port_reads_back(host: Seq<char>, port: u16)
    ensures
        redirect_text(host, port).subrange(0, 8 + host.len() as int) == "https://"@ + host,
        redirect_text(host, port)[8 + host.len() as int] == ':',
        ({
            let digits = redirect_text(host, port).subrange(
                9 + host.len() as int,
                redirect_text(host, port).len() as int,
            );
            &&& decimal_value(digits) == port as int
            &&& forall|i: int| 0 <= i < digits.len() ==> is_ascii_digit(#[trigger] digits[i])
        }),
{
    reveal_strlit("https://");
    reveal_strlit(":");
    assert("https://"@.len() == 8);
    assert(":"@ =~= seq![':']);
    lemma_decimal_reads_back(port as nat);
    let t = redirect_text(host, port);
    let prefix = "https://"@ + host;
    assert(t == prefix + seq![':'] + decimal(port as nat));
    assert(t.subrange(0, 8 + host.len() as int) =~= prefix);
    assert(t.subrange(9 + host.len() as int, t.len() as int) =~= decimal(port as nat));
}

/// The OAuth redirect address: none when neither host nor port is given,
/// `https://<host>:<port>` when both are, an error otherwise.
pub fn redirect_uri(listen_host: Option<&str>, listen_port: Option<u16>) -> (r: Result<
    Option<String>,
    RedirectConfigError,
>)
    ensures
        match (listen_host, listen_port) {
            (Some(h), Some(p)) => (r matches Ok(Some(u)) && u@ == redirect_text(h@, p)),
            (None, None) => r == Ok::<Option<String>, RedirectConfigError>(None),
            _ => r == Err::<Option<String>, RedirectConfigError>(
                RedirectConfigError::NeedHostAndPort,
            ),
        },
{
    match (listen_host, listen_port) {
        (Some(h), Some(p)) => {
            let mut u = String::from_str("https://");
            u.append(h);
            u.append(":");
            let port = u16_to_decimal(p);
            u.append(port.as_str());
            Ok(Some(u))
        },
        (None, None) => Ok(None),
        _ => Err(RedirectConfigError::NeedHostAndPort),
    }
}

// ---------------------------------------------------------------------------
// Anti-forgery state
// ---------------------------------------------------------------------------

/// The character for a six-bit value in the standard Base64 alphabet of
/// RFC 4648: `A`-`Z`, `a`-`z`, `0`-`9`, `+`, `/`.
pub open spec fn base64_digit(v: int) -> char {
    if v < 26 {
        (65 + v) as char
    } else if v < 52 {
        (97 + v - 26) as char
    } else if v < 62 {
        (48 + v - 52) as char
    } else if v == 62 {
        '+'
    } else {
        '/'
    }
}

/// The padded standard Base64 encoding (RFC 4648, section 4) of `bytes`:
/// each group of three bytes becomes four characters; a final group of one
/// or two bytes is padded with `=` to four characters.
pub open spec fn base64_standard(bytes: Seq<u8>) -> Seq<char>
    decreases bytes.len(),
{
    if bytes.len() == 0 {
        seq![]
    } else if bytes.len() == 1 {
        let b0 = bytes[0] as int;
        seq![base64_digit(b0 / 4), base64_digit((b0 % 4) * 16), '=', '=']
    } else if bytes.len() == 2 {
        let b0 = bytes[0] as int;
        let b1 = bytes[1] as int;
        seq![
            base64_digit(b0 / 4),
            base64_digit((b0 % 4) * 16 + b1 / 16),
            base64_digit((b1 % 16) * 4),
            '=',
        ]
    } else {
        let b0 = bytes[0] as int;
        let b1 = bytes[1] as int;
        let b2 = bytes[2] as int;
        seq![
            base64_digit(b0 / 4),
            base64_digit((b0 % 4) * 16 + b1 / 16),
            base64_digit((b1 % 16) * 4 + b2 / 64),
            base64_digit(b2 % 64),
        ] + base64_standard(bytes.subrange(3, bytes.len() as int))
    }
}

/// The six-bit value a standard Base64 character stands for, read from the
/// character's code; -1 for a character outside the alphabet.
pub open spec fn base64_value(c: char) -> int {
    let x = c as int;
    if 65 <= x <= 90 {
        x - 65
    } else if 97 <= x <= 122 {
        x - 71
    } else if 48 <= x <= 57 {
        x + 4
    } else if x == 43 {
        62
    } else if x == 47 {
        63
    } else {
        -1
    }
}

/// Every six-bit value is written as an alphabet character that reads back
/// as that value, so distinct values get distinct characters and none of
/// them is the padding `=`.
pub proof fn lemma_base64_digit_reads_back(v: int)
    requires
        0 <= v < 64,
    ensures
        base64_value(base64_digit(v)) == v,
        base64_digit(v) != '=',
{
}

/// Each full group of three bytes is written as four alphabet characters
/// from which the three bytes are recovered.
pub proof fn lemma_base64_group_decodes(bytes: Seq<u8>)
    requires
        bytes.len() >= 3,
    ensures
        ({
            let e = base64_standard(bytes);
            let v0 = base64_value(e[0]);
            let v1 = base64_value(e[1]);
            let v2 = base64_value(e[2]);
            let v3 = base64_value(e[3]);
            &&& 0 <= v0 < 64 && 0 <= v1 < 64 && 0 <= v2 < 64 && 0 <= v3 < 64
            &&& v0 * 4 + v1 / 16 == bytes[0] as int
            &&& (v1 % 16) * 16 + v2 / 4 == bytes[1] as int
            &&& (v2 % 4) * 64 + v3 == bytes[2] as int
        }),
{
    let b0 = bytes[0] as int;
    let b1 = bytes[1] as int;
    let b2 = bytes[2] as int;
    let x0 = b0 / 4;
    let x1 = (b0 % 4) * 16 + b1 / 16;
    let x2 = (b1 % 16) * 4 + b2 / 64;
    let x3 = b2 % 64;
    assert(0 <= x0 < 64 && 0 <= x1 < 64 && 0 <= x2 < 64 && 0 <= x3 < 64) by (nonlinear_arith)
        requires
            0 <= b0 < 256,
            0 <= b1 < 256,
            0 <= b2 < 256,
            x0 == b0 / 4,
            x1 == (b0 % 4) * 16 + b1 / 16,
            x2 == (b1 % 16) * 4 + b2 / 64,
            x3 == b2 % 64,
    ;
    lemma_base64_digit_reads_back(x0);
    lemma_base64_digit_reads_back(x1);
    lemma_base64_digit_reads_back(x2);
    lemma_base64_digit_reads_back(x3);
    assert(x0 * 4 + x1 / 16 == b0 && (x1 % 16) * 16 + x2 / 4 == b1 && (x2 % 4) * 64 + x3 == b2)
        by (nonlinear_arith)
        requires
            0 <= b0 < 256,
            0 <= b1 < 256,
            0 <= b2 < 256,
            x0 == b0 / 4,
            x1 == (b0 % 4) * 16 + b1 / 16,
            x2 == (b1 % 16) * 4 + b2 / 64,
            x3 == b2 % 64,
    ;
}

/// Standard Base64 decoding of padded text, four characters at a time: a
/// group whose third character is `=` gives one byte and ends the text, one
/// whose fourth is `=` gives two bytes and ends it, any other gives three.
pub open spec fn base64_decode(s: Seq<char>) -> Seq<u8>
    decreases s.len(),
{
    if s.len() < 4 {
        seq![]
    } else {
        let v0 = base64_value(s[0]);
        let v1 = base64_value(s[1]);
        let v2 = base64_value(s[2]);
        let v3 = base64_value(s[3]);
        let first = (v0 * 4 + v1 / 16) as u8;
        if s[2] == '=' {
            seq![first]
        } else if s[3] == '=' {
            seq![first, ((v1 % 16) * 16 + v2 / 4) as u8]
        } else {
            seq![first, ((v1 % 16) * 16 + v2 / 4) as u8, ((v2 % 4) * 64 + v3) as u8]
                + base64_decode(s.subrange(4, s.len() as int))
        }
    }
}

/// Decoding gives back the bytes that were encoded: the encoding loses
/// nothing and adds nothing.
pub proof fn lemma_base64_round_trip(bytes: Seq<u8>)
    ensures
        base64_decode(base64_standard(bytes)) == bytes,
    decreases bytes.len(),
{
    let e = base64_standard(bytes);
    if bytes.len() == 0 {
        assert(bytes =~= seq![]);
    } else if bytes.len() == 1 {
        let b0 = bytes[0] as int;
        let x0 = b0 / 4;
        let x1 = (b0 % 4) * 16;
        assert(0 <= x0 < 64 && 0 <= x1 < 64 && x0 * 4 + x1 / 16 == b0) by (nonlinear_arith)
            requires
                0 <= b0 < 256,
                x0 == b0 / 4,
                x1 == (b0 % 4) * 16,
        ;
        lemma_base64_digit_reads_back(x0);
        lemma_base64_digit_reads_back(x1);
        assert(base64_decode(e) =~= bytes);
    } else if bytes.len() == 2 {
        let b0 = bytes[0] as int;
        let b1 = bytes[1] as int;
        let x0 = b0 / 4;
        let x1 = (b0 % 4) * 16 + b1 / 16;
        let x2 = (b1 % 16) * 4;
        assert(0 <= x0 < 64 && 0 <= x1 < 64 && 0 <= x2 < 64 && x0 * 4 + x1 / 16 == b0 && (x1
            % 16) * 16 + x2 / 4 == b1) by (nonlinear_arith)
            requires
                0 <= b0 < 256,
                0 <= b1 < 256,
                x0 == b0 / 4,
                x1 == (b0 % 4) * 16 + b1 / 16,
                x2 == (b1 % 16) * 4,
        ;
        lemma_base64_digit_reads_back(x0);
        lemma_base64_digit_reads_back(x1);
        lemma_base64_digit_reads_back(x2);
        assert(base64_decode(e) =~= bytes);
    } else {
        let rest = bytes.subrange(3, bytes.len() as int);
        lemma_base64_round_trip(rest);
        lemma_base64_group_decodes(bytes);
        let b2 = bytes[2] as int;
        lemma_base64_digit_reads_back((bytes[1] as int % 16) * 4 + b2 / 64);
        lemma_base64_digit_reads_back(b2 % 64);
        assert(e.subrange(4, e.len() as int) =~= base64_standard(rest));
        assert(bytes =~= seq![bytes[0], bytes[1], bytes[2]] + rest);
        assert(base64_decode(e) =~= bytes);
    }
}

/// The encoding is `4 * ceil(n / 3)` characters long for `n` bytes.
pub proof fn lemma_base64_len(bytes: Seq<u8>)
    ensures
        base64_standard(bytes).len() == 4 * ((bytes.len() + 2) / 3),
    decreases bytes.len(),
{
    if bytes.len() >= 3 {
        lemma_base64_len(bytes.subrange(3, bytes.len() as int));
    }
}

/// The encoding of eight bytes is twelve characters ending in one `=`.
pub proof fn lemma_base64_eight_bytes(bytes: Seq<u8>)
    requires
        bytes.len() == 8,
    ensures
        base64_standard(bytes).len() == 12,
        base64_standard(bytes)[11] == '=',
        base64_standard(bytes)[10] != '=',
{
    let r1 = bytes.subrange(3, 8);
    let r2 = r1.subrange(3, 5);
    lemma_base64_len(bytes);
    lemma_base64_len(r1);
    assert(base64_standard(r2)[3] == '=');
    assert(base64_standard(r1) == base64_standard(r1).subrange(0, 4) + base64_standard(r2));
    assert(base64_standard(r1)[7] == '=');
    assert(base64_standard(bytes)[11] == base64_standard(r1)[7]);
    let b1 = r2[1] as int;
    assert(0 <= (b1 % 16) * 4 < 64);
    assert(base64_standard(bytes)[10] == base64_standard(r2)[2]);
}

/// Calls `Engine::encode` of the `base64` crate's `STANDARD` engine (the
/// RFC 4648 alphabet, padded). Claimed: the result is `base64_standard` of
/// the input. The call panics when the output length, `4 * ceil(n / 3)` as
/// the crate's `encoded_len` computes it, overflows `usize`, so such inputs
/// are left out.
#[verifier::external_body]
fn encode_base64(bytes: &[u8]) -> (s: String)
    requires
        4 * ((bytes@.len() + 2) / 3) <= usize::MAX,
    ensures
        s@ == base64_standard(bytes@),
{
    base64::engine::general_purpose::STANDARD.encode(bytes)
}

/// The error `rand`'s operating-system generator reports when the system's
/// random source fails; carried through unchanged.
#[verifier::external_type_specification]
#[verifier::external_body]
pub struct ExOsError(rand::rand_core::OsError);

/// Calls `TryRngCore::try_fill_bytes` on `rand::rngs::OsRng` to fill eight
/// bytes from the operating system's random source. Nothing is claimed of
/// the bytes, nor of when the source fails; the call reports a failure as
/// its error instead of panicking.
#[verifier::external_body]
fn random_state_bytes() -> (r: Result<[u8; 8], rand::rand_core::OsError>) {
    let mut bytes = [0u8; 8];
    match rand::TryRngCore::try_fill_bytes(&mut rand::rngs::OsRng, &mut bytes) {
        Ok(()) => Ok(bytes),
        Err(e) => Err(e),
    }
}

/// The state value sent with the authorization request for the given random
/// bytes: their standard Base64 encoding, twelve characters long.
pub fn auth_state_from_bytes(state_bytes: &[u8; 8]) -> (s: String)
    ensures
        s@ == base64_standard(state_bytes@),
        s@.len() == 12,
        s@[11] == '=',
{
    let bytes = state_bytes.as_slice();
    assert(bytes@.len() == 8);
    proof {
        lemma_base64_eight_bytes(bytes@);
    }
    encode_base64(bytes)
}

/// Why no state value could be made.
#[derive(Debug)]
pub enum AuthStateError {
    /// The operating system's random source failed.
    RandomSource(rand::rand_core::OsError),
}

/// A fresh state value for an authorization request: the Base64 encoding of
/// eight bytes from the operating system's random source, or the source's
/// error when it fails.
pub fn new_auth_state() -> (r: Result<String, AuthStateError>)
    ensures
        r matches Ok(s) ==> (exists|b: Seq<u8>| b.len() == 8 && s@ == #[trigger] base64_standard(b))
            && s@.len() == 12 && s@[11] == '=',
{
    match random_state_bytes() {
        Ok(state_bytes) => Ok(auth_state_from_bytes(&state_bytes)),
        Err(e) => Err(AuthStateError::RandomSource(e)),
    }
}

// ---------------------------------------------------------------------------
// The browser's redirect back to this program
// ---------------------------------------------------------------------------

/// Query parameters of the redirect that ends a browser login.
#[derive(Clone, Debug)]
pub struct QBAuthRedirectData {
    pub code: String,
    pub state: String,
    pub realm_id: String,
}

/// How a redirect request is answered.
#[derive(Clone, Debug)]
pub enum RedirectResponse {
    /// The state matched: the login data is passed on and the user is told
    /// that the login succeeded.
    LoggedIn(QBAuthRedirectData),
    /// The state did not match: the request is refused and nothing is passed on.
    BadState,
}

/// The page shown after a successful login.
pub open spec fn logged_in_page() -> Seq<char> {
    "<!DOCTYPE html>\n<html>\n  <head>\n    <title>Logged In</title>\n  </head>\n  <body>\n    <p>Logged in. Please close this tab and return to your terminal.</p>\n  </body>\n</html>\n"@
}

/// The body sent when the state does not match.
pub open spec fn bad_state_body() -> Seq<char> {
    "Incorrect state recieved. Not logged in. Please try again..."@
}

impl RedirectResponse {
    /// The HTTP status of the answer.
    pub fn status_code(&self) -> (c: u16)
        ensures
            c == (if self is LoggedIn { 200u16 } else { 400u16 }),
    {
        match self {
            RedirectResponse::LoggedIn(_) => 200,
            RedirectResponse::BadState => 400,
        }
    }

    /// Whether the body is an HTML page.
    pub fn is_html(&self) -> (b: bool)
        ensures
            b == self is LoggedIn,
    {
        match self {
            RedirectResponse::LoggedIn(_) => true,
            RedirectResponse::BadState => false,
        }
    }

    /// The body of the answer.
    pub fn body(&self) -> (b: &'static str)
        ensures
            b@ == (if self is LoggedIn { logged_in_page() } else { bad_state_body() }),
    {
        match self {
            RedirectResponse::LoggedIn(_) => "<!DOCTYPE html>\n<html>\n  <head>\n    <title>Logged In</title>\n  </head>\n  <body>\n    <p>Logged in. Please close this tab and return to your terminal.</p>\n  </body>\n</html>\n",
            RedirectResponse::BadState => "Incorrect state recieved. Not logged in. Please try again...",
        }
    }
}

/// Answers the browser's redirect: the login data is accepted exactly when
/// its state equals the state that was sent.
pub fn handle_auth_redirect(query: QBAuthRedirectData, expected_state: &str) -> (r: RedirectResponse)
    ensures
        (r is LoggedIn) == (query.state@ == expected_state@),
        r matches RedirectResponse::LoggedIn(d) ==> d == query,
{
    if str_eq(query.state.as_str(), expected_state) {
        RedirectResponse::LoggedIn(query)
    } else {
        RedirectResponse::BadState
    }
}

/// Whether the company (realm) that the user logged into is acceptable:
/// any realm when none was asked for, else only the one asked for.
pub fn realm_matches(expected_realm: Option<&str>, received_realm_id: &str) -> (ok: bool)
    ensures
        ok == match expected_realm {
            Some(e) => e@ == received_realm_id@,
            None => true,
        },
{
    match expected_realm {
        Some(e) => str_eq(e, received_realm_id),
        None => true,
    }
}

/// Why a browser login ended without usable login data.
#[derive(Clone, Debug)]
pub enum LoginError {
    /// The redirect listener stopped before any login data arrived.
    ChannelClosed,
    /// The user logged into another company; holds the realm received.
    RealmMismatch(String),
}

impl LoginError {
    /// The message shown to the user.
    pub open spec fn spec_message(self) -> Seq<char> {
        match self {
            LoginError::ChannelClosed => "Auth data channel was closed before receiving anything..."@,
            LoginError::RealmMismatch(r) =>
                "Received realm id didn't match expected realm id. Received realm id: "@ + r@,
        }
    }

    /// The message shown to the user.
    pub fn message(&self) -> (m: String)
        ensures
            m@ == self.spec_message(),
    {
        match self {
            LoginError::ChannelClosed => String::from_str(
                "Auth data channel was closed before receiving anything...",
            ),
            LoginError::RealmMismatch(r) => {
                let mut m = String::from_str(
                    "Received realm id didn't match expected realm id. Received realm id: ",
                );
                m.append(r.as_str());
                m
            },
        }
    }
}

/// The end of a browser login: the first login data passed on by the
/// redirect listener, if any arrived, accepted when its realm is the one
/// asked for (or none was asked for).
pub fn login_outcome(expected_realm: Option<&str>, received: Option<QBAuthRedirectData>) -> (r:
    Result<QBAuthRedirectData, LoginError>)
    ensures
        match received {
            None => r matches Err(LoginError::ChannelClosed),
            Some(d) => match expected_realm {
                Some(e) if e@ != d.realm_id@ => (r matches Err(LoginError::RealmMismatch(x))
                    && x@ == d.realm_id@),
                _ => r == Ok::<QBAuthRedirectData, LoginError>(d),
            },
        },
{
    match received {
        None => Err(LoginError::ChannelClosed),
        Some(d) => {
            if realm_matches(expected_realm, d.realm_id.as_str()) {
                Ok(d)
            } else {
                let realm = d.realm_id.clone();
                Err(LoginError::RealmMismatch(realm))
            }
        },
    }
}

/// Where the token of a login comes from.
#[derive(Clone, Copy, Debug, PartialEq, Eq, Structural)]
pub enum TokenSource {
    /// A browser login is run for a new token.
    RequestNew,
    /// The token stored for the profile is refreshed.
    RefreshStored,
}

/// Login refreshes the stored token unless refreshing is disabled or no
/// token is stored for the profile.
pub fn token_source(disable_token_refresh: bool, stored_token_found: bool) -> (s: TokenSource)
    ensures
        s == (if !disable_token_refresh && stored_token_found {
            TokenSource::RefreshStored
        } else {
            TokenSource::RequestNew
        }),
{
    if disable_token_refresh {
        TokenSource::RequestNew
    } else if stored_token_found {
        TokenSource::RefreshStored
    } else {
        TokenSource::RequestNew
    }
}

} // verus!
