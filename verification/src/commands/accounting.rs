//! Construction of requests to the QuickBooks accounting API.

use vstd::prelude::*;
use vstd::string::*;

use crate::util::AuthEnvironment;

verus! {

/// The `url` crate's parse error, carried through unchanged.
#[verifier::external_type_specification]
#[verifier::external_body]
pub struct ExUrlParseError(url::ParseError);

/// The text of the URL that the `url` crate makes by parsing `base` and
/// resolving `input` against it, or `None` where either step fails.
pub uninterp spec fn url_join(base: Seq<char>, input: Seq<char>) -> Option<Seq<char>>;

/// Calls `url::Url::parse` on `base`, then `Url::join` with `input` on the
/// result, and returns the joined URL's serialization. Claimed: success and
/// the text are the name `url_join` of the two arguments; the error is the
/// crate's own. Nothing more is claimed of how the crate resolves or
/// normalises URLs.
#[verifier::external_body]
fn join_url(base: &str, input: &str) -> (r: Result<String, url::ParseError>)
    ensures
        match r {
            Ok(s) => url_join(base@, input@) == Some(s@),
            Err(_) => url_join(base@, input@) is None,
        },
{
    match url::Url::parse(base) {
        Ok(u) => match u.join(input) {
            Ok(j) => Ok(j.as_str().to_owned()),
            Err(e) => Err(e),
        },
        Err(e) => Err(e),
    }
}

/// The `serde_json` crate's error, carried through unchanged.
#[verifier::external_type_specification]
#[verifier::external_body]
pub struct ExJsonError(serde_json::Error);

/// The text that the `serde_json` crate makes by parsing `body` as a JSON
/// value and writing that value back out pretty-printed, or `None` where
/// either step fails.
pub uninterp spec fn json_pretty(body: Seq<u8>) -> Option<Seq<char>>;

/// Calls `serde_json::from_slice` to parse `body` as a `serde_json::Value`,
/// then `serde_json::to_string_pretty` on that value. Claimed: success and
/// the text are the name `json_pretty` of the bytes (the output depends on
/// the bytes alone: in this build objects keep their keys in input order);
/// the error is the crate's own. Nothing more is claimed of JSON syntax or of the layout.
#[verifier::external_body]
fn pretty_json(body: &[u8]) -> (r: Result<String, serde_json::Error>)
    ensures
        match r {
            Ok(s) => json_pretty(body@) == Some(s@),
            Err(_) => json_pretty(body@) is None,
        },
{
    match serde_json::from_slice::<serde_json::Value>(body) {
        Ok(v) => serde_json::to_string_pretty(&v),
        Err(e) => Err(e),
    }
}

/// Why the company-info command could not complete.
#[derive(Debug)]
pub enum CompanyInfoError {
    /// The request URL could not be formed.
    Url(url::ParseError),
    /// The response body is not JSON.
    Body(serde_json::Error),
}

/// The text shown for an API response body: the body parsed as JSON and
/// pretty-printed; a body that is not JSON is an error.
pub fn response_body_text(body: &[u8]) -> (r: Result<String, CompanyInfoError>)
    ensures
        match r {
            Ok(s) => json_pretty(body@) == Some(s@),
            Err(e) => json_pretty(body@) is None && e is Body,
        },
{
    match pretty_json(body) {
        Ok(s) => Ok(s),
        Err(e) => Err(CompanyInfoError::Body(e)),
    }
}

/// The path of a company's information: `/v3/company/<realm>/companyinfo/<realm>`.
pub open spec fn company_info_path_text(realm: Seq<char>) -> Seq<char> {
    "/v3/company/"@ + realm + "/companyinfo/"@ + realm
}

/// The company-info path is `/v3/company/`, the whole realm,
/// `/companyinfo/`, and the whole realm again: its length is 25 plus twice
/// the realm's, and both realm segments are exactly the realm.
pub proof fn lemma_company_info_path_parts(realm: Seq<char>)
    ensures
        company_info_path_text(realm).len() == 25 + 2 * realm.len(),
        company_info_path_text(realm).subrange(0, 12) == "/v3/company/"@,
        company_info_path_text(realm).subrange(12, 12 + realm.len() as int) == realm,
        company_info_path_text(realm).subrange(12 + realm.len() as int, 25 + realm.len() as int)
            == "/companyinfo/"@,
        company_info_path_text(realm).subrange(
            25 + realm.len() as int,
            company_info_path_text(realm).len() as int,
        ) == realm,
{
    reveal_strlit("/v3/company/");
    reveal_strlit("/companyinfo/");
    assert("/v3/company/"@.len() == 12);
    assert("/companyinfo/"@.len() == 13);
    let p = company_info_path_text(realm);
    let n = realm.len() as int;
    assert(p.subrange(0, 12) =~= "/v3/company/"@);
    assert(p.subrange(12, 12 + n) =~= realm);
    assert(p.subrange(12 + n, 25 + n) =~= "/companyinfo/"@);
    assert(p.subrange(25 + n, p.len() as int) =~= realm);
}

/// The path of the company-info resource of a company (realm).
pub fn company_info_path(realm: &str) -> (p: String)
    ensures
        p@ == company_info_path_text(realm@),
{
    let mut p = String::from_str("/v3/company/");
    p.append(realm);
    p.append("/companyinfo/");
    p.append(realm);
    p
}

/// The URL of a company's information in the given environment: the
/// company-info path resolved against the environment's REST base URL.
pub fn company_info_url(environment: &AuthEnvironment, realm: &str) -> (r: Result<
    String,
    CompanyInfoError,
>)
    ensures
        match r {
            Ok(u) => url_join(environment.rest_base(), company_info_path_text(realm@)) == Some(u@),
            Err(e) => url_join(environment.rest_base(), company_info_path_text(realm@)) is None
                && e is Url,
        },
{
    let base = environment.rest_base_url();
    let path = company_info_path(realm);
    match join_url(base.as_str(), path.as_str()) {
        Ok(u) => Ok(u),
        Err(e) => Err(CompanyInfoError::Url(e)),
    }
}

/// An HTTP GET request to the accounting API.
#[derive(Clone, Debug)]
pub struct ApiRequest {
    pub url: String,
    /// Value of the `Authorization` header.
    pub authorization: String,
    /// Value of the `Accept` header.
    pub accept: String,
}

/// The `Authorization` header value for a bearer token.
pub open spec fn bearer_header(access_token: Seq<char>) -> Seq<char> {
    "Bearer "@ + access_token
}

/// The `Authorization` value is `Bearer `, a space, and the whole token.
pub proof fn lemma_bearer_header_parts(access_token: Seq<char>)
    ensures
        bearer_header(access_token).len() == 7 + access_token.len(),
        bearer_header(access_token).subrange(0, 7) == seq!['B', 'e', 'a', 'r', 'e', 'r', ' '],
        bearer_header(access_token).subrange(7, 7 + access_token.len() as int) == access_token,
{
    reveal_strlit("Bearer ");
    let h = bearer_header(access_token);
    assert(h.subrange(0, 7) =~= seq!['B', 'e', 'a', 'r', 'e', 'r', ' ']);
    assert(h.subrange(7, 7 + access_token.len() as int) =~= access_token);
}

/// A GET request for `url` that authenticates with the access token and
/// asks for JSON.
pub fn api_get_request(url: String, access_token: &str) -> (req: ApiRequest)
    ensures
        req.url@ == url@,
        req.authorization@ == bearer_header(access_token@),
        req.accept@ == "application/json"@,
{
    let mut authorization = String::from_str("Bearer ");
    authorization.append(access_token);
    ApiRequest { url, authorization, accept: String::from_str("application/json") }
}

/// The request that fetches a company's information.
pub fn company_info_request(
    environment: &AuthEnvironment,
    realm: &str,
    access_token: &str,
) -> (r: Result<ApiRequest, CompanyInfoError>)
    ensures
        match r {
            Ok(req) => url_join(environment.rest_base(), company_info_path_text(realm@)) == Some(
                req.url@,
            ) && req.authorization@ == bearer_header(access_token@) && req.accept@
                == "application/json"@,
            Err(e) => url_join(environment.rest_base(), company_info_path_text(realm@)) is None
                && e is Url,
        },
{
    match company_info_url(environment, realm) {
        Ok(u) => Ok(api_get_request(u, access_token)),
        Err(e) => Err(e),
    }
}

} // verus!
