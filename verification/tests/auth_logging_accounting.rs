use qbcli::commands::accounting::{
    api_get_request, company_info_path, company_info_request, company_info_url, response_body_text,
    CompanyInfoError,
};
use qbcli::util::auth::{
    auth_state_from_bytes, handle_auth_redirect, login_outcome, new_auth_state, realm_matches,
    redirect_uri, token_source, LoginError, QBAuthRedirectData, RedirectConfigError,
    RedirectResponse, TokenSource, SCOPES,
};
use qbcli::util::AuthEnvironment;
use qbcli::logging::{log_filter_plan, LogFilterPlan, LogLevel};
use qbcli::util::secrets::{
    attributes_match, check_existing_profile_item, profile_item_attributes,
    profile_search_attributes, select_profile_item, stored_profile_fields, stored_profile_token,
    token_item_label, token_item_secret, BearerFields, LookupError, StoreError, StoredTokenError,
};

fn pairs(p: &[(&str, &str)]) -> Vec<(String, String)> {
    p.iter().map(|(k, v)| (k.to_string(), v.to_string())).collect()
}

fn redirect(state: &str, realm: &str) -> QBAuthRedirectData {
    QBAuthRedirectData { code: "c0de".to_string(), state: state.to_string(), realm_id: realm.to_string() }
}

#[test]
fn redirect_uri_cases() {
    assert_eq!(
        redirect_uri(Some("localhost"), Some(9999)),
        Ok(Some("https://localhost:9999".to_string()))
    );
    assert_eq!(redirect_uri(None, None), Ok(None));
    assert_eq!(redirect_uri(Some("localhost"), None), Err(RedirectConfigError::NeedHostAndPort));
    assert_eq!(redirect_uri(None, Some(1)), Err(RedirectConfigError::NeedHostAndPort));
    assert_eq!(RedirectConfigError::NeedHostAndPort.message(), "need host and port");
}

#[test]
fn auth_state_encoding() {
    assert_eq!(auth_state_from_bytes(&[0u8; 8]), "AAAAAAAAAAA=");
    assert_eq!(auth_state_from_bytes(b"qbcli-01"), "cWJjbGktMDE=");
    assert_eq!(auth_state_from_bytes(&[0xffu8; 8]), "//////////8=");
    let s = new_auth_state().unwrap();
    assert_eq!(s.len(), 12);
    assert!(s.ends_with('='));
}

#[test]
fn scopes_value() {
    assert_eq!(
        SCOPES,
        "openid email profile address phone com.intuit.quickbooks.accounting com.intuit.quickbooks.payment"
    );
}

#[test]
fn redirect_with_right_state_is_accepted() {
    let r = handle_auth_redirect(redirect("abc=", "42"), "abc=");
    assert_eq!(r.status_code(), 200);
    assert!(r.is_html());
    assert!(r.body().starts_with("<!DOCTYPE html>\n<html>\n  <head>\n    <title>Logged In</title>"));
    assert!(r.body().ends_with("</html>\n"));
    match r {
        RedirectResponse::LoggedIn(d) => {
            assert_eq!(d.code, "c0de");
            assert_eq!(d.realm_id, "42");
        }
        RedirectResponse::BadState => panic!("state should match"),
    }
}

#[test]
fn redirect_with_wrong_state_is_refused() {
    let r = handle_auth_redirect(redirect("abd=", "42"), "abc=");
    assert!(matches!(r, RedirectResponse::BadState));
    assert_eq!(r.status_code(), 400);
    assert!(!r.is_html());
    assert_eq!(r.body(), "Incorrect state recieved. Not logged in. Please try again...");
}

#[test]
fn login_outcomes() {
    assert!(realm_matches(None, "1"));
    assert!(realm_matches(Some("1"), "1"));
    assert!(!realm_matches(Some("1"), "2"));
    let ok = login_outcome(Some("42"), Some(redirect("s", "42"))).unwrap();
    assert_eq!(ok.realm_id, "42");
    assert!(login_outcome(None, Some(redirect("s", "7"))).is_ok());
    let e = login_outcome(Some("42"), Some(redirect("s", "7"))).unwrap_err();
    assert_eq!(
        e.message(),
        "Received realm id didn't match expected realm id. Received realm id: 7"
    );
    let e = login_outcome(Some("42"), None).unwrap_err();
    assert!(matches!(e, LoginError::ChannelClosed));
    assert_eq!(e.message(), "Auth data channel was closed before receiving anything...");
}

#[test]
fn token_sources() {
    assert_eq!(token_source(true, true), TokenSource::RequestNew);
    assert_eq!(token_source(true, false), TokenSource::RequestNew);
    assert_eq!(token_source(false, true), TokenSource::RefreshStored);
    assert_eq!(token_source(false, false), TokenSource::RequestNew);
}

#[test]
fn log_plans() {
    assert!(matches!(log_filter_plan(Some("info"), true, 3, true, "qbcli"), LogFilterPlan::Silent));
    assert!(matches!(log_filter_plan(Some("info"), false, 0, true, "qbcli"), LogFilterPlan::FromEnv));
    assert!(matches!(
        log_filter_plan(Some("info"), false, 0, false, "qbcli"),
        LogFilterPlan::Configured(s) if s == "info"
    ));
    assert!(matches!(log_filter_plan(None, false, 0, false, "qbcli"), LogFilterPlan::Default));
    assert!(matches!(
        log_filter_plan(None, false, 1, false, "qbcli"),
        LogFilterPlan::Level { level: LogLevel::Warn, crate_directive: None }
    ));
    assert!(matches!(
        log_filter_plan(None, false, 2, false, "qbcli"),
        LogFilterPlan::Level { level: LogLevel::Info, crate_directive: None }
    ));
    assert!(matches!(
        log_filter_plan(None, false, 3, false, "qbcli"),
        LogFilterPlan::Level { level: LogLevel::Info, crate_directive: Some(d) } if d.text == "qbcli=debug" && d.level == LogLevel::Debug
    ));
    assert!(matches!(
        log_filter_plan(None, false, 4, false, "qbcli"),
        LogFilterPlan::Level { level: LogLevel::Debug, crate_directive: None }
    ));
    assert!(matches!(
        log_filter_plan(None, false, 5, false, "qbcli"),
        LogFilterPlan::Level { level: LogLevel::Debug, crate_directive: Some(d) } if d.text == "qbcli=trace" && d.level == LogLevel::Trace
    ));
    assert!(matches!(
        log_filter_plan(None, false, 200, false, "qbcli"),
        LogFilterPlan::Level { level: LogLevel::Trace, crate_directive: None }
    ));
}

#[test]
fn secret_attributes() {
    assert_eq!(profile_search_attributes("work"), pairs(&[("profile", "work"), ("server", "qbcli")]));
    assert_eq!(
        profile_item_attributes("work", "sandbox", "42"),
        pairs(&[("server", "qbcli"), ("profile", "work"), ("environment", "sandbox"), ("realm", "42")])
    );
    assert_eq!(token_item_label("work"), "Token/work");
}

#[test]
fn attribute_matching_ignores_order() {
    let expected = profile_item_attributes("work", "sandbox", "42");
    let found = pairs(&[("realm", "42"), ("environment", "sandbox"), ("server", "qbcli"), ("profile", "work")]);
    assert!(attributes_match(&expected, &found));
    let other = pairs(&[("realm", "43"), ("environment", "sandbox"), ("server", "qbcli"), ("profile", "work")]);
    assert!(!attributes_match(&expected, &other));
}

#[test]
fn existing_item_checks() {
    let expected = profile_item_attributes("work", "sandbox", "42");
    assert!(check_existing_profile_item("work", &expected, 0, None).is_ok());
    assert!(check_existing_profile_item("work", &expected, 1, Some(&expected.clone())).is_ok());
    let short = pairs(&[("server", "qbcli"), ("profile", "work")]);
    let e = check_existing_profile_item("work", &expected, 1, Some(&short)).unwrap_err();
    assert!(matches!(e, StoreError::DifferentAttributeCount));
    assert_eq!(
        e.message(),
        "Profile already exists with different number of attributes. Can't create profile."
    );
    let prod = profile_item_attributes("work", "production", "42");
    let e = check_existing_profile_item("work", &expected, 1, Some(&prod)).unwrap_err();
    assert_eq!(
        e.message(),
        "Existing profile found with different attrbutes. Can't create profile (work)."
    );
    let e = check_existing_profile_item("work", &expected, 2, None).unwrap_err();
    assert!(matches!(e, StoreError::MultipleEntries));
    assert_eq!(e.message(), "Multiple entries exist that match the profile. Cannot create item.");
}

#[test]
fn selecting_profile_items() {
    assert_eq!(select_profile_item(Vec::<u8>::new(), "p").unwrap(), None);
    assert_eq!(select_profile_item(vec![7u8], "p").unwrap(), Some(7));
    let e = select_profile_item(vec![7u8, 8u8], "p").unwrap_err();
    assert!(matches!(&e, LookupError::MultipleEntries(n) if n == "p"));
    assert_eq!(e.message(), "Found multiple entries for profile (p).");
}

#[test]
fn stored_profile_read_back() {
    for e in [AuthEnvironment::Sandbox, AuthEnvironment::Production] {
        let a = profile_item_attributes("work", &e.arg_string(), "42");
        let p = stored_profile_fields(&a).unwrap();
        assert_eq!(p.realm, "42");
        assert_eq!(p.environment, e);
    }
    let a = pairs(&[("realm", "1"), ("environment", "PRODUCTION")]);
    assert_eq!(stored_profile_fields(&a).unwrap().environment, AuthEnvironment::Production);
    let a = pairs(&[("realm", "1"), ("environment", "qa")]);
    assert_eq!(stored_profile_fields(&a).unwrap_err(), "invalid variant: qa");
}

#[test]
fn company_info_urls() {
    assert_eq!(company_info_path("123"), "/v3/company/123/companyinfo/123");
    assert_eq!(
        company_info_url(&AuthEnvironment::Sandbox, "123").unwrap(),
        "https://sandbox-quickbooks.api.intuit.com/v3/company/123/companyinfo/123"
    );
    assert_eq!(
        company_info_url(&AuthEnvironment::Production, "9").unwrap(),
        "https://quickbooks.api.intuit.com/v3/company/9/companyinfo/9"
    );
    assert_eq!(
        company_info_url(&AuthEnvironment::Production, "a b").unwrap(),
        "https://quickbooks.api.intuit.com/v3/company/a%20b/companyinfo/a%20b"
    );
}

#[test]
fn company_info_requests() {
    let r = company_info_request(&AuthEnvironment::Sandbox, "5", "tok").unwrap();
    assert_eq!(r.url, "https://sandbox-quickbooks.api.intuit.com/v3/company/5/companyinfo/5");
    assert_eq!(r.authorization, "Bearer tok");
    assert_eq!(r.accept, "application/json");
    let g = api_get_request("u".to_string(), "t");
    assert_eq!((g.url.as_str(), g.authorization.as_str()), ("u", "Bearer t"));
}

#[test]
fn stored_profile_read_back_in_any_order() {
    let written = profile_item_attributes("work", &AuthEnvironment::Production.arg_string(), "42");
    let mut found = written.clone();
    found.reverse();
    found.swap(0, 2);
    let p = stored_profile_fields(&found).unwrap();
    assert_eq!(p.realm, "42");
    assert_eq!(p.environment, AuthEnvironment::Production);
}

#[test]
fn response_bodies() {
    assert_eq!(
        response_body_text(br#"{"a":"x","b":[1,2]}"#).unwrap(),
        "{\n  \"a\": \"x\",\n  \"b\": [\n    1,\n    2\n  ]\n}"
    );
    assert_eq!(response_body_text(b"  true ").unwrap(), "true");
    assert!(matches!(response_body_text(b"<html>"), Err(CompanyInfoError::Body(_))));
    assert!(matches!(response_body_text(b""), Err(CompanyInfoError::Body(_))));
}

#[test]
fn stored_tokens() {
    let secret = b"access_token = \"abc\"\ntoken_type = \"bearer\"\nrefresh_token = \"r1\"\n";
    let attrs = profile_item_attributes("work", "sandbox", "42");
    let (bearer, p) = stored_profile_token(secret, &attrs).unwrap();
    assert_eq!(bearer.access_token, "abc");
    assert_eq!(bearer.refresh_token.as_deref(), Some("r1"));
    assert_eq!(p.realm, "42");
    assert_eq!(p.environment, AuthEnvironment::Sandbox);

    let bad_env = profile_item_attributes("work", "qa", "42");
    assert!(matches!(
        stored_profile_token(secret, &bad_env),
        Err(StoredTokenError::Environment(m)) if m == "invalid variant: qa"
    ));
    assert!(matches!(
        stored_profile_token(b"not toml = [", &bad_env),
        Err(StoredTokenError::Secret(_))
    ));
    assert!(matches!(
        stored_profile_token(b"token_type = \"bearer\"\n", &attrs),
        Err(StoredTokenError::Secret(_))
    ));
}

#[test]
fn stored_token_round_trip() {
    let bearer = BearerFields {
        access_token: "abc".to_string(),
        token_type: "bearer".to_string(),
        scope: Some("openid email".to_string()),
        state: None,
        refresh_token: Some("r1".to_string()),
        expires_in: Some(3600),
        id_token: Some("id \"quoted\" \u{e9}".to_string()),
        extra: None,
    };
    let secret = token_item_secret(&bearer).unwrap();
    let attrs = profile_item_attributes("work", &AuthEnvironment::Production.arg_string(), "7");
    let (back, p) = stored_profile_token(secret.as_bytes(), &attrs).unwrap();
    assert_eq!(back.access_token, bearer.access_token);
    assert_eq!(back.token_type, bearer.token_type);
    assert_eq!(back.scope, bearer.scope);
    assert_eq!(back.state, bearer.state);
    assert_eq!(back.refresh_token, bearer.refresh_token);
    assert_eq!(back.expires_in, bearer.expires_in);
    assert_eq!(back.id_token, bearer.id_token);
    // No extra properties are written, but reading collects an empty set of them.
    assert_eq!(back.extra.map(|m| m.len()), Some(0));
    assert_eq!(p.environment, AuthEnvironment::Production);
    assert_eq!(p.realm, "7");
}

#[test]
fn stored_token_problems_in_order() {
    let good = b"access_token = \"abc\"\ntoken_type = \"bearer\"\n";
    let none: Vec<(String, String)> = Vec::new();
    assert!(matches!(stored_profile_token(b"[", &none), Err(StoredTokenError::Secret(_))));
    assert!(matches!(
        stored_profile_token(good, &none),
        Err(StoredTokenError::MissingAttribute(n)) if n == "realm"
    ));
    assert!(matches!(
        stored_profile_token(good, &pairs(&[("realm", "1")])),
        Err(StoredTokenError::MissingAttribute(n)) if n == "environment"
    ));
}
