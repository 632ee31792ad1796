//! Rules for the secret-store items that hold each profile's token: the
//! attributes they are searched and stored under, when an existing item
//! blocks storing a new token, and how a stored item is read back.

use vstd::prelude::*;
use vstd::string::*;

use crate::util::{parsed_environment, AuthEnvironment};
use crate::text::{lookup_pair, pair_lookup};

verus! {

/// A list of attribute name/value pairs as plain character sequences.
pub open spec fn pairs_view(a: Seq<(String, String)>) -> Seq<(Seq<char>, Seq<char>)> {
    a.map_values(|p: (String, String)| (p.0@, p.1@))
}

/// No attribute name occurs twice.
pub open spec fn keys_unique(a: Seq<(String, String)>) -> bool {
    forall|i: int, j: int| 0 <= i < j < a.len() ==> #[trigger] a[i].0@ != #[trigger] a[j].0@
}

/// The attributes as a map from name to value (a later entry overrides an earlier one).
pub open spec fn pairs_map(a: Seq<(String, String)>) -> Map<Seq<char>, Seq<char>>
    decreases a.len(),
{
    if a.len() == 0 {
        Map::empty()
    } else {
        pairs_map(a.drop_last()).insert(a.last().0@, a.last().1@)
    }
}

/// The found attributes are the expected ones: as many, and each expected
/// name has the expected value among the found ones.
pub open spec fn attributes_agree(expected: Seq<(String, String)>, found: Seq<(String, String)>) -> bool {
    &&& found.len() == expected.len()
    &&& forall|i: int|
        0 <= i < expected.len() ==> pair_lookup(found, (#[trigger] expected[i]).0@) == Some(
            expected[i].1@,
        )
}

fn attribute(name: &str, value: &str) -> (p: (String, String))
    ensures
        p.0@ == name@,
        p.1@ == value@,
{
    (name.to_owned(), value.to_owned())
}

/// The attributes that find a profile's item: the profile name and this
/// program's server name.
pub fn profile_search_attributes(profile: &str) -> (a: Vec<(String, String)>)
    ensures
        pairs_view(a@) == seq![("profile"@, profile@), ("server"@, "qbcli"@)],
{
    let mut a = Vec::new();
    a.push(attribute("profile", profile));
    a.push(attribute("server", "qbcli"));
    assert(pairs_view(a@) =~= seq![("profile"@, profile@), ("server"@, "qbcli"@)]);
    a
}

/// The attributes a profile's item is stored under.
pub fn profile_item_attributes(profile: &str, environment: &str, realm_id: &str) -> (a: Vec<
    (String, String),
>)
    ensures
        pairs_view(a@) == seq![
            ("server"@, "qbcli"@),
            ("profile"@, profile@),
            ("environment"@, environment@),
            ("realm"@, realm_id@),
        ],
{
    let mut a = Vec::new();
    a.push(attribute("server", "qbcli"));
    a.push(attribute("profile", profile));
    a.push(attribute("environment", environment));
    a.push(attribute("realm", realm_id));
    assert(pairs_view(a@) =~= seq![
        ("server"@, "qbcli"@),
        ("profile"@, profile@),
        ("environment"@, environment@),
        ("realm"@, realm_id@),
    ]);
    a
}

/// The label of a profile's item: `Token/<profile>`.
pub fn token_item_label(profile: &str) -> (l: String)
    ensures
        l@ == "Token/"@ + profile@,
{
    let mut l = String::from_str("Token/");
    l.append(profile);
    l
}

/// Checks found attributes against the expected ones.
pub fn attributes_match(expected: &Vec<(String, String)>, found: &Vec<(String, String)>) -> (r: bool)
    ensures
        r == attributes_agree(expected@, found@),
{
    if found.len() != expected.len() {
        return false;
    }
    let mut i: usize = 0;
    while i < expected.len()
        invariant
            i <= expected@.len(),
            found@.len() == expected@.len(),
            forall|j: int|
                0 <= j < i ==> pair_lookup(found@, (#[trigger] expected@[j]).0@) == Some(
                    expected@[j].1@,
                ),
        decreases expected@.len() - i,
    {
        match lookup_pair(found, expected[i].0.as_str()) {
            Some(v) => {
                if !(v == expected[i].1) {
                    return false;
                }
            },
            None => {
                return false;
            },
        }
        i = i + 1;
    }
    true
}

/// Why a token cannot be stored for a profile.
#[derive(Clone, Debug)]
pub enum StoreError {
    /// The existing item has a different number of attributes.
    DifferentAttributeCount,
    /// The existing item has different attributes; holds the profile name.
    DifferentAttributes(String),
    /// More than one item matches the profile.
    MultipleEntries,
}

impl StoreError {
    /// The message shown to the user.
    pub open spec fn spec_message(self) -> Seq<char> {
        match self {
            StoreError::DifferentAttributeCount =>
                "Profile already exists with different number of attributes. Can't create profile."@,
            StoreError::DifferentAttributes(p) =>
                "Existing profile found with different attrbutes. Can't create profile ("@ + p@ + ")."@,
            StoreError::MultipleEntries =>
                "Multiple entries exist that match the profile. Cannot create item."@,
        }
    }

    /// The message shown to the user.
    pub fn message(&self) -> (m: String)
        ensures
            m@ == self.spec_message(),
    {
        match self {
            StoreError::DifferentAttributeCount => String::from_str(
                "Profile already exists with different number of attributes. Can't create profile.",
            ),
            StoreError::DifferentAttributes(p) => {
                let mut m = String::from_str(
                    "Existing profile found with different attrbutes. Can't create profile (",
                );
                m.append(p.as_str());
                m.append(").");
                m
            },
            StoreError::MultipleEntries => String::from_str(
                "Multiple entries exist that match the profile. Cannot create item.",
            ),
        }
    }
}

/// Decides whether a profile's token may be stored, given how many items the
/// search for the profile found and, when it found exactly one, that item's
/// attributes. Storing is allowed when none was found, or when the one found
/// has exactly the attributes the new item will have (it is then replaced);
/// when neither list repeats a name, that is when both describe the same map.
pub fn check_existing_profile_item(
    profile: &str,
    expected: &Vec<(String, String)>,
    item_count: usize,
    first_item_attributes: Option<&Vec<(String, String)>>,
) -> (r: Result<(), StoreError>)
    requires
        item_count == 1 ==> first_item_attributes is Some,
    ensures
        item_count == 0 ==> r is Ok,
        item_count > 1 ==> (r matches Err(StoreError::MultipleEntries)),
        item_count == 1 ==> match first_item_attributes {
            Some(found) => if found@.len() != expected@.len() {
                r matches Err(StoreError::DifferentAttributeCount)
            } else if !attributes_agree(expected@, found@) {
                r matches Err(StoreError::DifferentAttributes(p)) && p@ == profile@
            } else {
                r is Ok
            },
            None => false,
        },
        item_count == 1 ==> match first_item_attributes {
            Some(found) => keys_unique(expected@) && keys_unique(found@) ==> (r is Ok <==> pairs_map(
                expected@,
            ) == pairs_map(found@)),
            None => true,
        },
{
    proof {
        if let Some(found) = first_item_attributes {
            if keys_unique(expected@) && keys_unique(found@) {
                lemma_attributes_agree_iff_same_map(expected@, found@);
            }
        }
    }
    if item_count == 0 {
        Ok(())
    } else if item_count == 1 {
        match first_item_attributes {
            Some(found) => {
                if found.len() != expected.len() {
                    Err(StoreError::DifferentAttributeCount)
                } else if !attributes_match(expected, found) {
                    Err(StoreError::DifferentAttributes(profile.to_owned()))
                } else {
                    Ok(())
                }
            },
            None => Err(StoreError::MultipleEntries),
        }
    } else {
        Err(StoreError::MultipleEntries)
    }
}

/// Why a profile's stored item cannot be chosen.
#[derive(Clone, Debug)]
pub enum LookupError {
    /// More than one item matches the profile; holds the profile name.
    MultipleEntries(String),
}

impl LookupError {
    /// The message shown to the user.
    pub fn message(&self) -> (m: String)
        ensures
            m@ == match self {
                LookupError::MultipleEntries(p) => "Found multiple entries for profile ("@ + p@
                    + ")."@,
            },
    {
        match self {
            LookupError::MultipleEntries(p) => {
                let mut m = String::from_str("Found multiple entries for profile (");
                m.append(p.as_str());
                m.append(").");
                m
            },
        }
    }
}

/// Chooses a profile's item among the items its search found: none when
/// nothing was found, the one found when there is one, an error when more.
pub fn select_profile_item<T>(items: Vec<T>, profile: &str) -> (r: Result<Option<T>, LookupError>)
    ensures
        items@.len() == 0 ==> (r matches Ok(None)),
        items@.len() == 1 ==> (r matches Ok(Some(t)) && t == items@[0]),
        items@.len() > 1 ==> (r matches Err(LookupError::MultipleEntries(p)) && p@ == profile@),
{
    let mut items = items;
    if items.len() > 1 {
        Err(LookupError::MultipleEntries(profile.to_owned()))
    } else if items.len() == 1 {
        Ok(Some(items.swap_remove(0)))
    } else {
        Ok(None)
    }
}

/// What a stored item's attributes say about its token.
#[derive(Clone, Debug)]
pub struct StoredProfile {
    pub realm: String,
    pub environment: AuthEnvironment,
}

/// Reads the realm and the environment from a stored item's attributes; the
/// environment name is compared without ASCII case. An unknown environment
/// gives the message `invalid variant: <name>`.
pub fn stored_profile_fields(attributes: &Vec<(String, String)>) -> (r: Result<StoredProfile, String>)
    requires
        pair_lookup(attributes@, "realm"@) is Some,
        pair_lookup(attributes@, "environment"@) is Some,
    ensures
        match r {
            Ok(p) => p.realm@ == pair_lookup(attributes@, "realm"@).unwrap() && parsed_environment(
                pair_lookup(attributes@, "environment"@).unwrap(),
                true,
            ) == Some(p.environment),
            Err(m) => parsed_environment(pair_lookup(attributes@, "environment"@).unwrap(), true) is None
                && m@ == "invalid variant: "@ + pair_lookup(attributes@, "environment"@).unwrap(),
        },
{
    let realm = match lookup_pair(attributes, "realm") {
        Some(v) => v,
        None => return Err(String::new()),
    };
    let environment = match lookup_pair(attributes, "environment") {
        Some(v) => v,
        None => return Err(String::new()),
    };
    match AuthEnvironment::from_str(environment.as_str(), true) {
        Ok(e) => Ok(StoredProfile { realm, environment: e }),
        Err(m) => Err(m),
    }
}

/// The attributes that `profile_item_attributes` writes, with the
/// environment written by `arg_string`, name that realm and environment.
proof fn lemma_written_attributes(
    a: Seq<(String, String)>,
    profile: Seq<char>,
    environment: AuthEnvironment,
    realm: Seq<char>,
)
    requires
        pairs_view(a) == seq![
            ("server"@, "qbcli"@),
            ("profile"@, profile),
            ("environment"@, environment.arg_name()),
            ("realm"@, realm),
        ],
    ensures
        pair_lookup(a, "realm"@) == Some(realm),
        pair_lookup(a, "environment"@) == Some(environment.arg_name()),
{
    reveal_strlit("realm");
    reveal_strlit("environment");
    reveal_strlit("profile");
    reveal_strlit("server");
    assert(pairs_view(a).len() == 4);
    assert(a.len() == 4);
    assert((a[3].0@, a[3].1@) == pairs_view(a)[3]);
    assert((a[2].0@, a[2].1@) == pairs_view(a)[2]);
    assert((a[1].0@, a[1].1@) == pairs_view(a)[1]);
    assert((a[0].0@, a[0].1@) == pairs_view(a)[0]);
    assert(a.drop_last().last() == a[2]);
    assert(a.drop_last().drop_last().last() == a[1]);
    assert(a.drop_last().drop_last().drop_last().last() == a[0]);
    assert(a.drop_last().drop_last().drop_last().drop_last().len() == 0);
    assert("realm"@.len() == 5);
    assert("environment"@.len() == 11);
    assert("profile"@.len() == 7);
    assert("server"@.len() == 6);
    assert("realm"@ != "environment"@);
    assert("environment"@ != "profile"@);
    assert("environment"@ != "server"@);
    assert(pair_lookup(a.drop_last(), "environment"@) == Some(environment.arg_name()));
}

/// Two attribute lists that describe the same map give the same value for
/// every name, whatever the order of their entries.
pub proof fn lemma_lookup_same_map(a: Seq<(String, String)>, b: Seq<(String, String)>, k: Seq<char>)
    requires
        pairs_map(a) == pairs_map(b),
    ensures
        pair_lookup(a, k) == pair_lookup(b, k),
{
    lemma_lookup_reads_map(a, k);
    lemma_lookup_reads_map(b, k);
}

/// A token stored for a profile is read back with the realm and the
/// environment it was stored with: when the attributes read back from the
/// secret store, in any order, describe the same map as those that
/// `profile_item_attributes` wrote (with the environment written by
/// `arg_string`), `stored_profile_fields` finds that realm and that
/// environment.
pub proof fn lemma_stored_profile_read_back(
    written: Seq<(String, String)>,
    found: Seq<(String, String)>,
    profile: Seq<char>,
    environment: AuthEnvironment,
    realm: Seq<char>,
)
    requires
        pairs_view(written) == seq![
            ("server"@, "qbcli"@),
            ("profile"@, profile),
            ("environment"@, environment.arg_name()),
            ("realm"@, realm),
        ],
        pairs_map(found) == pairs_map(written),
    ensures
        pair_lookup(found, "realm"@) == Some(realm),
        pair_lookup(found, "environment"@) == Some(environment.arg_name()),
        parsed_environment(pair_lookup(found, "environment"@).unwrap(), true) == Some(environment),
{
    lemma_written_attributes(written, profile, environment, realm);
    lemma_lookup_same_map(found, written, "realm"@);
    lemma_lookup_same_map(found, written, "environment"@);
    crate::util::lemma_arg_name_round_trip(environment, true);
}

/// A JSON value as the `serde_json` crate holds it, carried through unchanged.
#[verifier::external_type_specification]
#[verifier::external_body]
pub struct ExJsonValue(serde_json::Value);

/// The `toml` crate's parse error, carried through unchanged.
#[verifier::external_type_specification]
#[verifier::external_body]
pub struct ExTomlDeError(toml::de::Error);

/// The `toml` crate's serialization error, carried through unchanged.
#[verifier::external_type_specification]
#[verifier::external_body]
pub struct ExTomlSerError(toml::ser::Error);

/// The fields of an OAuth bearer token, as the `openid` crate's `Bearer` has them.
#[derive(Debug)]
pub struct BearerFields {
    pub access_token: String,
    pub token_type: String,
    pub scope: Option<String>,
    pub state: Option<String>,
    pub refresh_token: Option<String>,
    pub expires_in: Option<u64>,
    pub id_token: Option<String>,
    /// Properties beyond the standard ones, as JSON values.
    pub extra: Option<std::collections::HashMap<String, serde_json::Value>>,
}

/// The standard fields of a bearer token as plain values.
pub struct BearerView {
    pub access_token: Seq<char>,
    pub token_type: Seq<char>,
    pub scope: Option<Seq<char>>,
    pub state: Option<Seq<char>>,
    pub refresh_token: Option<Seq<char>>,
    pub expires_in: Option<u64>,
    pub id_token: Option<Seq<char>>,
}

/// An optional string as an optional character sequence.
pub open spec fn opt_text(o: Option<String>) -> Option<Seq<char>> {
    match o {
        Some(s) => Some(s@),
        None => None,
    }
}

impl View for BearerFields {
    type V = BearerView;

    open spec fn view(&self) -> BearerView {
        BearerView {
            access_token: self.access_token@,
            token_type: self.token_type@,
            scope: opt_text(self.scope),
            state: opt_text(self.state),
            refresh_token: opt_text(self.refresh_token),
            expires_in: self.expires_in,
            id_token: opt_text(self.id_token),
        }
    }
}

/// The standard fields of the bearer that the `toml` crate reads from
/// `secret` (as an `openid::Bearer`), or `None` where it reads none.
pub uninterp spec fn toml_bearer(secret: Seq<u8>) -> Option<BearerView>;

/// The TOML text that the `toml` crate writes for an `openid::Bearer` with
/// these standard fields and no extra properties, or `None` where it fails.
pub uninterp spec fn bearer_toml(b: BearerView) -> Option<Seq<char>>;

/// Calls `toml::from_slice::<openid::Bearer>` on a stored secret and moves
/// the bearer's fields into a `BearerFields`. Claimed: success and the
/// standard fields are the name `toml_bearer` of the bytes. Nothing is
/// claimed of the extra properties, nor of the error beyond its being the
/// crate's own.
#[verifier::external_body]
fn parse_stored_bearer(secret: &[u8]) -> (r: Result<BearerFields, toml::de::Error>)
    ensures
        match r {
            Ok(f) => toml_bearer(secret@) == Some(f@),
            Err(_) => toml_bearer(secret@) is None,
        },
{
    match toml::from_slice::<openid::Bearer>(secret) {
        Ok(b) => Ok(BearerFields {
            access_token: b.access_token,
            token_type: b.token_type,
            scope: b.scope,
            state: b.state,
            refresh_token: b.refresh_token,
            expires_in: b.expires_in,
            id_token: b.id_token,
            extra: b.extra,
        }),
        Err(e) => Err(e),
    }
}

/// Calls `toml::to_string` on the `openid::Bearer` with the given fields.
/// Claimed, for a bearer without extra properties: success and the text are
/// the name `bearer_toml` of the standard fields. With extra properties the
/// text also depends on them (and on the order a hash map lists them in),
/// so nothing is claimed then.
#[verifier::external_body]
fn write_bearer_toml(b: &BearerFields) -> (r: Result<String, toml::ser::Error>)
    ensures
        b.extra is None ==> match r {
            Ok(s) => bearer_toml(b@) == Some(s@),
            Err(_) => bearer_toml(b@) is None,
        },
{
    toml::to_string(
        &openid::Bearer {
            access_token: b.access_token.clone(),
            token_type: b.token_type.clone(),
            scope: b.scope.clone(),
            state: b.state.clone(),
            refresh_token: b.refresh_token.clone(),
            expires_in: b.expires_in,
            id_token: b.id_token.clone(),
            extra: b.extra.clone(),
        },
    )
}

/// The secret a profile's item holds: the bearer token written as TOML.
pub fn token_item_secret(bearer: &BearerFields) -> (r: Result<String, toml::ser::Error>)
    ensures
        bearer.extra is None ==> match r {
            Ok(s) => bearer_toml(bearer@) == Some(s@),
            Err(_) => bearer_toml(bearer@) is None,
        },
{
    write_bearer_toml(bearer)
}

/// Why a stored token could not be read back.
#[derive(Debug)]
pub enum StoredTokenError {
    /// The secret is not a bearer token in TOML form.
    Secret(toml::de::Error),
    /// The item lacks the named attribute.
    MissingAttribute(String),
    /// The item's environment attribute names no environment; holds the message.
    Environment(String),
}

/// Reads a stored token back: the bearer from the item's secret, then the
/// realm and the environment from its attributes (the environment compared
/// without ASCII case). Problems are reported in that order.
pub fn stored_profile_token(secret: &[u8], attributes: &Vec<(String, String)>) -> (r: Result<
    (BearerFields, StoredProfile),
    StoredTokenError,
>)
    ensures
        match toml_bearer(secret@) {
            None => (r matches Err(StoredTokenError::Secret(_))),
            Some(v) => match (
                pair_lookup(attributes@, "realm"@),
                pair_lookup(attributes@, "environment"@),
            ) {
                (None, _) => (r matches Err(StoredTokenError::MissingAttribute(n)) && n@
                    == "realm"@),
                (Some(_), None) => (r matches Err(StoredTokenError::MissingAttribute(n)) && n@
                    == "environment"@),
                (Some(realm), Some(env)) => match parsed_environment(env, true) {
                    Some(e) => (r matches Ok((b, p)) && b@ == v && p.realm@ == realm
                        && p.environment == e),
                    None => (r matches Err(StoredTokenError::Environment(m)) && m@
                        == "invalid variant: "@ + env),
                },
            },
        },
{
    let bearer = match parse_stored_bearer(secret) {
        Ok(b) => b,
        Err(e) => return Err(StoredTokenError::Secret(e)),
    };
    if lookup_pair(attributes, "realm").is_none() {
        return Err(StoredTokenError::MissingAttribute(String::from_str("realm")));
    }
    if lookup_pair(attributes, "environment").is_none() {
        return Err(StoredTokenError::MissingAttribute(String::from_str("environment")));
    }
    match stored_profile_fields(attributes) {
        Ok(p) => Ok((bearer, p)),
        Err(m) => Err(StoredTokenError::Environment(m)),
    }
}

// ---------------------------------------------------------------------------
// Attribute lists as maps
// ---------------------------------------------------------------------------

/// Looking a name up in a list is reading the list's map.
pub proof fn lemma_lookup_reads_map(a: Seq<(String, String)>, k: Seq<char>)
    ensures
        pairs_map(a).dom().finite(),
        pair_lookup(a, k) == (if pairs_map(a).dom().contains(k) {
            Some(pairs_map(a)[k])
        } else {
            None
        }),
    decreases a.len(),
{
    if a.len() > 0 {
        lemma_lookup_reads_map(a.drop_last(), k);
    }
}

/// A name is in the map exactly when some entry carries it.
proof fn lemma_map_dom(a: Seq<(String, String)>, k: Seq<char>)
    ensures
        pairs_map(a).dom().contains(k) <==> exists|i: int| 0 <= i < a.len() && #[trigger] a[i].0@
            == k,
    decreases a.len(),
{
    if a.len() > 0 {
        let b = a.drop_last();
        lemma_map_dom(b, k);
        if pairs_map(a).dom().contains(k) {
            if k == a.last().0@ {
                assert(a[a.len() - 1].0@ == k);
            } else {
                let i = choose|i: int| 0 <= i < b.len() && #[trigger] b[i].0@ == k;
                assert(a[i].0@ == k);
            }
        }
        if exists|i: int| 0 <= i < a.len() && #[trigger] a[i].0@ == k {
            let i = choose|i: int| 0 <= i < a.len() && #[trigger] a[i].0@ == k;
            if i < a.len() - 1 {
                assert(b[i].0@ == k);
            }
        }
    }
}

/// With unique names, each entry's value is what the map holds for its name.
proof fn lemma_map_value(a: Seq<(String, String)>, i: int)
    requires
        keys_unique(a),
        0 <= i < a.len(),
    ensures
        pairs_map(a).dom().contains(a[i].0@),
        pairs_map(a)[a[i].0@] == a[i].1@,
    decreases a.len(),
{
    if i < a.len() - 1 {
        let b = a.drop_last();
        assert(b[i] == a[i]);
        assert(a[i].0@ != a[a.len() - 1].0@);
        lemma_map_value(b, i);
    }
}

/// With unique names, the map has one entry per list entry.
proof fn lemma_map_len(a: Seq<(String, String)>)
    requires
        keys_unique(a),
    ensures
        pairs_map(a).dom().finite(),
        pairs_map(a).dom().len() == a.len(),
    decreases a.len(),
{
    lemma_lookup_reads_map(a, seq![]);
    if a.len() > 0 {
        let b = a.drop_last();
        assert(keys_unique(b)) by {
            assert forall|i: int, j: int| 0 <= i < j < b.len() implies #[trigger] b[i].0@
                != #[trigger] b[j].0@ by {
                assert(a[i] == b[i]);
                assert(a[j] == b[j]);
            }
        }
        lemma_map_len(b);
        lemma_lookup_reads_map(b, seq![]);
        let k = a.last().0@;
        lemma_map_dom(b, k);
        if pairs_map(b).dom().contains(k) {
            let i = choose|i: int| 0 <= i < b.len() && #[trigger] b[i].0@ == k;
            assert(a[i] == b[i]);
            assert(a[i].0@ != a[a.len() - 1].0@);
        }
    }
}

/// For attribute lists without repeated names, the found attributes agree
/// with the expected ones exactly when both lists describe the same map.
pub proof fn lemma_attributes_agree_iff_same_map(
    expected: Seq<(String, String)>,
    found: Seq<(String, String)>,
)
    requires
        keys_unique(expected),
        keys_unique(found),
    ensures
        attributes_agree(expected, found) <==> pairs_map(expected) == pairs_map(found),
{
    let e = pairs_map(expected);
    let f = pairs_map(found);
    lemma_map_len(expected);
    lemma_map_len(found);
    if attributes_agree(expected, found) {
        assert forall|k: Seq<char>| #[trigger] e.dom().contains(k) implies f.dom().contains(k) && f[k] == e[k] by {
            lemma_map_dom(expected, k);
            let i = choose|i: int| 0 <= i < expected.len() && #[trigger] expected[i].0@ == k;
            lemma_map_value(expected, i);
            assert(pair_lookup(found, expected[i].0@) == Some(expected[i].1@));
            lemma_lookup_reads_map(found, k);
        }
        assert(e.dom().subset_of(f.dom()));
        assert(e.dom().len() == f.dom().len());
        vstd::set_lib::lemma_subset_equality(e.dom(), f.dom());
        assert(e =~= f);
    }
    if e == f {
        assert forall|i: int| 0 <= i < expected.len() implies pair_lookup(
            found,
            (#[trigger] expected[i]).0@,
        ) == Some(expected[i].1@) by {
            lemma_map_value(expected, i);
            lemma_lookup_reads_map(found, expected[i].0@);
        }
    }
}

} // verus!
