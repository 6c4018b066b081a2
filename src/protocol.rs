//! The steps of the remote protocol: the service-account credential, the signed
//! token exchange, and the document-processing request and response. Sending
//! the requests is left to the caller; every decision between them is here.
use vstd::prelude::*;
use crate::entity::{amount_view, opt_view, EntityNode};
use crate::receipt::{
    date_types, field_amount, field_text, merchant_types, receipt_from_entities, total_types,
    ReceiptData,
};
use crate::settings::{OcrSettings, ProviderError};
use crate::text::digit_char;

verus! {

/// What a JSON text says under `key`: `None` where the text is not a JSON
/// object or the member is neither a string nor null; `Some(None)` where the
/// member is absent or null; `Some(Some(s))` where it is the string `s`.
pub uninterp spec fn json_string_member(text: Seq<char>, key: Seq<char>) -> Option<Option<Seq<char>>>;

pub open spec fn nested_view(o: Option<Option<String>>) -> Option<Option<Seq<char>>> {
    match o {
        Some(inner) => Some(opt_view(inner)),
        None => None,
    }
}

/// Relies on `serde_json::from_str` into a `serde_json::Value` and on
/// `serde_json::Map::get`: reads one string member of a JSON object.
#[verifier::external_body]
fn json_member(text: &str, key: &str) -> (r: Option<Option<String>>)
    ensures
        nested_view(r) == json_string_member(text@, key@),
{
    match serde_json::from_str::<serde_json::Value>(text) {
        Ok(serde_json::Value::Object(m)) => match m.get(key) {
            None | Some(serde_json::Value::Null) => Some(None),
            Some(serde_json::Value::String(s)) => Some(Some(s.clone())),
            Some(_) => None,
        },
        _ => None,
    }
}

pub open spec fn hex_char(n: nat) -> char {
    if n < 10 {
        digit_char(n)
    } else if n == 10 {
        'a'
    } else if n == 11 {
        'b'
    } else if n == 12 {
        'c'
    } else if n == 13 {
        'd'
    } else if n == 14 {
        'e'
    } else {
        'f'
    }
}

/// How one character stands inside a JSON string as `serde_json` writes it.
pub open spec fn json_char_escape(c: char) -> Seq<char> {
    let u = c as u32;
    if c == '"' {
        seq!['\\', '"']
    } else if c == '\\' {
        seq!['\\', '\\']
    } else if u == 8 {
        seq!['\\', 'b']
    } else if u == 9 {
        seq!['\\', 't']
    } else if u == 10 {
        seq!['\\', 'n']
    } else if u == 12 {
        seq!['\\', 'f']
    } else if u == 13 {
        seq!['\\', 'r']
    } else if u < 32 {
        seq!['\\', 'u', '0', '0', hex_char((u / 16) as nat), hex_char((u % 16) as nat)]
    } else {
        seq![c]
    }
}

pub open spec fn json_escaped(s: Seq<char>) -> Seq<char>
    decreases s.len(),
{
    if s.len() == 0 {
        Seq::empty()
    } else {
        json_escaped(s.drop_last()) + json_char_escape(s.last())
    }
}

/// The JSON string literal of `s`: quoted, with quotes, backslashes and control
/// characters escaped.
pub open spec fn json_literal(s: Seq<char>) -> Seq<char> {
    seq!['"'] + json_escaped(s) + seq!['"']
}

/// Relies on `serde_json::Value`'s `Display` for a string value: its JSON literal.
#[verifier::external_body]
fn json_quote(s: &str) -> (r: String)
    ensures
        r@ == json_literal(s@),
{
    serde_json::Value::String(s.to_string()).to_string()
}

/// The claim set `(iss, sub, scope, aud, exp, iat)` of an assertion.
pub type ClaimsView = (Seq<char>, Seq<char>, Seq<char>, Seq<char>, int, int);

/// The compact RS256 JWT that signs `claims` with the RSA key in PEM text `pem`,
/// if the key reads; RSA PKCS#1 v1.5 signatures are deterministic.
pub uninterp spec fn rs256_jwt(claims: ClaimsView, pem: Seq<char>) -> Option<Seq<char>>;

/// Whether `jsonwebtoken::EncodingKey::from_rsa_pem` reads the PEM text as an RSA key.
pub uninterp spec fn rsa_key_reads(pem: Seq<char>) -> bool;

/// Why an assertion could not be signed.
pub enum SignFailure {
    /// The private key did not read.
    Key(String),
    /// The key read but the JWT could not be made.
    Encode(String),
}

/// Relies on `jsonwebtoken::EncodingKey::from_rsa_pem` and `jsonwebtoken::encode`
/// with an RS256 header: reads the key and signs the claims as a compact JWT.
#[verifier::external_body]
fn sign_rs256(claims: &TokenClaims, pem: &str) -> (r: Result<String, SignFailure>)
    ensures
        match r {
            Ok(s) => rsa_key_reads(pem@) && rs256_jwt(claims.view(), pem@) == Some(s@),
            Err(SignFailure::Key(_)) => !rsa_key_reads(pem@) && rs256_jwt(claims.view(), pem@) is None,
            Err(SignFailure::Encode(_)) => rsa_key_reads(pem@) && rs256_jwt(claims.view(), pem@)
                is None,
        },
{
    let key = jsonwebtoken::EncodingKey::from_rsa_pem(pem.as_bytes())
        .map_err(|e| SignFailure::Key(e.to_string()))?;
    let body = std::collections::BTreeMap::from([
        ("iss", serde_json::Value::from(claims.iss.as_str())),
        ("sub", serde_json::Value::from(claims.sub.as_str())),
        ("scope", serde_json::Value::from(claims.scope.as_str())),
        ("aud", serde_json::Value::from(claims.aud.as_str())),
        ("exp", serde_json::Value::from(claims.exp)),
        ("iat", serde_json::Value::from(claims.iat)),
    ]);
    let header = jsonwebtoken::Header::new(jsonwebtoken::Algorithm::RS256);
    jsonwebtoken::encode(&header, &body, &key).map_err(|e| SignFailure::Encode(e.to_string()))
}

/// Seconds for which an assertion is valid.
pub const ASSERTION_LIFETIME: i64 = 3600;

pub open spec fn default_token_endpoint() -> Seq<char> {
    "https://oauth2.googleapis.com/token"@
}

pub open spec fn cloud_platform_scope() -> Seq<char> {
    "https://www.googleapis.com/auth/cloud-platform"@
}

pub open spec fn jwt_bearer_grant() -> Seq<char> {
    "urn:ietf:params:oauth:grant-type:jwt-bearer"@
}

/// The token endpoint for an optional `token_uri`.
pub open spec fn endpoint_of(token_uri: Option<Seq<char>>) -> Seq<char> {
    match token_uri {
        Some(u) => u,
        None => default_token_endpoint(),
    }
}

/// The fields `(client_email, private_key, token_uri)` of a service-account key
/// text, if it is a JSON object with string `client_email` and `private_key` and a
/// `token_uri` that is a string, null or absent.
pub open spec fn credential_fields(text: Seq<char>) -> Option<(Seq<char>, Seq<char>, Option<Seq<char>>)> {
    match (
        json_string_member(text, "client_email"@),
        json_string_member(text, "private_key"@),
        json_string_member(text, "token_uri"@),
    ) {
        (Some(Some(e)), Some(Some(k)), Some(u)) => Some((e, k, u)),
        _ => None,
    }
}

/// The private key of a service-account key text, where the text reads.
pub open spec fn credential_key(text: Seq<char>) -> Seq<char> {
    match credential_fields(text) {
        Some((_, k, _)) => k,
        None => Seq::empty(),
    }
}

/// The claims that assert `client_email` towards `endpoint` at time `now`.
pub open spec fn claims_at(client_email: Seq<char>, endpoint: Seq<char>, now: int) -> ClaimsView {
    (client_email, client_email, cloud_platform_scope(), endpoint, now + ASSERTION_LIFETIME, now)
}

/// A service-account key.
pub struct ServiceAccountCredential {
    pub client_email: String,
    pub private_key: String,
    pub token_uri: Option<String>,
}

impl ServiceAccountCredential {
    pub open spec fn endpoint(&self) -> Seq<char> {
        endpoint_of(opt_view(self.token_uri))
    }

    /// A credential from its fields; email and key are required.
    pub fn from_fields(client_email: Option<String>, private_key: Option<String>, token_uri: Option<
        String,
    >) -> (r: Result<ServiceAccountCredential, ProviderError>)
        ensures
            r is Ok <==> client_email is Some && private_key is Some,
            r matches Ok(c) ==> c.client_email == client_email->0 && c.private_key
                == private_key->0 && c.token_uri == token_uri,
            r matches Err(e) ==> e is CredentialParse,
    {
        match (client_email, private_key) {
            (Some(e), Some(k)) => Ok(
                ServiceAccountCredential { client_email: e, private_key: k, token_uri },
            ),
            (None, _) => Err(ProviderError::CredentialParse(String::from_str("missing client_email"))),
            (_, None) => Err(ProviderError::CredentialParse(String::from_str("missing private_key"))),
        }
    }

    /// Reads a service-account key from its JSON text.
    pub fn parse(raw: &str) -> (r: Result<ServiceAccountCredential, ProviderError>)
        ensures
            match credential_fields(raw@) {
                Some((e, k, u)) => r matches Ok(c) && c.client_email@ == e && c.private_key@ == k
                    && opt_view(c.token_uri) == u,
                None => r matches Err(ProviderError::CredentialParse(_)),
            },
    {
        let email = json_member(raw, "client_email");
        let key = json_member(raw, "private_key");
        let uri = json_member(raw, "token_uri");
        match (email, key, uri) {
            (Some(Some(e)), Some(Some(k)), Some(u)) => Ok(
                ServiceAccountCredential { client_email: e, private_key: k, token_uri: u },
            ),
            _ => Err(
                ProviderError::CredentialParse(
                    String::from_str(
                        "expected a JSON object with string client_email and private_key",
                    ),
                ),
            ),
        }
    }

    /// Where tokens are exchanged: the key's own endpoint, else the default one.
    pub fn token_endpoint(&self) -> (r: String)
        ensures
            r@ == self.endpoint(),
    {
        match &self.token_uri {
            Some(u) => u.clone(),
            None => String::from_str("https://oauth2.googleapis.com/token"),
        }
    }
}

/// The claim set of a token assertion.
pub struct TokenClaims {
    pub iss: String,
    pub sub: String,
    pub scope: String,
    pub aud: String,
    pub exp: i64,
    pub iat: i64,
}

impl TokenClaims {
    pub open spec fn view(&self) -> ClaimsView {
        (self.iss@, self.sub@, self.scope@, self.aud@, self.exp as int, self.iat as int)
    }
}

/// The claims asserting `credential` at time `now`, valid for an hour.
pub fn build_claims(credential: &ServiceAccountCredential, now: i64) -> (r: TokenClaims)
    requires
        now <= i64::MAX - ASSERTION_LIFETIME,
    ensures
        r@ == claims_at(credential.client_email@, credential.endpoint(), now as int),
{
    TokenClaims {
        iss: credential.client_email.clone(),
        sub: credential.client_email.clone(),
        scope: String::from_str("https://www.googleapis.com/auth/cloud-platform"),
        aud: credential.token_endpoint(),
        exp: now + ASSERTION_LIFETIME,
        iat: now,
    }
}

/// A form to post to a token endpoint.
pub struct TokenRequest {
    pub endpoint: String,
    pub form: Vec<(String, String)>,
}

pub open spec fn pair_view(p: (String, String)) -> (Seq<char>, Seq<char>) {
    (p.0@, p.1@)
}

pub open spec fn form_view(form: Seq<(String, String)>) -> Seq<(Seq<char>, Seq<char>)> {
    form.map_values(|p: (String, String)| pair_view(p))
}

/// The form of a JWT-bearer grant carrying `assertion`.
pub open spec fn grant_form(assertion: Seq<char>) -> Seq<(Seq<char>, Seq<char>)> {
    seq![("grant_type"@, jwt_bearer_grant()), ("assertion"@, assertion)]
}

/// The JWT-bearer grant form for `assertion`.
pub fn token_form(assertion: String) -> (r: Vec<(String, String)>)
    ensures
        form_view(r@) == grant_form(assertion@),
{
    let r = vec![
        (String::from_str("grant_type"), String::from_str("urn:ietf:params:oauth:grant-type:jwt-bearer")),
        (String::from_str("assertion"), assertion),
    ];
    assert(form_view(r@) =~= grant_form(assertion@));
    r
}

/// The token request for a key with these fields at time `now`: a grant carrying
/// the signed claims, posted to the key's endpoint; `None` where the key does not
/// sign.
pub open spec fn token_request_for(
    client_email: Seq<char>,
    private_key: Seq<char>,
    token_uri: Option<Seq<char>>,
    now: int,
) -> Option<(Seq<char>, Seq<(Seq<char>, Seq<char>)>)> {
    let endpoint = endpoint_of(token_uri);
    match rs256_jwt(claims_at(client_email, endpoint, now), private_key) {
        Some(a) => Some((endpoint, grant_form(a))),
        None => None,
    }
}

/// The error of a key that does not sign: a key that does not read, or a JWT
/// that could not be made from a key that did.
pub open spec fn sign_error_fits(private_key: Seq<char>, e: ProviderError) -> bool {
    if rsa_key_reads(private_key) {
        e is Assertion
    } else {
        e is Signing
    }
}

pub open spec fn request_view(q: TokenRequest) -> (Seq<char>, Seq<(Seq<char>, Seq<char>)>) {
    (q.endpoint@, form_view(q.form@))
}

/// Signs the claims for `credential` at `now`, and frames the grant that carries them.
pub fn prepare_token_request(credential: &ServiceAccountCredential, now: i64) -> (r: Result<
    TokenRequest,
    ProviderError,
>)
    requires
        now <= i64::MAX - ASSERTION_LIFETIME,
    ensures
        match token_request_for(
            credential.client_email@,
            credential.private_key@,
            opt_view(credential.token_uri),
            now as int,
        ) {
            Some(q) => r matches Ok(t) && request_view(t) == q,
            None => r matches Err(e) && sign_error_fits(credential.private_key@, e),
        },
{
    let claims = build_claims(credential, now);
    match sign_rs256(&claims, credential.private_key.as_str()) {
        Ok(assertion) => {
            let form = token_form(assertion);
            Ok(TokenRequest { endpoint: credential.token_endpoint(), form })
        },
        Err(SignFailure::Key(d)) => Err(ProviderError::Signing(d)),
        Err(SignFailure::Encode(d)) => Err(ProviderError::Assertion(d)),
    }
}

/// What the first step of an extraction or connection test yields for a
/// service-account key text at time `now`.
pub open spec fn exchange_outcome(text: Seq<char>, now: int) -> Option<
    Option<(Seq<char>, Seq<(Seq<char>, Seq<char>)>)>,
> {
    match credential_fields(text) {
        Some((e, k, u)) => Some(token_request_for(e, k, u, now)),
        None => None,
    }
}

/// The first step of every extraction and connection test: checks the settings,
/// reads the credential, and prepares the token exchange for time `now`. No
/// request is owed unless the settings are complete.
pub fn begin_token_exchange(settings: &OcrSettings, now: i64) -> (r: Result<
    TokenRequest,
    ProviderError,
>)
    requires
        now <= i64::MAX - ASSERTION_LIFETIME,
    ensures
        !settings.configured() ==> r matches Err(ProviderError::Configuration),
        settings.configured() ==> match exchange_outcome(
            settings.service_account_json->0@,
            now as int,
        ) {
            None => r matches Err(ProviderError::CredentialParse(_)),
            Some(None) => r matches Err(e) && sign_error_fits(
                credential_key(settings.service_account_json->0@),
                e,
            ),
            Some(Some(q)) => r matches Ok(t) && request_view(t) == q,
        },
{
    if !settings.is_configured() {
        return Err(ProviderError::Configuration);
    }
    let raw = match &settings.service_account_json {
        Some(j) => j,
        None => return Err(ProviderError::Configuration),
    };
    match ServiceAccountCredential::parse(raw.as_str()) {
        Ok(c) => prepare_token_request(&c, now),
        Err(e) => Err(e),
    }
}

pub open spec fn is_success_status(status: u16) -> bool {
    200 <= status <= 299
}

/// Reads the token endpoint's answer: a non-2xx status is reported with its
/// status line, as the HTTP client writes it, and the body;
/// otherwise the body must be a JSON object with a string `access_token`.
pub fn read_token_response(status: u16, status_line: String, body: String) -> (r: Result<
    String,
    ProviderError,
>)
    ensures
        !is_success_status(status) ==> r == Err::<String, ProviderError>(
            ProviderError::TokenHttp { status, status_line, body },
        ),
        is_success_status(status) ==> match json_string_member(body@, "access_token"@) {
            Some(Some(t)) => r matches Ok(s) && s@ == t,
            _ => r matches Err(ProviderError::TokenParse(_)),
        },
{
    if !(200 <= status && status <= 299) {
        return Err(ProviderError::TokenHttp { status, status_line, body });
    }
    match json_member(body.as_str(), "access_token") {
        Some(Some(t)) => Ok(t),
        _ => Err(ProviderError::TokenParse(String::from_str("no string access_token in the response"))),
    }
}

/// A request to the processing endpoint.
pub struct ProcessingRequest {
    pub url: String,
    pub authorization: String,
    pub body: String,
}

pub open spec fn processing_url_text(location: Seq<char>, project: Seq<char>, processor: Seq<char>) -> Seq<char> {
    "https://"@ + location + "-documentai.googleapis.com/v1/projects/"@ + project + "/locations/"@
        + location + "/processors/"@ + processor + ":process"@
}

pub open spec fn processing_body_text(content: Seq<char>, mime_type: Seq<char>) -> Seq<char> {
    "{\"rawDocument\":{\"content\":"@ + json_literal(content) + ",\"mimeType\":"@ + json_literal(
        mime_type,
    ) + "},\"fieldMask\":\"entities\"}"@
}

/// The request that submits one document, base64 `content` of type `mime_type`,
/// with bearer `token`.
pub fn processing_request(settings: &OcrSettings, token: &str, content: &str, mime_type: &str) -> (r:
    ProcessingRequest)
    requires
        settings.configured(),
    ensures
        r.url@ == processing_url_text(
            settings.location_view(),
            settings.project_id->0@,
            settings.processor_id->0@,
        ),
        r.authorization@ == "Bearer "@ + token@,
        r.body@ == processing_body_text(content@, mime_type@),
{
    let location = settings.location_or_default();
    let mut url = String::from_str("https://");
    url.append(location.as_str());
    url.append("-documentai.googleapis.com/v1/projects/");
    match &settings.project_id {
        Some(p) => url.append(p.as_str()),
        None => {},
    }
    url.append("/locations/");
    url.append(location.as_str());
    url.append("/processors/");
    match &settings.processor_id {
        Some(p) => url.append(p.as_str()),
        None => {},
    }
    url.append(":process");
    let mut authorization = String::from_str("Bearer ");
    authorization.append(token);
    let mut body = String::from_str("{\"rawDocument\":{\"content\":");
    body.append(json_quote(content).as_str());
    body.append(",\"mimeType\":");
    body.append(json_quote(mime_type).as_str());
    body.append("},\"fieldMask\":\"entities\"}");
    assert(url@ =~= processing_url_text(
        settings.location_view(),
        settings.project_id->0@,
        settings.processor_id->0@,
    ));
    assert(body@ =~= processing_body_text(content@, mime_type@));
    ProcessingRequest { url, authorization, body }
}

/// Reads the processing endpoint's answer: a non-2xx status is reported with the
/// body; otherwise the entities read from the body, or why they could not be read.
pub fn read_processing_response(status: u16, status_line: String, body: String, entities: Result<
    Vec<EntityNode>,
    String,
>) -> (r: Result<Vec<EntityNode>, ProviderError>)
    ensures
        !is_success_status(status) ==> r == Err::<Vec<EntityNode>, ProviderError>(
            ProviderError::ProcessingHttp { status, status_line, body },
        ),
        is_success_status(status) ==> match entities {
            Ok(es) => r == Ok::<Vec<EntityNode>, ProviderError>(es),
            Err(d) => r == Err::<Vec<EntityNode>, ProviderError>(ProviderError::ProcessingParse(d)),
        },
{
    if !(200 <= status && status <= 299) {
        return Err(ProviderError::ProcessingHttp { status, status_line, body });
    }
    match entities {
        Ok(es) => Ok(es),
        Err(d) => Err(ProviderError::ProcessingParse(d)),
    }
}

/// The last component of a path, as `std::path::Path::file_name` reads it on the
/// target's path syntax.
pub uninterp spec fn file_name_of(path: Seq<char>) -> Option<Seq<char>>;

/// Relies on `std::path::Path::file_name`: the last component of a path.
#[verifier::external_body]
fn path_file_name(path: &str) -> (r: Option<String>)
    ensures
        opt_view(r) == file_name_of(path@),
{
    std::path::Path::new(path).file_name().and_then(|s| s.to_str()).map(|s| s.to_string())
}

/// The file name of a path, or the path itself where it has none.
pub open spec fn base_name(path: Seq<char>) -> Seq<char> {
    match file_name_of(path) {
        Some(n) => n,
        None => path,
    }
}

/// The file name of a path, or the path itself where it has none.
pub fn file_base_name(path: &str) -> (r: String)
    ensures
        r@ == base_name(path@),
{
    match path_file_name(path) {
        Some(n) => n,
        None => String::from_str(path),
    }
}

/// The record of the file at `path`, from the entities its document gave.
pub fn finish_extraction(path: &str, entities: &Vec<EntityNode>) -> (r: ReceiptData)
    ensures
        r.file@ == base_name(path@),
        opt_view(r.merchant) == field_text(entities@, merchant_types()),
        opt_view(r.date) == field_text(entities@, date_types()),
        amount_view(r.amount) == field_amount(entities@, total_types()),
        r.currency is None,
        r.receiver_name is None,
{
    receipt_from_entities(file_base_name(path), entities)
}

} // verus!
