//! Settings of the document-understanding service, and the errors of the pipeline.
use vstd::prelude::*;

verus! {

/// Where the processor lives and how to authenticate to it.
pub struct OcrSettings {
    pub project_id: Option<String>,
    /// `us` where absent.
    pub location: Option<String>,
    pub processor_id: Option<String>,
    /// The service-account key, as JSON text.
    pub service_account_json: Option<String>,
}

impl OcrSettings {
    /// Project, processor and service account are all present.
    pub open spec fn configured(&self) -> bool {
        self.project_id is Some && self.processor_id is Some && self.service_account_json is Some
    }

    pub open spec fn location_view(&self) -> Seq<char> {
        match self.location {
            Some(l) => l@,
            None => "us"@,
        }
    }

    /// Whether project, processor and service account are all present.
    pub fn is_configured(&self) -> (r: bool)
        ensures
            r == self.configured(),
    {
        self.project_id.is_some() && self.processor_id.is_some()
            && self.service_account_json.is_some()
    }

    /// The location, `us` where none is set.
    pub fn location_or_default(&self) -> (r: String)
        ensures
            r@ == self.location_view(),
    {
        match &self.location {
            Some(l) => l.clone(),
            None => String::from_str("us"),
        }
    }
}

impl Default for OcrSettings {
    fn default() -> (r: OcrSettings)
        ensures
            r.project_id is None,
            r.location is None,
            r.processor_id is None,
            r.service_account_json is None,
    {
        OcrSettings { project_id: None, location: None, processor_id: None, service_account_json: None }
    }
}

/// Why one extraction or connection test failed.
pub enum ProviderError {
    /// Project, processor or service account is missing.
    Configuration,
    /// No provider is registered.
    NoProvider,
    CredentialParse(String),
    /// The private key is malformed.
    Signing(String),
    /// The key was read but the assertion could not be made.
    Assertion(String),
    /// The token endpoint could not be reached.
    TokenRequest(String),
    /// The token endpoint answered with a status other than 2xx; `status_line` is
    /// the status as the HTTP client writes it, such as `401 Unauthorized`.
    TokenHttp { status: u16, status_line: String, body: String },
    TokenParse(String),
    /// The processing endpoint could not be reached.
    ProcessingRequest(String),
    ProcessingHttp { status: u16, status_line: String, body: String },
    ProcessingParse(String),
}

pub open spec fn status_text(prefix: Seq<char>, status_line: Seq<char>, body: Seq<char>) -> Seq<char> {
    prefix + status_line + " - "@ + body
}

/// The message that reports an error.
pub open spec fn error_text(e: ProviderError) -> Seq<char> {
    match e {
        ProviderError::Configuration => "OCR設定が不完全です"@,
        ProviderError::NoProvider => "OCRプロバイダーが見つかりません"@,
        ProviderError::CredentialParse(d) => "サービスアカウントJSONのパースに失敗しました: "@ + d@,
        ProviderError::Signing(d) => "秘密鍵のパースに失敗しました: "@ + d@,
        ProviderError::Assertion(d) => "JWTの生成に失敗しました: "@ + d@,
        ProviderError::TokenRequest(d) => "トークンリクエストに失敗しました: "@ + d@,
        ProviderError::TokenHttp { status_line, body, .. } => status_text(
            "トークン取得に失敗しました: HTTP "@,
            status_line@,
            body@,
        ),
        ProviderError::TokenParse(d) => "トークンレスポンスのパースに失敗しました: "@ + d@,
        ProviderError::ProcessingRequest(d) => "Document AI APIリクエストに失敗しました: "@ + d@,
        ProviderError::ProcessingHttp { status_line, body, .. } => status_text(
            "Document AI処理に失敗しました: HTTP "@,
            status_line@,
            body@,
        ),
        ProviderError::ProcessingParse(d) => "Document AIレスポンスのパースに失敗しました: "@ + d@,
    }
}

/// The message that reports an error of a connection test.
pub open spec fn connection_test_error_text(e: ProviderError) -> Seq<char> {
    match e {
        ProviderError::Configuration => "設定が不完全です"@,
        _ => error_text(e),
    }
}

fn with_detail(prefix: &str, detail: &String) -> (r: String)
    ensures
        r@ == prefix@ + detail@,
{
    let mut out = String::from_str(prefix);
    out.append(detail.as_str());
    out
}

fn with_status(prefix: &str, status_line: &String, body: &String) -> (r: String)
    ensures
        r@ == status_text(prefix@, status_line@, body@),
{
    let mut out = String::from_str(prefix);
    out.append(status_line.as_str());
    out.append(" - ");
    out.append(body.as_str());
    out
}

impl ProviderError {
    /// The message that reports this error.
    pub fn message(&self) -> (r: String)
        ensures
            r@ == error_text(*self),
    {
        match self {
            ProviderError::Configuration => String::from_str("OCR設定が不完全です"),
            ProviderError::NoProvider => String::from_str("OCRプロバイダーが見つかりません"),
            ProviderError::CredentialParse(d) => with_detail(
                "サービスアカウントJSONのパースに失敗しました: ",
                d,
            ),
            ProviderError::Signing(d) => with_detail("秘密鍵のパースに失敗しました: ", d),
            ProviderError::Assertion(d) => with_detail("JWTの生成に失敗しました: ", d),
            ProviderError::TokenRequest(d) => with_detail("トークンリクエストに失敗しました: ", d),
            ProviderError::TokenHttp { status_line, body, .. } => with_status(
                "トークン取得に失敗しました: HTTP ",
                status_line,
                body,
            ),
            ProviderError::TokenParse(d) => with_detail(
                "トークンレスポンスのパースに失敗しました: ",
                d,
            ),
            ProviderError::ProcessingRequest(d) => with_detail(
                "Document AI APIリクエストに失敗しました: ",
                d,
            ),
            ProviderError::ProcessingHttp { status_line, body, .. } => with_status(
                "Document AI処理に失敗しました: HTTP ",
                status_line,
                body,
            ),
            ProviderError::ProcessingParse(d) => with_detail(
                "Document AIレスポンスのパースに失敗しました: ",
                d,
            ),
        }
    }

    /// The message that reports this error when it ends a connection test.
    pub fn connection_test_message(&self) -> (r: String)
        ensures
            r@ == connection_test_error_text(*self),
    {
        match self {
            ProviderError::Configuration => String::from_str("設定が不完全です"),
            _ => self.message(),
        }
    }
}

} // verus!
