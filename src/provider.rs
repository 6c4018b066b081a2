//! OCR providers and the registry that holds them.
use vstd::prelude::*;
use crate::protocol::{
    begin_token_exchange, credential_key, exchange_outcome, request_view, sign_error_fits,
    TokenRequest, ASSERTION_LIFETIME,
};
use crate::receipt::{OcrResult, ReceiptData};
use crate::settings::{error_text, OcrSettings, ProviderError};

verus! {

/// What every OCR provider offers besides the remote calls themselves.
pub trait OcrProvider {
    spec fn spec_name(&self) -> Seq<char>;

    spec fn spec_configured(&self, settings: &OcrSettings) -> bool;

    /// For configured settings at time `now`: `None` where the credential does
    /// not read, `Some(None)` where it does not sign, else the request to send.
    spec fn spec_exchange(&self, settings: &OcrSettings, now: int) -> Option<
        Option<(Seq<char>, Seq<(Seq<char>, Seq<char>)>)>,
    >;

    /// The error that reports a credential that read but did not sign.
    spec fn spec_sign_error(&self, settings: &OcrSettings, e: ProviderError) -> bool;

    /// The provider's name.
    fn name(&self) -> (r: String)
        ensures
            r@ == self.spec_name(),
    ;

    /// Whether `settings` hold all that the provider needs.
    fn is_configured(&self, settings: &OcrSettings) -> (r: bool)
        ensures
            r == self.spec_configured(settings),
    ;

    /// The first step of a connection test or an extraction at time `now`: the
    /// token request to send, or why none is sent.
    fn begin_exchange(&self, settings: &OcrSettings, now: i64) -> (r: Result<
        TokenRequest,
        ProviderError,
    >)
        requires
            now <= i64::MAX - ASSERTION_LIFETIME,
        ensures
            !self.spec_configured(settings) ==> r matches Err(ProviderError::Configuration),
            self.spec_configured(settings) ==> match self.spec_exchange(settings, now as int) {
                None => r matches Err(ProviderError::CredentialParse(_)),
                Some(None) => r matches Err(e) && self.spec_sign_error(settings, e),
                Some(Some(q)) => r matches Ok(t) && request_view(t) == q,
            },
    ;
}

/// The provider backed by Google Cloud Document AI.
pub struct GoogleDocumentAiProvider {}

impl GoogleDocumentAiProvider {
    pub fn new() -> (r: GoogleDocumentAiProvider) {
        GoogleDocumentAiProvider {  }
    }
}

impl Default for GoogleDocumentAiProvider {
    fn default() -> (r: GoogleDocumentAiProvider) {
        GoogleDocumentAiProvider::new()
    }
}

impl OcrProvider for GoogleDocumentAiProvider {
    open spec fn spec_name(&self) -> Seq<char> {
        "googledocumentai"@
    }

    open spec fn spec_configured(&self, settings: &OcrSettings) -> bool {
        settings.configured()
    }

    open spec fn spec_exchange(&self, settings: &OcrSettings, now: int) -> Option<
        Option<(Seq<char>, Seq<(Seq<char>, Seq<char>)>)>,
    > {
        exchange_outcome(settings.service_account_json->0@, now)
    }

    open spec fn spec_sign_error(&self, settings: &OcrSettings, e: ProviderError) -> bool {
        sign_error_fits(credential_key(settings.service_account_json->0@), e)
    }

    fn name(&self) -> (r: String) {
        String::from_str("googledocumentai")
    }

    fn is_configured(&self, settings: &OcrSettings) -> (r: bool) {
        settings.is_configured()
    }

    fn begin_exchange(&self, settings: &OcrSettings, now: i64) -> (r: Result<
        TokenRequest,
        ProviderError,
    >) {
        begin_token_exchange(settings, now)
    }
}

/// The outcome that reports an extraction: its record, or its error's message.
pub fn outcome_of(result: Result<ReceiptData, ProviderError>) -> (r: OcrResult)
    ensures
        r.wf(),
        match result {
            Ok(d) => r.success && r.data == Some(d),
            Err(e) => !r.success && (r.error matches Some(m) && m@ == error_text(e)),
        },
{
    match result {
        Ok(d) => OcrResult::success(d),
        Err(e) => OcrResult::failure(e.message()),
    }
}

/// The index of the first provider, from the `i`-th on, named `name`.
pub open spec fn first_named<P: OcrProvider>(ps: Seq<P>, name: Seq<char>, i: int) -> Option<int>
    decreases ps.len() - i,
{
    if 0 <= i < ps.len() {
        if ps[i].spec_name() == name {
            Some(i)
        } else {
            first_named(ps, name, i + 1)
        }
    } else {
        None
    }
}

/// Registered providers, in order of registration.
pub struct OcrProviderRegistry<P: OcrProvider> {
    providers: Vec<P>,
}

impl<P: OcrProvider> OcrProviderRegistry<P> {
    pub closed spec fn view(&self) -> Seq<P> {
        self.providers@
    }

    /// A registry with no provider.
    pub fn empty() -> (r: OcrProviderRegistry<P>)
        ensures
            r@ == Seq::<P>::empty(),
    {
        OcrProviderRegistry { providers: Vec::new() }
    }

    /// Adds a provider after those already registered.
    pub fn register(&mut self, provider: P)
        ensures
            final(self)@ == old(self)@.push(provider),
    {
        self.providers.push(provider);
    }

    /// The first registered provider.
    pub fn get_default_provider(&self) -> (r: Option<&P>)
        ensures
            self@.len() == 0 ==> r is None,
            self@.len() > 0 ==> (r matches Some(p) && *p == self@[0]),
    {
        if self.providers.len() == 0 {
            None
        } else {
            Some(&self.providers[0])
        }
    }

    /// The first registered provider named `name`.
    pub fn get_provider(&self, name: &str) -> (r: Option<&P>)
        ensures
            match first_named(self@, name@, 0) {
                Some(i) => (r matches Some(p) && *p == self@[i]),
                None => r is None,
            },
    {
        let target = String::from_str(name);
        let mut i: usize = 0;
        while i < self.providers.len()
            invariant
                target@ == name@,
                i <= self@.len(),
                first_named(self@, name@, i as int) == first_named(self@, name@, 0),
            decreases self@.len() - i,
        {
            let n = self.providers[i].name();
            if n.eq(&target) {
                return Some(&self.providers[i]);
            }
            i = i + 1;
        }
        None
    }

    /// The names of the registered providers, in order of registration.
    pub fn list_providers(&self) -> (r: Vec<String>)
        ensures
            r@.len() == self@.len(),
            forall|i: int| 0 <= i < r@.len() ==> #[trigger] r@[i]@ == self@[i].spec_name(),
    {
        let mut out: Vec<String> = Vec::new();
        let mut i: usize = 0;
        while i < self.providers.len()
            invariant
                i <= self@.len(),
                out@.len() == i,
                forall|j: int| 0 <= j < i ==> #[trigger] out@[j]@ == self@[j].spec_name(),
            decreases self@.len() - i,
        {
            out.push(self.providers[i].name());
            i = i + 1;
        }
        out
    }
}

impl OcrProviderRegistry<GoogleDocumentAiProvider> {
    /// A registry holding the Document AI provider.
    pub fn new() -> (r: OcrProviderRegistry<GoogleDocumentAiProvider>)
        ensures
            r@.len() == 1,
            r@[0].spec_name() == "googledocumentai"@,
    {
        let mut r = OcrProviderRegistry::empty();
        r.register(GoogleDocumentAiProvider::new());
        r
    }
}

impl Default for OcrProviderRegistry<GoogleDocumentAiProvider> {
    fn default() -> (r: OcrProviderRegistry<GoogleDocumentAiProvider>)
        ensures
            r@.len() == 1,
            r@[0].spec_name() == "googledocumentai"@,
    {
        OcrProviderRegistry::new()
    }
}

} // verus!
