use torifune::batch::{BatchRun, MAX_CONCURRENT_OCR};
use torifune::entity::EntityNode;
use torifune::protocol::{
    begin_token_exchange, build_claims, finish_extraction,
    prepare_token_request, processing_request, read_processing_response, read_token_response,
    token_form, ServiceAccountCredential,
};
use torifune::provider::{outcome_of, GoogleDocumentAiProvider, OcrProvider, OcrProviderRegistry};
use torifune::receipt::{OcrResult, ReceiptData};
use torifune::settings::{OcrSettings, ProviderError};

fn full_settings(account: &str) -> OcrSettings {
    OcrSettings {
        project_id: Some("proj".to_string()),
        location: None,
        processor_id: Some("proc".to_string()),
        service_account_json: Some(account.to_string()),
    }
}

fn credential(uri: Option<&str>) -> ServiceAccountCredential {
    ServiceAccountCredential {
        client_email: "svc@example.com".to_string(),
        private_key: "not a key".to_string(),
        token_uri: uri.map(|s| s.to_string()),
    }
}

#[test]
fn connection_test_without_processor_is_configuration_error() {
    let mut s = full_settings("{}");
    s.processor_id = None;
    assert!(!s.is_configured());
    assert!(matches!(begin_token_exchange(&s, 1_700_000_000), Err(ProviderError::Configuration)));
    assert!(!GoogleDocumentAiProvider::new().is_configured(&s));
}

#[test]
fn connection_test_with_bad_json_is_credential_error() {
    let s = full_settings("not json");
    assert!(matches!(begin_token_exchange(&s, 0), Err(ProviderError::CredentialParse(_))));
    let s = full_settings("{\"client_email\":\"a@b\"}");
    assert!(matches!(begin_token_exchange(&s, 0), Err(ProviderError::CredentialParse(_))));
}

#[test]
fn connection_test_with_bad_key_is_signing_error() {
    let s = full_settings("{\"client_email\":\"a@b\",\"private_key\":\"garbage\"}");
    let e = begin_token_exchange(&s, 0).err().unwrap();
    assert!(matches!(e, ProviderError::Signing(_)));
    assert!(e.message().starts_with("秘密鍵のパースに失敗しました: "));
    assert!(matches!(prepare_token_request(&credential(None), 0), Err(ProviderError::Signing(_))));
}

#[test]
fn credential_parse_reads_fields() {
    let c = ServiceAccountCredential::parse(
        "{\"client_email\":\"a@b\",\"private_key\":\"k\",\"token_uri\":\"https://t/x\"}",
    )
    .ok()
    .unwrap();
    assert_eq!(c.client_email, "a@b");
    assert_eq!(c.private_key, "k");
    assert_eq!(c.token_endpoint(), "https://t/x");
    assert_eq!(credential(None).token_endpoint(), "https://oauth2.googleapis.com/token");
}

#[test]
fn claims_last_an_hour() {
    let c = build_claims(&credential(None), 1_000);
    assert_eq!(c.iss, "svc@example.com");
    assert_eq!(c.sub, "svc@example.com");
    assert_eq!(c.scope, "https://www.googleapis.com/auth/cloud-platform");
    assert_eq!(c.aud, "https://oauth2.googleapis.com/token");
    assert_eq!(c.iat, 1_000);
    assert_eq!(c.exp, 4_600);
}

#[test]
fn token_form_is_jwt_bearer_grant() {
    let f = token_form("abc".to_string());
    assert_eq!(f.len(), 2);
    assert_eq!(f[0], ("grant_type".to_string(), "urn:ietf:params:oauth:grant-type:jwt-bearer".to_string()));
    assert_eq!(f[1], ("assertion".to_string(), "abc".to_string()));
}

#[test]
fn token_response_readings() {
    match read_token_response(401, "401 Unauthorized".to_string(), "denied".to_string()) {
        Err(ProviderError::TokenHttp { status, status_line, body }) => {
            assert_eq!(status, 401);
            assert_eq!(status_line, "401 Unauthorized");
            assert_eq!(body, "denied");
        }
        _ => panic!("expected an HTTP error"),
    }
    assert_eq!(read_token_response(200, "200 OK".to_string(), "{\"access_token\":\"tok\"}".to_string()).ok(), Some("tok".to_string()));
    assert!(matches!(read_token_response(200, "200 OK".to_string(), "{}".to_string()), Err(ProviderError::TokenParse(_))));
    assert!(matches!(read_token_response(204, "204 No Content".to_string(), "<html>".to_string()), Err(ProviderError::TokenParse(_))));
}

#[test]
fn processing_request_is_framed() {
    let s = full_settings("{}");
    let r = processing_request(&s, "tok", "QUJD", "image/png");
    assert_eq!(r.url, "https://us-documentai.googleapis.com/v1/projects/proj/locations/us/processors/proc:process");
    assert_eq!(r.authorization, "Bearer tok");
    assert_eq!(r.body, "{\"rawDocument\":{\"content\":\"QUJD\",\"mimeType\":\"image/png\"},\"fieldMask\":\"entities\"}");
    let mut eu = full_settings("{}");
    eu.location = Some("eu".to_string());
    let r = processing_request(&eu, "t", "a\"b", "application/pdf");
    assert!(r.url.starts_with("https://eu-documentai.googleapis.com/v1/projects/proj/locations/eu/"));
    assert!(r.body.contains("\"content\":\"a\\\"b\""));
}

#[test]
fn processing_response_readings() {
    match read_processing_response(500, "500 Internal Server Error".to_string(), "boom".to_string(), Ok(Vec::new())) {
        Err(ProviderError::ProcessingHttp { status, body, .. }) => {
            assert_eq!(status, 500);
            assert_eq!(body, "boom");
        }
        _ => panic!("expected an HTTP error"),
    }
    assert!(matches!(
        read_processing_response(200, "200 OK".to_string(), String::new(), Err("bad".to_string())),
        Err(ProviderError::ProcessingParse(_))
    ));
    let es = read_processing_response(200, "200 OK".to_string(), String::new(), Ok(vec![EntityNode {
        entity_type: None,
        mention_text: None,
        normalized_value: None,
        properties: Vec::new(),
    }]));
    assert_eq!(es.ok().map(|v| v.len()), Some(1));
}

#[test]
fn extraction_record_uses_base_name() {
    let r = finish_extraction("/home/u/receipts/scan 1.png", &Vec::new());
    assert_eq!(r.file, "scan 1.png");
    let r = finish_extraction("plain.pdf", &Vec::new());
    assert_eq!(r.file, "plain.pdf");
}

#[test]
fn error_messages() {
    let e = ProviderError::TokenHttp {
        status: 401,
        status_line: "401 Unauthorized".to_string(),
        body: "nope".to_string(),
    };
    assert_eq!(e.message(), "トークン取得に失敗しました: HTTP 401 Unauthorized - nope");
    assert_eq!(ProviderError::Configuration.message(), "OCR設定が不完全です");
    assert_eq!(ProviderError::Configuration.connection_test_message(), "設定が不完全です");
    assert_eq!(ProviderError::NoProvider.message(), "OCRプロバイダーが見つかりません");
    assert_eq!(ProviderError::NoProvider.connection_test_message(), "OCRプロバイダーが見つかりません");
    let e = ProviderError::ProcessingParse("eof".to_string());
    assert_eq!(e.message(), "Document AIレスポンスのパースに失敗しました: eof");
    let e = ProviderError::ProcessingHttp {
        status: 503,
        status_line: "503 Service Unavailable".to_string(),
        body: "busy".to_string(),
    };
    assert_eq!(e.message(), "Document AI処理に失敗しました: HTTP 503 Service Unavailable - busy");
    assert_eq!(
        ProviderError::CredentialParse("x".to_string()).message(),
        "サービスアカウントJSONのパースに失敗しました: x"
    );
    assert_eq!(ProviderError::Assertion("y".to_string()).message(), "JWTの生成に失敗しました: y");
    assert_eq!(ProviderError::TokenRequest("z".to_string()).message(), "トークンリクエストに失敗しました: z");
}

#[test]
fn outcome_holds_record_or_message() {
    let ok = outcome_of(Ok(ReceiptData::new("a.png".to_string())));
    assert!(ok.success && ok.data.is_some() && ok.error.is_none());
    let bad = outcome_of(Err(ProviderError::Configuration));
    assert!(!bad.success && bad.data.is_none());
    assert_eq!(bad.error.as_deref(), Some("OCR設定が不完全です"));
}

#[test]
fn registry_default_and_lookup() {
    let reg = OcrProviderRegistry::new();
    assert_eq!(reg.get_default_provider().map(|p| p.name()), Some("googledocumentai".to_string()));
    assert!(reg.get_provider("googledocumentai").is_some());
    assert!(reg.get_provider("other").is_none());
    assert_eq!(reg.list_providers(), vec!["googledocumentai".to_string()]);
    let empty: OcrProviderRegistry<GoogleDocumentAiProvider> = OcrProviderRegistry::empty();
    assert!(empty.get_default_provider().is_none());
    assert!(empty.list_providers().is_empty());
}

fn success(file: &str) -> OcrResult {
    OcrResult::success(ReceiptData::new(file.to_string()))
}

#[test]
fn batch_failure_stays_at_its_index() {
    let mut run = BatchRun::new(3, MAX_CONCURRENT_OCR);
    assert_eq!(run.start_next(), Some(0));
    assert_eq!(run.start_next(), Some(1));
    assert_eq!(run.start_next(), Some(2));
    run.complete(2, success("c"), "/in/c.png");
    run.complete(1, OcrResult::failure("broken".to_string()), "b.png");
    run.complete(0, success("a"), "a.png");
    assert!(run.is_finished());
    let results = run.into_results();
    assert_eq!(results.len(), 3);
    assert!(results[0].success && results[2].success);
    assert!(!results[1].success);
    assert_eq!(results[1].error.as_deref(), Some("broken"));
    assert_eq!(results[0].data.as_ref().unwrap().file, "a");
    assert_eq!(results[2].data.as_ref().unwrap().file, "c");
}

#[test]
fn batch_start_holds_at_limit() {
    let mut run = BatchRun::new(5, 3);
    assert_eq!(run.start_next(), Some(0));
    assert_eq!(run.start_next(), Some(1));
    assert_eq!(run.start_next(), Some(2));
    assert_eq!(run.start_next(), None);
    assert!(run.is_running(1));
    run.complete(1, success("b"), "b.png");
    assert!(!run.is_running(1));
    assert_eq!(run.start_next(), Some(3));
    assert_eq!(run.start_next(), None);
}

#[test]
fn batch_progress_counts_each_once() {
    let n = 6;
    let mut run = BatchRun::new(n, 2);
    let mut counts = Vec::new();
    let mut running: Vec<usize> = Vec::new();
    loop {
        while let Some(i) = run.start_next() {
            running.push(i);
        }
        let Some(i) = running.pop() else { break };
        let ev = run.complete(i, success("f"), &format!("/scans/{}/f{}.jpg", i, i));
        assert_eq!(ev.total, n);
        assert_eq!(ev.file_name, format!("f{}.jpg", i));
        assert!(ev.result.as_ref().unwrap().success);
        counts.push(ev.current);
    }
    assert_eq!(counts, vec![1, 2, 3, 4, 5, 6]);
    assert!(run.is_finished());
    assert_eq!(run.into_results().len(), n);
}

#[test]
fn batch_results_follow_submission_order() {
    let mut run = BatchRun::new(3, 3);
    while run.start_next().is_some() {}
    for i in [1usize, 2, 0] {
        run.complete(i, success(&format!("job{}", i)), "");
    }
    let files: Vec<String> = run.into_results().into_iter().map(|r| r.data.unwrap().file).collect();
    assert_eq!(files, vec!["job0", "job1", "job2"]);
}

#[test]
fn empty_batch_is_finished() {
    let run = BatchRun::new(0, 3);
    assert!(run.is_finished());
    assert_eq!(run.total(), 0);
    assert!(run.into_results().is_empty());
}

#[test]
fn credential_token_uri_must_be_text_or_null() {
    let bad = ServiceAccountCredential::parse(
        "{\"client_email\":\"a@b\",\"private_key\":\"k\",\"token_uri\":5}",
    );
    assert!(matches!(bad, Err(ProviderError::CredentialParse(_))));
    let null = ServiceAccountCredential::parse(
        "{\"client_email\":\"a@b\",\"private_key\":\"k\",\"token_uri\":null}",
    );
    assert!(null.ok().unwrap().token_uri.is_none());
    assert!(matches!(ServiceAccountCredential::parse("[1]"), Err(ProviderError::CredentialParse(_))));
    assert!(matches!(
        ServiceAccountCredential::parse("{\"client_email\":1,\"private_key\":\"k\"}"),
        Err(ProviderError::CredentialParse(_))
    ));
}

#[test]
fn token_response_needs_text_token() {
    assert!(matches!(read_token_response(200, "200 OK".to_string(), "{\"access_token\":null}".to_string()), Err(ProviderError::TokenParse(_))));
    assert!(matches!(read_token_response(200, "200 OK".to_string(), "{\"access_token\":7}".to_string()), Err(ProviderError::TokenParse(_))));
    assert!(matches!(read_token_response(299, "299 <unknown status code>".to_string(), "[]".to_string()), Err(ProviderError::TokenParse(_))));
}

#[test]
fn progress_event_names_the_file() {
    let mut run = BatchRun::new(1, 1);
    assert_eq!(run.start_next(), Some(0));
    let ev = run.complete(0, success("x"), "/a/b/receipt 1.pdf");
    assert_eq!(ev.file_name, "receipt 1.pdf");
    assert_eq!((ev.current, ev.total), (1, 1));
}

#[test]
fn processing_body_escapes_like_serde_json() {
    let s = full_settings("{}");
    let r = processing_request(&s, "t", "a\u{1}\n\\", "x/y");
    assert_eq!(r.body, "{\"rawDocument\":{\"content\":\"a\\u0001\\n\\\\\",\"mimeType\":\"x/y\"},\"fieldMask\":\"entities\"}");
}

#[test]
fn provider_refuses_incomplete_settings() {
    let mut s = full_settings("{}");
    s.project_id = None;
    let p = GoogleDocumentAiProvider::new();
    assert!(matches!(p.begin_exchange(&s, 0), Err(ProviderError::Configuration)));
}
