use url_shortener::{
    check_short_code, expiry, new_entry, redirect_location, CreateStep, CreateUrlRequest,
    CryptoError, Encryptor, InsertOutcome, UrlEntry, UrlError, UrlService, ValidationError,
    ValidationField, ValidationReason,
};

fn service() -> UrlService {
    UrlService::new(Encryptor::new(&[5u8; 32]))
}

fn request(url: &str, days: Option<i64>, code: Option<&str>) -> CreateUrlRequest {
    CreateUrlRequest {
        url: url.to_string(),
        expires_in_days: days,
        short_code: code.map(|c| c.to_string()),
    }
}

fn invalid(field: ValidationField, reason: ValidationReason) -> UrlError {
    UrlError::ValidationError(ValidationError { field, reason })
}

/// Runs the create flow against an in-memory store with a unique short code.
fn run_create(
    svc: &UrlService,
    store: &mut Vec<UrlEntry>,
    req: &CreateUrlRequest,
) -> Result<(UrlEntry, bool), UrlError> {
    let mut step = svc.create_url(req);
    loop {
        step = match step {
            CreateStep::FindCode(code) => {
                let taken = store.iter().any(|e| e.short_code == code);
                svc.after_code_lookup(req, taken)
            }
            CreateStep::ScanAll(blob) => svc.after_scan(req, blob, store),
            CreateStep::Insert { entry, record, retried } => {
                let outcome = if store.iter().any(|e| e.short_code == record.short_code) {
                    InsertOutcome::DuplicateKey
                } else {
                    store.push(record);
                    InsertOutcome::Inserted
                };
                svc.after_insert(req, entry, retried, outcome)
            }
            CreateStep::Done(result) => return result,
        };
    }
}

#[test]
fn create_twice_returns_existing_entry() {
    let svc = service();
    let mut store = Vec::new();
    let req = request("https://a.example", None, None);
    let (first, is_new) = run_create(&svc, &mut store, &req).unwrap();
    assert!(is_new);
    assert_eq!(first.original_url, "https://a.example");
    assert_eq!(first.clicks, 0);
    assert_eq!(first.short_code.len(), 10);
    let (second, is_new) = run_create(&svc, &mut store, &req).unwrap();
    assert!(!is_new);
    assert_eq!(second, first);
    assert_eq!(store.len(), 1);
}

#[test]
fn stored_record_holds_no_plaintext() {
    let svc = service();
    let mut store = Vec::new();
    let (entry, _) = run_create(&svc, &mut store, &request("https://b.example", None, None)).unwrap();
    assert_eq!(store[0].original_url, "");
    assert_eq!(store[0].encrypted_url, entry.encrypted_url);
    assert_ne!(store[0].encrypted_url, "https://b.example");
}

#[test]
fn custom_code_length_boundary() {
    assert_eq!(
        check_short_code("ab"),
        Err(ValidationError { field: ValidationField::ShortCode, reason: ValidationReason::InvalidLength })
    );
    assert_eq!(check_short_code("abc"), Ok(()));
    assert_eq!(check_short_code(&"a".repeat(20)), Ok(()));
    assert!(check_short_code(&"a".repeat(21)).is_err());
    let svc = service();
    let mut store = Vec::new();
    assert_eq!(
        run_create(&svc, &mut store, &request("https://c.example", None, Some("ab"))),
        Err(invalid(ValidationField::ShortCode, ValidationReason::InvalidLength))
    );
    let long = "b".repeat(21);
    assert_eq!(
        run_create(&svc, &mut store, &request("https://c.example", None, Some(&long))),
        Err(invalid(ValidationField::ShortCode, ValidationReason::InvalidLength))
    );
    assert!(store.is_empty());
    let (e, _) = run_create(&svc, &mut store, &request("https://c.example", None, Some("abc"))).unwrap();
    assert_eq!(e.short_code, "abc");
    let twenty = "d".repeat(20);
    let (e, _) = run_create(&svc, &mut store, &request("https://d.example", None, Some(&twenty))).unwrap();
    assert_eq!(e.short_code, twenty);
}

#[test]
fn taken_custom_code_is_refused() {
    let svc = service();
    let mut store = Vec::new();
    run_create(&svc, &mut store, &request("https://e.example", None, Some("mine"))).unwrap();
    assert_eq!(
        run_create(&svc, &mut store, &request("https://f.example", None, Some("mine"))),
        Err(invalid(ValidationField::ShortCode, ValidationReason::AlreadyExists))
    );
    assert_eq!(store.len(), 1);
}

#[test]
fn invalid_url_is_refused_before_insert() {
    let svc = service();
    let mut store = Vec::new();
    assert_eq!(
        run_create(&svc, &mut store, &request("not a url", None, None)),
        Err(invalid(ValidationField::OriginalUrl, ValidationReason::InvalidUrl))
    );
    assert!(store.is_empty());
}

#[test]
fn expiry_is_days_after_creation() {
    let svc = service();
    let mut store = Vec::new();
    let (e, _) = run_create(&svc, &mut store, &request("https://g.example", Some(2), None)).unwrap();
    assert_eq!(e.expires_at, Some(e.created_at + 2 * 86_400_000));
    assert_eq!(
        run_create(&svc, &mut store, &request("https://h.example", Some(i64::MAX), None)),
        Err(invalid(ValidationField::ExpiresInDays, ValidationReason::OutOfRange))
    );
}

#[test]
fn expiry_arithmetic() {
    assert_eq!(expiry(1_000, None), Some(None));
    assert_eq!(expiry(1_000, Some(1)), Some(Some(86_401_000)));
    assert_eq!(expiry(0, Some(-1)), Some(Some(-86_400_000)));
    assert_eq!(expiry(i64::MAX - 10, Some(1)), None);
}

#[test]
fn new_entry_fields() {
    let url = "https://i.example".to_string();
    let e = new_entry(true, &url, "blob".to_string(), "code123".to_string(), 500, Some(1)).unwrap();
    assert_eq!(
        e,
        UrlEntry {
            original_url: url.clone(),
            encrypted_url: "blob".to_string(),
            short_code: "code123".to_string(),
            clicks: 0,
            created_at: 500,
            expires_at: Some(86_400_500),
        }
    );
    assert_eq!(
        new_entry(false, &url, "blob".to_string(), "c".to_string(), 500, None),
        Err(ValidationError { field: ValidationField::OriginalUrl, reason: ValidationReason::InvalidUrl })
    );
    assert_eq!(
        new_entry(true, &url, "blob".to_string(), "c".to_string(), i64::MIN, Some(-1)),
        Err(ValidationError { field: ValidationField::ExpiresInDays, reason: ValidationReason::OutOfRange })
    );
}

#[test]
fn generated_code_collision_is_retried_once() {
    let svc = service();
    let req = request("https://j.example", None, None);
    let entry = UrlEntry {
        original_url: req.url.clone(),
        encrypted_url: "blob".to_string(),
        short_code: "abcdefg123".to_string(),
        clicks: 0,
        created_at: 1,
        expires_at: None,
    };
    match svc.after_insert(&req, entry.clone(), false, InsertOutcome::DuplicateKey) {
        CreateStep::Insert { entry: e, record, retried } => {
            assert!(retried);
            assert_eq!(e.encrypted_url, "blob");
            assert_eq!(e.created_at, 1);
            assert_eq!(record.short_code, e.short_code);
            assert_eq!(record.original_url, "");
        }
        _ => panic!("expected a second insert"),
    }
    match svc.after_insert(&req, entry.clone(), true, InsertOutcome::DuplicateKey) {
        CreateStep::Done(r) => assert_eq!(r, Err(UrlError::CodeCollision)),
        _ => panic!("expected the flow to end"),
    }
    match svc.after_insert(&req, entry.clone(), false, InsertOutcome::Inserted) {
        CreateStep::Done(r) => assert_eq!(r, Ok((entry, true))),
        _ => panic!("expected the flow to end"),
    }
}

#[test]
fn lookup_of_unknown_code_is_absent() {
    let svc = service();
    assert_eq!(svc.get_url_by_code(None), Ok(None));
}

#[test]
fn lookup_decrypts_found_entry() {
    let svc = service();
    let mut store = Vec::new();
    let (e, _) = run_create(&svc, &mut store, &request("https://k.example", None, None)).unwrap();
    let mut found = store[0].clone();
    found.clicks += 1;
    let got = svc.get_url_by_code(Some(found)).unwrap().unwrap();
    assert_eq!(got.original_url, "https://k.example");
    assert_eq!(got.short_code, e.short_code);
    assert_eq!(got.clicks, 1);
}

#[test]
fn lookup_of_corrupt_entry_is_an_internal_error() {
    let svc = service();
    let mut bad = UrlEntry {
        original_url: String::new(),
        encrypted_url: "@@@".to_string(),
        short_code: "xyz".to_string(),
        clicks: 0,
        created_at: 0,
        expires_at: None,
    };
    assert_eq!(svc.get_url_by_code(Some(bad.clone())), Err(UrlError::CryptoError(CryptoError::Decode)));
    bad.encrypted_url = Encryptor::new(&[6u8; 32]).encrypt("https://l.example").unwrap();
    let err = svc.get_url_by_code(Some(bad)).unwrap_err();
    assert_eq!(err, UrlError::CryptoError(CryptoError::Authentication));
    assert_eq!(err.status_code(), 500);
}

#[test]
fn list_decrypts_every_entry() {
    let svc = service();
    let mut store = Vec::new();
    run_create(&svc, &mut store, &request("https://m.example", None, None)).unwrap();
    run_create(&svc, &mut store, &request("https://n.example", None, Some("nnn"))).unwrap();
    let all = svc.get_urls(&store).unwrap();
    assert_eq!(all.len(), 2);
    assert_eq!(all[0].original_url, "https://m.example");
    assert_eq!(all[1].original_url, "https://n.example");
    assert_eq!(all[1].short_code, "nnn");
    store[0].encrypted_url = "zz".to_string();
    assert_eq!(svc.get_urls(&store), Err(UrlError::CryptoError(CryptoError::Decode)));
}

#[test]
fn redirect_location_adds_missing_scheme() {
    assert_eq!(redirect_location("example.com/x"), "http://example.com/x");
    assert_eq!(redirect_location("https://example.com"), "https://example.com");
    assert_eq!(redirect_location("http://example.com"), "http://example.com");
    assert_eq!(redirect_location(""), "http://");
}

#[test]
fn redirect_location_keeps_any_scheme() {
    assert_eq!(redirect_location("ftp://example.com"), "ftp://example.com");
    assert_eq!(redirect_location("mailto:a@b.example"), "mailto:a@b.example");
    assert_eq!(redirect_location("svn+ssh://h/r"), "svn+ssh://h/r");
    assert_eq!(redirect_location("1ab://x"), "http://1ab://x");
    assert_eq!(redirect_location("a b:c"), "http://a b:c");
    assert_eq!(redirect_location(":x"), "http://:x");
}

#[test]
fn status_codes_and_names() {
    assert_eq!(invalid(ValidationField::ShortCode, ValidationReason::InvalidLength).status_code(), 400);
    assert_eq!(UrlError::NotFound.status_code(), 404);
    assert_eq!(UrlError::DatabaseError("down".to_string()).status_code(), 500);
    assert_eq!(UrlError::CodeCollision.status_code(), 500);
    assert_eq!(ValidationField::OriginalUrl.name(), "original_url");
    assert_eq!(ValidationField::ShortCode.name(), "short_code");
    assert_eq!(ValidationReason::InvalidLength.name(), "invalid_length");
    assert_eq!(ValidationReason::AlreadyExists.name(), "already_exists");
    assert_eq!(ValidationReason::InvalidUrl.name(), "invalid_url");
}

#[test]
fn custom_code_length_counts_characters() {
    let eleven = "é".repeat(11);
    assert_eq!(check_short_code(&eleven), Ok(()));
    assert_eq!(check_short_code(&"é".repeat(20)), Ok(()));
    assert!(check_short_code(&"é".repeat(21)).is_err());
    assert!(check_short_code("éé").is_err());
    assert_eq!(check_short_code("ééé"), Ok(()));
    let svc = service();
    let mut store = Vec::new();
    let (e, _) = run_create(&svc, &mut store, &request("https://o.example", None, Some(&eleven))).unwrap();
    assert_eq!(e.short_code, eleven);
    assert_eq!(
        run_create(&svc, &mut store, &request("https://p.example", None, Some(&eleven))),
        Err(invalid(ValidationField::ShortCode, ValidationReason::AlreadyExists))
    );
    assert_eq!(store.len(), 1);
}
