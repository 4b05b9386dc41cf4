use identity_resolver::document::DidDocument;
use identity_resolver::document::DidDocumentService;
use identity_resolver::document::extract_handle_from_doc;
use identity_resolver::document::get_pds_endpoint;
use identity_resolver::document::get_service_endpoint;
use identity_resolver::resolver::begin_resolution;
use identity_resolver::resolver::directory_url;
use identity_resolver::resolver::on_document_fetched;
use identity_resolver::resolver::on_handle_resolved;
use identity_resolver::resolver::plan_document_fetch;
use identity_resolver::resolver::CacheSet;
use identity_resolver::resolver::FetchPlan;
use identity_resolver::resolver::ResolveError;
use identity_resolver::resolver::ResolveStep;

fn service(id: &str, ty: &str, endpoint: &str) -> DidDocumentService {
    DidDocumentService {
        id: String::from(id),
        _type: String::from(ty),
        service_endpoint: String::from(endpoint),
    }
}

fn doc_with(aka: Vec<&str>, services: Vec<DidDocumentService>) -> DidDocument {
    DidDocument {
        _context: vec![String::from("https://www.w3.org/ns/did/v1")],
        id: String::from("did:plc:xyz"),
        also_known_as: aka.into_iter().map(String::from).collect(),
        verification_method: Vec::new(),
        service: services,
    }
}

fn pds(endpoint: &str) -> DidDocumentService {
    service("#atproto_pds", "AtprotoPersonalDataServer", endpoint)
}

#[test]
fn first_matching_service_wins() {
    let doc = doc_with(
        vec![],
        vec![
            service("#other", "SomethingElse", "https://other.example"),
            pds("https://first.example"),
            pds("https://second.example"),
        ],
    );
    let found = get_pds_endpoint(&doc).expect("a pds entry exists");
    assert_eq!(found.service_endpoint, "https://first.example");
}

#[test]
fn service_must_match_id_and_type() {
    let doc = doc_with(
        vec![],
        vec![
            service("#atproto_pds", "SomethingElse", "https://wrong-type.example"),
            service("#other", "AtprotoPersonalDataServer", "https://wrong-id.example"),
        ],
    );
    assert!(get_pds_endpoint(&doc).is_none());
    let by_pair =
        get_service_endpoint(&doc, "#other", "AtprotoPersonalDataServer").expect("id+type match");
    assert_eq!(by_pair.service_endpoint, "https://wrong-id.example");
}

#[test]
fn first_at_alias_wins() {
    let doc = doc_with(
        vec!["https://not-a-handle.example", "at://alice.test", "at://bob.test"],
        vec![],
    );
    assert_eq!(extract_handle_from_doc(&doc), Some(String::from("alice.test")));
}

#[test]
fn no_at_alias_means_no_handle() {
    let doc = doc_with(vec!["https://alice.example.com"], vec![]);
    assert_eq!(extract_handle_from_doc(&doc), None);
}

#[test]
fn directory_url_shape() {
    assert_eq!(
        directory_url("https://bsky.social", "alice.example.com"),
        "https://bsky.social/xrpc/com.atproto.identity.resolveHandle?handle=alice.example.com"
    );
}

#[test]
fn plc_fetch_plan() {
    match plan_document_fetch("did:plc:xyz") {
        FetchPlan::Plc { url } => assert_eq!(url, "https://plc.directory/did:plc:xyz"),
        _ => panic!("expected a plc plan"),
    }
}

#[test]
fn web_fetch_plan() {
    match plan_document_fetch("did:web:example.org") {
        FetchPlan::Web { url } => assert_eq!(url, "https://example.org/.well-known/did.json"),
        _ => panic!("expected a web plan"),
    }
}

#[test]
fn web_fetch_plan_rejects_bad_domain() {
    assert!(matches!(plan_document_fetch("did:web:localhost"), FetchPlan::InvalidDomain));
}

#[test]
fn unknown_method_is_unsupported() {
    assert!(matches!(plan_document_fetch("did:key:z6Mk"), FetchPlan::Unsupported));
    assert!(matches!(plan_document_fetch("not a did"), FetchPlan::Unsupported));
}

// End-to-end scenario: a handle input is resolved through the directory,
// the PLC document is fetched, and the identity is assembled.
#[test]
fn scenario_handle_to_full_identity() {
    let mut caches = CacheSet::new();
    let step = begin_resolution(&caches, "alice.example.com", "https://bsky.social", 100);
    let url = match step {
        ResolveStep::NeedDirectory { url } => url,
        _ => panic!("expected a directory request"),
    };
    assert_eq!(
        url,
        "https://bsky.social/xrpc/com.atproto.identity.resolveHandle?handle=alice.example.com"
    );

    let step =
        on_handle_resolved(&mut caches, "alice.example.com", Ok(String::from("did:plc:xyz")), 100);
    let (did, url) = match step {
        ResolveStep::NeedDocument { did, url } => (did, url),
        _ => panic!("expected a document request"),
    };
    assert_eq!(did, "did:plc:xyz");
    assert_eq!(url, "https://plc.directory/did:plc:xyz");

    let doc = doc_with(vec!["at://alice.example.com"], vec![pds("https://pds.example.net")]);
    let step = on_document_fetched(&mut caches, "alice.example.com", "did:plc:xyz", Ok(doc), 100);
    match step {
        ResolveStep::Done { identity } => {
            assert_eq!(identity.did, "did:plc:xyz");
            assert_eq!(identity.identity, "alice.example.com");
            assert_eq!(identity.pds, "https://pds.example.net");
            assert_eq!(identity.doc.id, "did:plc:xyz");
        },
        _ => panic!("expected a completed resolution"),
    }
    assert_eq!(caches.get_cache_stats(), (1, 1));
}

// Same input, but the document has no service entry: a terminal failure,
// no partial identity.
#[test]
fn scenario_missing_pds_is_terminal() {
    let mut caches = CacheSet::new();
    let _ = begin_resolution(&caches, "alice.example.com", "https://bsky.social", 100);
    let _ =
        on_handle_resolved(&mut caches, "alice.example.com", Ok(String::from("did:plc:xyz")), 100);
    let doc = doc_with(vec!["at://alice.example.com"], vec![]);
    let step = on_document_fetched(&mut caches, "alice.example.com", "did:plc:xyz", Ok(doc), 100);
    assert!(matches!(step, ResolveStep::Failed { error: ResolveError::NoPdsEndpoint }));
}

// A DID input skips the handle resolver and its cache entirely.
#[test]
fn scenario_web_did_goes_straight_to_domain() {
    let caches = CacheSet::new();
    let step = begin_resolution(&caches, "did:web:example.org", "https://bsky.social", 100);
    let (did, url) = match step {
        ResolveStep::NeedDocument { did, url } => (did, url),
        _ => panic!("expected a document request"),
    };
    assert_eq!(did, "did:web:example.org");
    assert_eq!(url, "https://example.org/.well-known/did.json");
    assert_eq!(caches.get_cache_stats(), (0, 0));
}

#[test]
fn scenario_web_did_with_invalid_domain_fails() {
    let caches = CacheSet::new();
    let step = begin_resolution(&caches, "did:web:localhost", "https://bsky.social", 100);
    assert!(matches!(step, ResolveStep::Failed { error: ResolveError::InvalidDomain }));
}

#[test]
fn scenario_unsupported_method_fails() {
    let caches = CacheSet::new();
    let step = begin_resolution(&caches, "did:key:z6Mk", "https://bsky.social", 100);
    assert!(matches!(step, ResolveStep::Failed { error: ResolveError::UnsupportedMethod }));
}

// A failed directory call is a terminal HandleNotFound and must not poison
// the handle cache.
#[test]
fn scenario_directory_failure_leaves_cache_clean() {
    let mut caches = CacheSet::new();
    let step = begin_resolution(&caches, "alice.example.com", "https://bsky.social", 100);
    assert!(matches!(step, ResolveStep::NeedDirectory { .. }));
    let step =
        on_handle_resolved(&mut caches, "alice.example.com", Err(ResolveError::Network), 100);
    assert!(matches!(step, ResolveStep::Failed { error: ResolveError::HandleNotFound }));
    assert_eq!(caches.get_cache_stats(), (0, 0));
}

// A failed document fetch propagates its error kind unchanged and caches
// nothing.
#[test]
fn scenario_document_failure_propagates_kind() {
    let mut caches = CacheSet::new();
    let step =
        on_document_fetched(&mut caches, "x", "did:plc:xyz", Err(ResolveError::Decode), 100);
    assert!(matches!(step, ResolveStep::Failed { error: ResolveError::Decode }));
    let step =
        on_document_fetched(&mut caches, "x", "did:plc:xyz", Err(ResolveError::Network), 100);
    assert!(matches!(step, ResolveStep::Failed { error: ResolveError::Network }));
    assert_eq!(caches.get_cache_stats(), (0, 0));
}

// Resolving the same identifier twice in immediate succession: the second
// pass is served entirely from the caches, yields the same identity, and
// the entry counts do not grow.
#[test]
fn scenario_second_resolution_is_cached_and_identical() {
    let mut caches = CacheSet::new();
    let _ = begin_resolution(&caches, "alice.example.com", "https://bsky.social", 100);
    let _ =
        on_handle_resolved(&mut caches, "alice.example.com", Ok(String::from("did:plc:xyz")), 100);
    let doc = doc_with(vec!["at://alice.example.com"], vec![pds("https://pds.example.net")]);
    let first =
        on_document_fetched(&mut caches, "alice.example.com", "did:plc:xyz", Ok(doc), 100);
    let stats_after_first = caches.get_cache_stats();

    let second = begin_resolution(&caches, "alice.example.com", "https://bsky.social", 101);
    let (a, b) = match (first, second) {
        (ResolveStep::Done { identity: a }, ResolveStep::Done { identity: b }) => (a, b),
        _ => panic!("both passes must complete"),
    };
    assert_eq!(a.did, b.did);
    assert_eq!(a.identity, b.identity);
    assert_eq!(a.pds, b.pds);
    assert_eq!(caches.get_cache_stats(), stats_after_first);
}

// After the TTL has elapsed the caches answer nothing and the resolver
// asks for the directory again.
#[test]
fn scenario_cache_expiry_forces_refetch() {
    let mut caches = CacheSet::new();
    let _ =
        on_handle_resolved(&mut caches, "alice.example.com", Ok(String::from("did:plc:xyz")), 100);
    let step = begin_resolution(&caches, "alice.example.com", "https://bsky.social", 100 + 3600);
    assert!(matches!(step, ResolveStep::NeedDirectory { .. }));
}

#[test]
fn clear_cache_forces_full_resolution() {
    let mut caches = CacheSet::new();
    let _ =
        on_handle_resolved(&mut caches, "alice.example.com", Ok(String::from("did:plc:xyz")), 100);
    let doc = doc_with(vec!["at://alice.example.com"], vec![pds("https://pds.example.net")]);
    let _ = on_document_fetched(&mut caches, "alice.example.com", "did:plc:xyz", Ok(doc), 100);
    caches.clear_cache();
    let step = begin_resolution(&caches, "alice.example.com", "https://bsky.social", 100);
    assert!(matches!(step, ResolveStep::NeedDirectory { .. }));
}

// The fallback handle: a document without an at:// alias leaves the
// original input as the displayed identity.
#[test]
fn fallback_handle_is_original_input() {
    let mut caches = CacheSet::new();
    let doc = doc_with(vec!["https://unrelated.example"], vec![pds("https://pds.example.net")]);
    let step = on_document_fetched(&mut caches, "alice.example.com", "did:plc:xyz", Ok(doc), 100);
    match step {
        ResolveStep::Done { identity } => assert_eq!(identity.identity, "alice.example.com"),
        _ => panic!("expected a completed resolution"),
    }
}
