//! The identity resolution orchestrator.
//!
//! Resolution is a single fail-fast pass: classify the identifier, obtain a
//! DID (through the handle cache or a directory request), obtain the
//! identity document (through the document cache or a method-specific
//! fetch), then interpret the document.  The orchestrator never performs
//! network traffic itself: whenever a request is needed it returns the URL
//! to fetch as a [`ResolveStep`], and the caller reports the outcome back
//! through [`on_handle_resolved`] or [`on_document_fetched`].  Caches are
//! only written on the success path.

use vstd::prelude::*;

use crate::cache::cache_get;
use crate::cache::cache_put;
use crate::cache::entry_fresh;
use crate::cache::lemma_cache_round_trip;
use crate::cache::TtlCache;
use crate::classify::is_did;
use crate::classify::is_did_spec;
use crate::classify::is_valid_domain;
use crate::classify::is_valid_domain_spec;
use crate::document::doc_handle;
use crate::document::first_matching_service;
use crate::document::get_pds_endpoint;
use crate::document::extract_handle_from_doc;
use crate::document::DidDocument;
use crate::document::DocView;
use crate::text::split_parts;
use crate::text::split_str;
use crate::text::str_eq;
use crate::text::str_views;
use vstd::string::StringExecFns;

verus! {

/// Why a resolution failed.
#[derive(Clone, Copy, PartialEq, Eq, Structural, Debug)]
pub enum ResolveError {
    /// A `did:web` method-specific identifier is not a valid domain.
    InvalidDomain,
    /// A DID method other than `plc` or `web`, or no DID shape at all.
    UnsupportedMethod,
    /// The directory could not resolve a handle to a DID.
    HandleNotFound,
    /// Transport-level failure on an outbound call.
    Network,
    /// A response body could not be parsed into the expected shape.
    Decode,
    /// A fetched document advertises no personal data server.
    NoPdsEndpoint,
}

/// A successfully resolved identity.
#[derive(Debug)]
pub struct ResolvedIdentity {
    /// The actor's DID.
    pub did: String,
    /// The actor's identity document.
    pub doc: DidDocument,
    /// The best-known handle: the document's own, or the original input.
    pub identity: String,
    /// The endpoint URL of the actor's personal data server.
    pub pds: String,
}

/// How to fetch the identity document of a DID.
pub enum FetchPlan {
    /// GET this PLC directory URL.
    Plc { url: String },
    /// GET this well-known URL under the DID's domain.
    Web { url: String },
    /// A `did:web` whose domain is not valid.
    InvalidDomain,
    /// A method this resolver does not implement, or no DID shape at all.
    Unsupported,
}

/// What the orchestrator asks of its caller next.
pub enum ResolveStep {
    /// GET this directory URL and report the DID it returns through
    /// [`on_handle_resolved`].
    NeedDirectory { url: String },
    /// GET this URL and report the document it returns through
    /// [`on_document_fetched`].
    NeedDocument { did: String, url: String },
    /// Resolution succeeded.
    Done { identity: ResolvedIdentity },
    /// Resolution failed; no retry is performed.
    Failed { error: ResolveError },
}

/// Both caches of the resolver: handle to DID, and DID to document.  The
/// two keyspaces are independent; a DID assignment is permanent while a
/// document can change under the same DID.
pub struct CacheSet {
    pub handle_cache: TtlCache<String>,
    pub doc_cache: TtlCache<DidDocument>,
}

impl CacheSet {
    pub open spec fn wf(&self) -> bool {
        self.handle_cache.wf() && self.doc_cache.wf()
    }

    /// Two empty stores.
    pub fn new() -> (r: CacheSet)
        ensures
            r.handle_cache@.len() == 0,
            r.doc_cache@.len() == 0,
            r.wf(),
    {
        CacheSet { handle_cache: TtlCache::new(), doc_cache: TtlCache::new() }
    }

    /// Drops every cached handle resolution and document.
    pub fn clear_cache(&mut self)
        ensures
            final(self).handle_cache@.len() == 0,
            final(self).doc_cache@.len() == 0,
            final(self).wf(),
    {
        self.handle_cache.invalidate_all();
        self.doc_cache.invalidate_all();
    }

    /// Entry counts of the two stores, for observability.
    pub fn get_cache_stats(&self) -> (r: (u64, u64))
        ensures
            r.0 == self.handle_cache@.len(),
            r.1 == self.doc_cache@.len(),
    {
        (self.handle_cache.entry_count(), self.doc_cache.entry_count())
    }
}

/// The directory URL that resolves `handle` to a DID.
pub open spec fn directory_url_spec(base: Seq<char>, handle: Seq<char>) -> Seq<char> {
    base + "/xrpc/com.atproto.identity.resolveHandle?handle="@ + handle
}

/// The PLC directory URL serving the document of `did`.
pub open spec fn plc_url_spec(did: Seq<char>) -> Seq<char> {
    "https://plc.directory/"@ + did
}

/// The well-known URL serving the document of a `did:web` domain.
pub open spec fn web_url_spec(domain: Seq<char>) -> Seq<char> {
    "https://"@ + domain + "/.well-known/did.json"@
}

/// Builds the directory request URL for a handle.
pub fn directory_url(base: &str, handle: &str) -> (r: String)
    ensures
        r@ == directory_url_spec(base@, handle@),
{
    String::from_str(base).concat("/xrpc/com.atproto.identity.resolveHandle?handle=").concat(
        handle,
    )
}

/// The fetch plan is the right one for `did`: PLC and web DIDs name their
/// method-specific URL, a web DID with a bad domain is rejected, everything
/// else is unsupported.
pub open spec fn fetch_plan_ok(r: FetchPlan, did: Seq<char>) -> bool {
    let parts = split_parts(did, ':');
    if !is_did_spec(did) {
        r is Unsupported
    } else if parts[1] == "plc"@ {
        match r {
            FetchPlan::Plc { url } => url@ == plc_url_spec(did),
            _ => false,
        }
    } else if parts[1] == "web"@ {
        if is_valid_domain_spec(parts[2]) {
            match r {
                FetchPlan::Web { url } => url@ == web_url_spec(parts[2]),
                _ => false,
            }
        } else {
            r is InvalidDomain
        }
    } else {
        r is Unsupported
    }
}

/// Method dispatch for a document fetch.  Extending the resolver to a new
/// DID method means adding a variant and a branch here, not altering
/// callers.
pub fn plan_document_fetch(did: &str) -> (r: FetchPlan)
    ensures
        fetch_plan_ok(r, did@),
{
    if !is_did(did) {
        return FetchPlan::Unsupported;
    }
    let parts = split_str(did, ':');
    proof {
        assert(parts@.len() == split_parts(did@, ':').len());
        assert(str_views(parts@)[1] == parts@[1]@);
        assert(str_views(parts@)[2] == parts@[2]@);
    }
    let method = parts[1].as_str();
    if str_eq(method, "plc") {
        FetchPlan::Plc { url: String::from_str("https://plc.directory/").concat(did) }
    } else if str_eq(method, "web") {
        let domain = parts[2].as_str();
        if is_valid_domain(domain) {
            FetchPlan::Web {
                url: String::from_str("https://").concat(domain).concat("/.well-known/did.json"),
            }
        } else {
            FetchPlan::InvalidDomain
        }
    } else {
        FetchPlan::Unsupported
    }
}

/// The best-known handle of a resolved identity: the document's own
/// `at://` alias when it declares one, else the original input.
pub open spec fn resolved_handle_spec(id: Seq<char>, doc: DocView) -> Seq<char> {
    match doc_handle(doc.also_known_as) {
        Some(h) => h,
        None => id,
    }
}

/// The step is the completed result for input `id`, DID `did` and document
/// `doc`: a full identity when the document advertises a personal data
/// server, the `NoPdsEndpoint` failure when it does not.
pub open spec fn completion_ok(r: ResolveStep, id: Seq<char>, did: Seq<char>, doc: DocView) -> bool {
    match first_matching_service(doc.service, "#atproto_pds"@, "AtprotoPersonalDataServer"@) {
        Some(svc) => match r {
            ResolveStep::Done { identity } => {
                &&& identity.did@ == did
                &&& identity.doc@ == doc
                &&& identity.identity@ == resolved_handle_spec(id, doc)
                &&& identity.pds@ == svc.service_endpoint
            },
            _ => false,
        },
        None => r == (ResolveStep::Failed { error: ResolveError::NoPdsEndpoint }),
    }
}

/// The step is the right continuation once the DID is known: the cached
/// document completes the resolution, otherwise the method dispatch decides
/// the document request or the typed failure.
pub open spec fn proceed_ok(
    r: ResolveStep,
    caches: CacheSet,
    id: Seq<char>,
    did: Seq<char>,
    now: u64,
) -> bool {
    match cache_get(caches.doc_cache@, did, now) {
        Some(doc) => completion_ok(r, id, did, doc),
        None => {
            let parts = split_parts(did, ':');
            if !is_did_spec(did) {
                r == (ResolveStep::Failed { error: ResolveError::UnsupportedMethod })
            } else if parts[1] == "plc"@ {
                match r {
                    ResolveStep::NeedDocument { did: d, url } => d@ == did && url@ == plc_url_spec(
                        did,
                    ),
                    _ => false,
                }
            } else if parts[1] == "web"@ {
                if is_valid_domain_spec(parts[2]) {
                    match r {
                        ResolveStep::NeedDocument { did: d, url } => d@ == did && url@
                            == web_url_spec(parts[2]),
                        _ => false,
                    }
                } else {
                    r == (ResolveStep::Failed { error: ResolveError::InvalidDomain })
                }
            } else {
                r == (ResolveStep::Failed { error: ResolveError::UnsupportedMethod })
            }
        },
    }
}

/// The step is the right first move for `id`: a DID input proceeds
/// directly, a cached handle proceeds with its DID, anything else asks for
/// the directory request.
pub open spec fn begin_ok(
    r: ResolveStep,
    caches: CacheSet,
    id: Seq<char>,
    base: Seq<char>,
    now: u64,
) -> bool {
    if is_did_spec(id) {
        proceed_ok(r, caches, id, id, now)
    } else {
        match cache_get(caches.handle_cache@, id, now) {
            Some(did) => proceed_ok(r, caches, id, did, now),
            None => match r {
                ResolveStep::NeedDirectory { url } => url@ == directory_url_spec(base, id),
                _ => false,
            },
        }
    }
}

/// Interprets a fetched document: requires a personal data server entry,
/// takes the document's own handle with the input as fallback, and
/// assembles the identity.
pub fn complete_with_document(id: &str, did: &str, doc: &DidDocument) -> (r: ResolveStep)
    ensures
        completion_ok(r, id@, did@, doc@),
{
    match get_pds_endpoint(doc) {
        None => ResolveStep::Failed { error: ResolveError::NoPdsEndpoint },
        Some(svc) => {
            let handle = match extract_handle_from_doc(doc) {
                Some(h) => h,
                None => String::from_str(id),
            };
            ResolveStep::Done {
                identity: ResolvedIdentity {
                    did: String::from_str(did),
                    doc: doc.duplicate(),
                    identity: handle,
                    pds: svc.service_endpoint,
                },
            }
        },
    }
}

/// Continues a resolution whose DID is known: document cache first, then
/// method dispatch.
fn proceed_with_did(caches: &CacheSet, id: &str, did: &str, now: u64) -> (r: ResolveStep)
    ensures
        proceed_ok(r, *caches, id@, did@, now),
{
    match caches.doc_cache.get(did, now) {
        Some(doc) => complete_with_document(id, did, doc),
        None => match plan_document_fetch(did) {
            FetchPlan::Plc { url } => ResolveStep::NeedDocument {
                did: String::from_str(did),
                url,
            },
            FetchPlan::Web { url } => ResolveStep::NeedDocument {
                did: String::from_str(did),
                url,
            },
            FetchPlan::InvalidDomain => ResolveStep::Failed { error: ResolveError::InvalidDomain },
            FetchPlan::Unsupported => ResolveStep::Failed {
                error: ResolveError::UnsupportedMethod,
            },
        },
    }
}

/// Starts resolving `id`: a DID is used as it stands; a handle is looked up
/// in the handle cache and, on a miss, turned into the directory request.
pub fn begin_resolution(caches: &CacheSet, id: &str, directory_base_url: &str, now: u64) -> (r:
    ResolveStep)
    ensures
        begin_ok(r, *caches, id@, directory_base_url@, now),
{
    if is_did(id) {
        proceed_with_did(caches, id, id, now)
    } else {
        match caches.handle_cache.get(id, now) {
            Some(did) => proceed_with_did(caches, id, did.as_str(), now),
            None => ResolveStep::NeedDirectory { url: directory_url(directory_base_url, id) },
        }
    }
}

/// Reports the outcome of the directory request for handle `id`.  On
/// success the DID is cached and resolution proceeds; any failure is the
/// terminal `HandleNotFound` and the cache is left untouched.
pub fn on_handle_resolved(
    caches: &mut CacheSet,
    id: &str,
    outcome: Result<String, ResolveError>,
    now: u64,
) -> (r: ResolveStep)
    requires
        old(caches).wf(),
    ensures
        final(caches).wf(),
        match outcome {
            Ok(did) => {
                &&& final(caches).handle_cache@ == cache_put(
                    old(caches).handle_cache@,
                    id@,
                    did@,
                    now,
                )
                &&& final(caches).doc_cache@ == old(caches).doc_cache@
                &&& proceed_ok(r, *final(caches), id@, did@, now)
            },
            Err(e) => {
                &&& final(caches).handle_cache@ == old(caches).handle_cache@
                &&& final(caches).doc_cache@ == old(caches).doc_cache@
                &&& r == (ResolveStep::Failed { error: ResolveError::HandleNotFound })
            },
        },
{
    match outcome {
        Ok(did) => {
            let stored = did.clone();
            caches.handle_cache.put(id, stored, now);
            proceed_with_did(&*caches, id, did.as_str(), now)
        },
        Err(_) => ResolveStep::Failed { error: ResolveError::HandleNotFound },
    }
}

/// Reports the outcome of the document request for `did`.  On success the
/// document is cached and interpreted; a failure is propagated unchanged
/// and the cache is left untouched.
pub fn on_document_fetched(
    caches: &mut CacheSet,
    id: &str,
    did: &str,
    outcome: Result<DidDocument, ResolveError>,
    now: u64,
) -> (r: ResolveStep)
    requires
        old(caches).wf(),
    ensures
        final(caches).wf(),
        match outcome {
            Ok(doc) => {
                &&& final(caches).doc_cache@ == cache_put(old(caches).doc_cache@, did@, doc@, now)
                &&& final(caches).handle_cache@ == old(caches).handle_cache@
                &&& completion_ok(r, id@, did@, doc@)
            },
            Err(e) => {
                &&& final(caches).handle_cache@ == old(caches).handle_cache@
                &&& final(caches).doc_cache@ == old(caches).doc_cache@
                &&& r == (ResolveStep::Failed { error: e })
            },
        },
{
    match outcome {
        Ok(doc) => {
            let stored = doc.duplicate();
            caches.doc_cache.put(did, stored, now);
            complete_with_document(id, did, &doc)
        },
        Err(error) => ResolveStep::Failed { error },
    }
}

/// Once the caches hold the handle's DID and that DID's document, a new
/// resolution pass is answered entirely from cache: the step it returns is
/// the completed result determined by the identifier, the DID and the
/// cached document, and no request is asked for.
pub proof fn lemma_begin_completes_from_cache(
    r: ResolveStep,
    caches: CacheSet,
    id: Seq<char>,
    base: Seq<char>,
    did: Seq<char>,
    doc: DocView,
    now: u64,
)
    requires
        is_did_spec(id) ==> did == id,
        !is_did_spec(id) ==> cache_get(caches.handle_cache@, id, now) == Some(did),
        cache_get(caches.doc_cache@, did, now) == Some(doc),
        begin_ok(r, caches, id, base, now),
    ensures
        completion_ok(r, id, did, doc),
{
}

/// Resolving the same handle twice in immediate succession is idempotent:
/// after a first pass resolved the handle to `did` at `now` and cached the
/// fetched document, a second pass at any `now2` inside the TTL window
/// finds both entries fresh and returns the completed result for the very
/// same document: it performs no request and writes nothing, so the entry
/// counts do not change.
pub proof fn lemma_second_pass_idempotent(
    r2: ResolveStep,
    caches: CacheSet,
    mh0: Seq<(Seq<char>, Seq<char>, u64)>,
    md0: Seq<(Seq<char>, DocView, u64)>,
    id: Seq<char>,
    base: Seq<char>,
    did: Seq<char>,
    doc: DocView,
    now: u64,
    now2: u64,
)
    requires
        !is_did_spec(id),
        caches.handle_cache@ == cache_put(mh0, id, did, now),
        caches.doc_cache@ == cache_put(md0, did, doc, now),
        entry_fresh(now, now2),
        begin_ok(r2, caches, id, base, now2),
    ensures
        cache_get(caches.handle_cache@, id, now2) == Some(did),
        cache_get(caches.doc_cache@, did, now2) == Some(doc),
        completion_ok(r2, id, did, doc),
{
    lemma_cache_round_trip(mh0, id, did, now, now2);
    lemma_cache_round_trip(md0, did, doc, now, now2);
}

} // verus!
