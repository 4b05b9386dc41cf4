//! The identity document and the pure extraction functions over it: finding
//! a service descriptor by id and type, and finding the self-declared
//! handle among the document's aliases.  Both scans return the first match
//! in document order.

use vstd::prelude::*;

use crate::text::str_eq;
use crate::text::str_views;
use vstd::string::StrSliceExecFns;

verus! {

/// A cryptographic key descriptor, carried through without validation.
#[derive(Debug)]
pub struct DidDocumentVerificationMethod {
    pub id: String,
    pub _type: String,
    pub controller: String,
    pub public_key_multibase: String,
}

/// A service descriptor: an id, a type, and an endpoint URL.
#[derive(Debug)]
pub struct DidDocumentService {
    pub id: String,
    pub _type: String,
    pub service_endpoint: String,
}

/// An actor's published identity record.
#[derive(Debug)]
pub struct DidDocument {
    pub _context: Vec<String>,
    pub id: String,
    pub also_known_as: Vec<String>,
    pub verification_method: Vec<DidDocumentVerificationMethod>,
    pub service: Vec<DidDocumentService>,
}

/// Mathematical image of a verification method.
pub ghost struct VerificationMethodView {
    pub id: Seq<char>,
    pub _type: Seq<char>,
    pub controller: Seq<char>,
    pub public_key_multibase: Seq<char>,
}

/// Mathematical image of a service descriptor.
pub ghost struct ServiceView {
    pub id: Seq<char>,
    pub _type: Seq<char>,
    pub service_endpoint: Seq<char>,
}

/// Mathematical image of an identity document.
pub ghost struct DocView {
    pub _context: Seq<Seq<char>>,
    pub id: Seq<char>,
    pub also_known_as: Seq<Seq<char>>,
    pub verification_method: Seq<VerificationMethodView>,
    pub service: Seq<ServiceView>,
}

impl View for DidDocumentVerificationMethod {
    type V = VerificationMethodView;

    open spec fn view(&self) -> VerificationMethodView {
        VerificationMethodView {
            id: self.id@,
            _type: self._type@,
            controller: self.controller@,
            public_key_multibase: self.public_key_multibase@,
        }
    }
}

impl View for DidDocumentService {
    type V = ServiceView;

    open spec fn view(&self) -> ServiceView {
        ServiceView {
            id: self.id@,
            _type: self._type@,
            service_endpoint: self.service_endpoint@,
        }
    }
}

/// The views of a sequence of verification methods.
pub open spec fn vm_views(s: Seq<DidDocumentVerificationMethod>) -> Seq<VerificationMethodView> {
    s.map_values(|x: DidDocumentVerificationMethod| x@)
}

/// The views of a sequence of service descriptors.
pub open spec fn service_views(s: Seq<DidDocumentService>) -> Seq<ServiceView> {
    s.map_values(|x: DidDocumentService| x@)
}

impl View for DidDocument {
    type V = DocView;

    open spec fn view(&self) -> DocView {
        DocView {
            _context: str_views(self._context@),
            id: self.id@,
            also_known_as: str_views(self.also_known_as@),
            verification_method: vm_views(self.verification_method@),
            service: service_views(self.service@),
        }
    }
}

impl DidDocumentService {
    /// An exact copy.
    pub fn duplicate(&self) -> (r: DidDocumentService)
        ensures
            r@ == self@,
    {
        DidDocumentService {
            id: self.id.clone(),
            _type: self._type.clone(),
            service_endpoint: self.service_endpoint.clone(),
        }
    }
}

impl DidDocumentVerificationMethod {
    /// An exact copy.
    pub fn duplicate(&self) -> (r: DidDocumentVerificationMethod)
        ensures
            r@ == self@,
    {
        DidDocumentVerificationMethod {
            id: self.id.clone(),
            _type: self._type.clone(),
            controller: self.controller.clone(),
            public_key_multibase: self.public_key_multibase.clone(),
        }
    }
}

/// An exact copy of a vector of strings.
fn clone_string_vec(v: &Vec<String>) -> (r: Vec<String>)
    ensures
        str_views(r@) == str_views(v@),
{
    let mut r: Vec<String> = Vec::new();
    let mut i: usize = 0;
    while i < v.len()
        invariant
            i <= v@.len(),
            str_views(r@) =~= str_views(v@.subrange(0, i as int)),
        decreases v@.len() - i,
    {
        let elem = v[i].clone();
        proof {
            assert(elem == v@[i as int]);
            assert(v@.subrange(0, i + 1) =~= v@.subrange(0, i as int).push(v@[i as int]));
            assert(str_views(r@.push(elem)) =~= str_views(r@).push(elem@));
            assert(str_views(v@.subrange(0, i as int).push(v@[i as int])) =~= str_views(
                v@.subrange(0, i as int),
            ).push(v@[i as int]@));
            assert(str_views(r@.push(elem)) =~= str_views(v@.subrange(0, i + 1)));
        }
        r.push(elem);
        i = i + 1;
    }
    proof {
        assert(v@.subrange(0, v@.len() as int) =~= v@);
    }
    r
}

impl DidDocument {
    /// An exact copy of the whole document.
    pub fn duplicate(&self) -> (r: DidDocument)
        ensures
            r@ == self@,
    {
        let mut vms: Vec<DidDocumentVerificationMethod> = Vec::new();
        let mut i: usize = 0;
        while i < self.verification_method.len()
            invariant
                i <= self.verification_method@.len(),
                vm_views(vms@) =~= vm_views(self.verification_method@.subrange(0, i as int)),
            decreases self.verification_method@.len() - i,
        {
            let elem = self.verification_method[i].duplicate();
            proof {
                let orig = self.verification_method@;
                assert(elem@ == orig[i as int]@);
                assert(orig.subrange(0, i + 1) =~= orig.subrange(0, i as int).push(
                    orig[i as int],
                ));
                assert(vm_views(vms@.push(elem)) =~= vm_views(vms@).push(elem@));
                assert(vm_views(orig.subrange(0, i as int).push(orig[i as int])) =~= vm_views(
                    orig.subrange(0, i as int),
                ).push(orig[i as int]@));
                assert(vm_views(vms@.push(elem)) =~= vm_views(orig.subrange(0, i + 1)));
            }
            vms.push(elem);
            i = i + 1;
        }
        let mut svcs: Vec<DidDocumentService> = Vec::new();
        let mut j: usize = 0;
        while j < self.service.len()
            invariant
                j <= self.service@.len(),
                service_views(svcs@) =~= service_views(self.service@.subrange(0, j as int)),
            decreases self.service@.len() - j,
        {
            let elem = self.service[j].duplicate();
            proof {
                let orig = self.service@;
                assert(elem@ == orig[j as int]@);
                assert(orig.subrange(0, j + 1) =~= orig.subrange(0, j as int).push(
                    orig[j as int],
                ));
                assert(service_views(svcs@.push(elem)) =~= service_views(svcs@).push(elem@));
                assert(service_views(orig.subrange(0, j as int).push(orig[j as int]))
                    =~= service_views(orig.subrange(0, j as int)).push(orig[j as int]@));
                assert(service_views(svcs@.push(elem)) =~= service_views(orig.subrange(0, j + 1)));
            }
            svcs.push(elem);
            j = j + 1;
        }
        proof {
            assert(self.verification_method@.subrange(0, self.verification_method@.len() as int)
                =~= self.verification_method@);
            assert(self.service@.subrange(0, self.service@.len() as int) =~= self.service@);
        }
        DidDocument {
            _context: clone_string_vec(&self._context),
            id: self.id.clone(),
            also_known_as: clone_string_vec(&self.also_known_as),
            verification_method: vms,
            service: svcs,
        }
    }
}

/// The service matches the wanted id and type.
pub open spec fn service_matches(svc: ServiceView, id: Seq<char>, ty: Seq<char>) -> bool {
    svc.id == id && svc._type == ty
}

/// Index of the first service matching `id` and `ty`, or `svcs.len()` when
/// none matches.
pub open spec fn first_match_index(svcs: Seq<ServiceView>, id: Seq<char>, ty: Seq<char>) -> int
    decreases svcs.len(),
{
    if svcs.len() == 0 {
        0
    } else if service_matches(svcs[0], id, ty) {
        0
    } else {
        1 + first_match_index(svcs.drop_first(), id, ty)
    }
}

/// The first service matching `id` and `ty`, if any.
pub open spec fn first_matching_service(
    svcs: Seq<ServiceView>,
    id: Seq<char>,
    ty: Seq<char>,
) -> Option<ServiceView> {
    let i = first_match_index(svcs, id, ty);
    if i < svcs.len() {
        Some(svcs[i])
    } else {
        None
    }
}

/// First-match semantics: the selected index is a match and everything
/// before it is not; when the index is the length, nothing matches at all.
pub proof fn lemma_first_match_index(svcs: Seq<ServiceView>, id: Seq<char>, ty: Seq<char>)
    ensures
        0 <= first_match_index(svcs, id, ty) <= svcs.len(),
        first_match_index(svcs, id, ty) < svcs.len() ==> service_matches(
            svcs[first_match_index(svcs, id, ty)],
            id,
            ty,
        ),
        forall|j: int|
            0 <= j < first_match_index(svcs, id, ty) ==> !service_matches(svcs[j], id, ty),
    decreases svcs.len(),
{
    if svcs.len() == 0 {
    } else if service_matches(svcs[0], id, ty) {
    } else {
        lemma_first_match_index(svcs.drop_first(), id, ty);
        assert forall|j: int| 0 <= j < first_match_index(svcs, id, ty) implies !service_matches(
            svcs[j],
            id,
            ty,
        ) by {
            if j > 0 {
                assert(svcs.drop_first()[j - 1] == svcs[j]);
            }
        }
    }
}

proof fn lemma_first_match_index_is(
    svcs: Seq<ServiceView>,
    id: Seq<char>,
    ty: Seq<char>,
    i: int,
)
    requires
        0 <= i <= svcs.len(),
        forall|j: int| 0 <= j < i ==> !service_matches(svcs[j], id, ty),
        i < svcs.len() ==> service_matches(svcs[i], id, ty),
    ensures
        first_match_index(svcs, id, ty) == i,
    decreases svcs.len(),
{
    if svcs.len() == 0 {
    } else if service_matches(svcs[0], id, ty) {
        assert(i == 0);
    } else {
        assert(i != 0);
        assert forall|j: int| 0 <= j < i - 1 implies !service_matches(
            svcs.drop_first()[j],
            id,
            ty,
        ) by {
            assert(svcs.drop_first()[j] == svcs[j + 1]);
        }
        assert(i - 1 < svcs.drop_first().len() ==> service_matches(
            svcs.drop_first()[i - 1],
            id,
            ty,
        ));
        lemma_first_match_index_is(svcs.drop_first(), id, ty, i - 1);
    }
}

/// Linear scan of the document's services; returns a copy of the first
/// entry whose id and type both match, in document order.
pub fn get_service_endpoint(doc: &DidDocument, svc_id: &str, svc_type: &str) -> (r: Option<
    DidDocumentService,
>)
    ensures
        match r {
            Some(svc) => first_matching_service(doc@.service, svc_id@, svc_type@) == Some(svc@),
            None => first_matching_service(doc@.service, svc_id@, svc_type@) is None,
        },
{
    let n: usize = doc.service.len();
    let mut i: usize = 0;
    while i < n
        invariant
            i <= n,
            n == doc.service@.len(),
            forall|j: int| 0 <= j < i ==> !service_matches(doc@.service[j], svc_id@, svc_type@),
        decreases n - i,
    {
        let svc = &doc.service[i];
        proof {
            assert(doc@.service[i as int] == svc@);
        }
        if str_eq(svc.id.as_str(), svc_id) && str_eq(svc._type.as_str(), svc_type) {
            proof {
                lemma_first_match_index_is(doc@.service, svc_id@, svc_type@, i as int);
            }
            return Some(svc.duplicate());
        }
        i = i + 1;
    }
    proof {
        lemma_first_match_index_is(doc@.service, svc_id@, svc_type@, n as int);
    }
    None
}

/// The data-hosting service of a document: the first service entry with id
/// `#atproto_pds` and type `AtprotoPersonalDataServer`.
pub fn get_pds_endpoint(doc: &DidDocument) -> (r: Option<DidDocumentService>)
    ensures
        match r {
            Some(svc) => first_matching_service(
                doc@.service,
                "#atproto_pds"@,
                "AtprotoPersonalDataServer"@,
            ) == Some(svc@),
            None => first_matching_service(
                doc@.service,
                "#atproto_pds"@,
                "AtprotoPersonalDataServer"@,
            ) is None,
        },
{
    get_service_endpoint(doc, "#atproto_pds", "AtprotoPersonalDataServer")
}

/// The alias starts with the scheme `at://`.
pub open spec fn starts_with_at(u: Seq<char>) -> bool {
    u.len() >= 5 && u.subrange(0, 5) == "at://"@
}

/// Index of the first `at://` alias, or `aka.len()` when there is none.
pub open spec fn first_at_index(aka: Seq<Seq<char>>) -> int
    decreases aka.len(),
{
    if aka.len() == 0 {
        0
    } else if starts_with_at(aka[0]) {
        0
    } else {
        1 + first_at_index(aka.drop_first())
    }
}

/// The handle a document declares for itself: the first `at://` alias with
/// the scheme stripped, if any alias carries that scheme.
pub open spec fn doc_handle(aka: Seq<Seq<char>>) -> Option<Seq<char>> {
    let i = first_at_index(aka);
    if i < aka.len() {
        Some(aka[i].subrange(5, aka[i].len() as int))
    } else {
        None
    }
}

/// First-match semantics of the alias scan.
pub proof fn lemma_first_at_index(aka: Seq<Seq<char>>)
    ensures
        0 <= first_at_index(aka) <= aka.len(),
        first_at_index(aka) < aka.len() ==> starts_with_at(aka[first_at_index(aka)]),
        forall|j: int| 0 <= j < first_at_index(aka) ==> !starts_with_at(aka[j]),
    decreases aka.len(),
{
    if aka.len() == 0 {
    } else if starts_with_at(aka[0]) {
    } else {
        lemma_first_at_index(aka.drop_first());
        assert forall|j: int| 0 <= j < first_at_index(aka) implies !starts_with_at(aka[j]) by {
            if j > 0 {
                assert(aka.drop_first()[j - 1] == aka[j]);
            }
        }
    }
}

proof fn lemma_first_at_index_is(aka: Seq<Seq<char>>, i: int)
    requires
        0 <= i <= aka.len(),
        forall|j: int| 0 <= j < i ==> !starts_with_at(aka[j]),
        i < aka.len() ==> starts_with_at(aka[i]),
    ensures
        first_at_index(aka) == i,
    decreases aka.len(),
{
    if aka.len() == 0 {
    } else if starts_with_at(aka[0]) {
        assert(i == 0);
    } else {
        assert(i != 0);
        assert forall|j: int| 0 <= j < i - 1 implies !starts_with_at(aka.drop_first()[j]) by {
            assert(aka.drop_first()[j] == aka[j + 1]);
        }
        assert(i - 1 < aka.drop_first().len() ==> starts_with_at(aka.drop_first()[i - 1]));
        lemma_first_at_index_is(aka.drop_first(), i - 1);
    }
}

/// True exactly when `s` starts with `at://`.
fn has_at_prefix(s: &str) -> (r: bool)
    ensures
        r == starts_with_at(s@),
{
    proof {
        reveal_strlit("at://");
    }
    let n: usize = s.unicode_len();
    if n < 5 {
        return false;
    }
    let r = s.get_char(0) == 'a' && s.get_char(1) == 't' && s.get_char(2) == ':' && s.get_char(3)
        == '/' && s.get_char(4) == '/';
    proof {
        if r {
            assert(s@.subrange(0, 5) =~= "at://"@);
        } else {
            assert(s@.subrange(0, 5)[0] == s@[0]);
            assert(s@.subrange(0, 5)[1] == s@[1]);
            assert(s@.subrange(0, 5)[2] == s@[2]);
            assert(s@.subrange(0, 5)[3] == s@[3]);
            assert(s@.subrange(0, 5)[4] == s@[4]);
        }
    }
    r
}

/// Scans `alsoKnownAs` in document order and returns the first alias with
/// the `at://` scheme, scheme stripped; nothing when no alias carries it.
pub fn extract_handle_from_doc(doc: &DidDocument) -> (r: Option<String>)
    ensures
        match r {
            Some(h) => doc_handle(doc@.also_known_as) == Some(h@),
            None => doc_handle(doc@.also_known_as) is None,
        },
{
    let n: usize = doc.also_known_as.len();
    let mut i: usize = 0;
    while i < n
        invariant
            i <= n,
            n == doc.also_known_as@.len(),
            forall|j: int| 0 <= j < i ==> !starts_with_at(doc@.also_known_as[j]),
        decreases n - i,
    {
        let aka = &doc.also_known_as[i];
        proof {
            assert(doc@.also_known_as[i as int] == aka@);
        }
        if has_at_prefix(aka.as_str()) {
            proof {
                lemma_first_at_index_is(doc@.also_known_as, i as int);
            }
            let len: usize = aka.as_str().unicode_len();
            return Some(aka.as_str().substring_char(5, len).to_owned());
        }
        i = i + 1;
    }
    proof {
        lemma_first_at_index_is(doc@.also_known_as, n as int);
    }
    None
}

} // verus!
