//! What debug files are fetched for a request, and what becomes of the images once they are.

use std::sync::Arc;

use vstd::prelude::*;

use crate::arch::Arch;
use crate::lookup::{first_holder, law_first_holder, Image, ImageModel, SymCacheLookup};
use crate::object_id::{object_id, object_id_from_object_info, ObjectId, ObjectIdModel};
use crate::symcache::{
    cache_error_status, parsed_symcache, CacheErrorKind, SymCacheFile, SymCacheModel,
};
use crate::types::{
    ObjectFileStatus, ObjectModel, ObjectType, RawObjectInfo, RawObjectModel, RawStacktrace,
    RawStacktraceModel, RequestModel, Scope, ScopeModel, SourceConfig, SourceModel,
    SymbolicateStacktraces,
};

verus! {

/// A request for the file that is made from an object file: its symbols, or its unwind information.
#[derive(Clone, Debug)]
pub struct FetchCache {
    /// The type of the object file.
    pub object_type: ObjectType,
    /// What the object file is searched by.
    pub identifier: ObjectId,
    /// Where the object file is searched.
    pub sources: Arc<Vec<SourceConfig>>,
    /// The scope of the request that needs the file.
    pub scope: Scope,
}

/// The model of a [`FetchCache`].
pub struct FetchModel {
    pub object_type: Seq<char>,
    pub identifier: ObjectIdModel,
    pub sources: Seq<SourceModel>,
    pub scope: ScopeModel,
}

impl DeepView for FetchCache {
    type V = FetchModel;

    open spec fn deep_view(&self) -> FetchModel {
        FetchModel {
            object_type: self.object_type.deep_view(),
            identifier: self.identifier.deep_view(),
            sources: self.sources.deep_view(),
            scope: self.scope.deep_view(),
        }
    }
}

/// Calls `<Arc as Clone>::clone`. Claims that the new pointer is to the same value.
#[verifier::external_body]
fn share<T>(value: &Arc<T>) -> (r: Arc<T>)
    ensures
        r == *value,
{
    Arc::clone(value)
}

/// The request for the file that is made from the object file of an image.
pub open spec fn fetch_for(
    raw: RawObjectModel,
    sources: Seq<SourceModel>,
    scope: ScopeModel,
) -> FetchModel {
    FetchModel { object_type: raw.ty, identifier: object_id(raw), sources, scope }
}

/// The request for the file that is made from the object file of an image.
pub fn fetch_for_object(
    raw: &RawObjectInfo,
    sources: &Arc<Vec<SourceConfig>>,
    scope: &Scope,
) -> (r: FetchCache)
    ensures
        r.deep_view() == fetch_for(raw.deep_view(), sources.deep_view(), scope.deep_view()),
{
    FetchCache {
        object_type: raw.ty.copy(),
        identifier: object_id_from_object_info(raw),
        sources: share(sources),
        scope: scope.copy(),
    }
}

/// Whether the frame `f` of the stack trace `t` belongs to the image at `i`.
pub open spec fn refers_to(
    images: Seq<ImageModel>,
    stacktraces: Seq<RawStacktraceModel>,
    t: int,
    f: int,
    i: int,
) -> bool {
    &&& 0 <= t < stacktraces.len()
    &&& 0 <= f < stacktraces[t].frames.len()
    &&& first_holder(images, stacktraces[t].frames[f].instruction_addr) == i
}

/// Whether any frame belongs to the image at `i`.
pub open spec fn is_referenced(
    images: Seq<ImageModel>,
    stacktraces: Seq<RawStacktraceModel>,
    i: int,
) -> bool {
    exists|t: int, f: int| #[trigger] refers_to(images, stacktraces, t, f, i)
}

/// For each image, the request for its symbol cache. There is none for an image that no frame
/// belongs to.
pub open spec fn symcaches_to_fetch(
    images: Seq<ImageModel>,
    request: RequestModel,
) -> Seq<Option<FetchModel>> {
    Seq::new(
        images.len(),
        |i: int|
            if is_referenced(images, request.stacktraces, i) {
                Some(fetch_for(images[i].0.raw, request.sources, request.scope))
            } else {
                None
            },
    )
}

/// What came of fetching a symbol cache. None where it was not fetched.
pub type SymCacheOutcome = Option<Result<Arc<SymCacheFile>, CacheErrorKind>>;

/// The model of a [`SymCacheOutcome`].
pub type OutcomeModel = Option<Result<SymCacheModel, CacheErrorKind>>;

/// The model of an outcome.
pub open spec fn outcome_model(outcome: SymCacheOutcome) -> OutcomeModel {
    match outcome {
        Some(Ok(file)) => Some(Ok(file.deep_view())),
        Some(Err(kind)) => Some(Err(kind)),
        None => None,
    }
}

/// What becomes of an image, given what came of fetching its symbol cache.
pub open spec fn examined(info: ObjectModel, outcome: OutcomeModel) -> ImageModel {
    match outcome {
        Some(Ok(file)) => match parsed_symcache(file) {
            Ok(parsed) => (
                ObjectModel {
                    debug_status: if parsed is Some {
                        ObjectFileStatus::Found
                    } else {
                        ObjectFileStatus::Missing
                    },
                    arch: file.arch,
                    ..info
                },
                Some(file),
            ),
            Err(kind) => without_symcache(info, kind),
        },
        Some(Err(kind)) => without_symcache(info, kind),
        None => (ObjectModel { debug_status: ObjectFileStatus::Unused, ..info }, None),
    }
}

/// What becomes of an image whose symbol cache could not be had.
pub open spec fn without_symcache(info: ObjectModel, kind: CacheErrorKind) -> ImageModel {
    (
        ObjectModel { debug_status: cache_error_status(kind), arch: Arch::Unknown, ..info },
        None,
    )
}

/// What becomes of the images, given what came of fetching their symbol caches.
pub open spec fn all_examined(
    images: Seq<ImageModel>,
    outcomes: Seq<SymCacheOutcome>,
) -> Seq<ImageModel> {
    Seq::new(images.len(), |i: int| examined(images[i].0, outcome_model(outcomes[i])))
}

/// What becomes of an image, given what came of fetching its symbol cache.
pub fn examine(image: Image, outcome: SymCacheOutcome) -> (r: Image)
    ensures
        r.deep_view() == examined(image.deep_view().0, outcome_model(outcome)),
{
    let mut info = image.0;
    let (symcache, status): (Option<Arc<SymCacheFile>>, ObjectFileStatus) = match outcome {
        None => {
            info.debug_status = ObjectFileStatus::Unused;
            return (info, None);
        },
        Some(Ok(file)) => match file.parse() {
            Ok(Some(_)) => (Some(file), ObjectFileStatus::Found),
            Ok(None) => (Some(file), ObjectFileStatus::Missing),
            Err(kind) => (None, ObjectFileStatus::from(kind)),
        },
        Some(Err(kind)) => (None, ObjectFileStatus::from(kind)),
    };
    info.arch = match &symcache {
        Some(file) => file.arch,
        None => Arch::Unknown,
    };
    info.debug_status = status;
    (info, symcache)
}

/// For each image, whether any of the frames before the first `done` of the stack trace `t` belongs
/// to it, or any frame of an earlier stack trace.
spec fn referenced_before(
    images: Seq<ImageModel>,
    stacktraces: Seq<RawStacktraceModel>,
    t: int,
    done: int,
    i: int,
) -> bool {
    exists|u: int, f: int|
        #[trigger] refers_to(images, stacktraces, u, f, i) && (u < t || (u == t && f < done))
}

impl SymCacheLookup {
    /// For each image, whether any frame belongs to it.
    fn referenced(&self, stacktraces: &Vec<RawStacktrace>) -> (r: Vec<bool>)
        ensures
            r.len() == self@.len(),
            forall|i: int|
                0 <= i < r.len() ==> #[trigger] r@[i] == is_referenced(
                    self@,
                    stacktraces.deep_view(),
                    i,
                ),
    {
        let ghost model = stacktraces.deep_view();
        let total: usize = self.len();
        let mut marks: Vec<bool> = Vec::new();
        while marks.len() < total
            invariant
                marks.len() <= total,
                forall|i: int| 0 <= i < marks.len() ==> #[trigger] marks@[i] == false,
            decreases total - marks.len(),
        {
            marks.push(false);
        }
        let mut t: usize = 0;
        while t < stacktraces.len()
            invariant
                model == stacktraces.deep_view(),
                total == self@.len() == marks.len(),
                0 <= t <= stacktraces.len(),
                forall|i: int|
                    0 <= i < total ==> #[trigger] marks@[i] == referenced_before(
                        self@,
                        model,
                        t as int,
                        0,
                        i,
                    ),
            decreases stacktraces.len() - t,
        {
            let frames = &stacktraces[t].frames;
            assert(model[t as int].frames == frames.deep_view());
            let mut f: usize = 0;
            while f < frames.len()
                invariant
                    0 <= t < model.len(),
                    model[t as int].frames == frames.deep_view(),
                    total == self@.len() == marks.len(),
                    0 <= f <= frames.len(),
                    forall|i: int|
                        0 <= i < total ==> #[trigger] marks@[i] == referenced_before(
                            self@,
                            model,
                            t as int,
                            f as int,
                            i,
                        ),
                decreases frames.len() - f,
            {
                let addr: u64 = frames[f].instruction_addr.0;
                assert(model[t as int].frames[f as int].instruction_addr == addr);
                let ghost before = marks@;
                match self.lookup_symcache(addr) {
                    Some((at, _, _)) => {
                        marks.set(at, true);
                    },
                    None => {},
                }
                proof {
                    law_first_holder(self@, addr);
                    assert forall|i: int| 0 <= i < total implies #[trigger] marks@[i]
                        == referenced_before(self@, model, t as int, f + 1, i) by {
                        assert(before[i] == referenced_before(self@, model, t as int, f as int, i));
                        if first_holder(self@, addr) == i {
                            assert(refers_to(self@, model, t as int, f as int, i));
                        }
                        if before[i] {
                            let (u, g) = choose|u: int, g: int|
                                #[trigger] refers_to(self@, model, u, g, i) && (u < t || (u == t
                                    && g < f));
                            assert(refers_to(self@, model, u, g, i));
                        }
                    }
                }
                f += 1;
            }
            proof {
                assert forall|i: int| 0 <= i < total implies #[trigger] marks@[i]
                    == referenced_before(self@, model, t + 1, 0, i) by {
                    assert(marks@[i] == referenced_before(self@, model, t as int, f as int, i));
                    if marks@[i] {
                        let (u, g) = choose|u: int, g: int|
                            #[trigger] refers_to(self@, model, u, g, i) && (u < t || (u == t && g
                                < f));
                        assert(refers_to(self@, model, u, g, i) && u < t + 1);
                    }
                    if referenced_before(self@, model, t + 1, 0, i) {
                        let (u, g) = choose|u: int, g: int|
                            #[trigger] refers_to(self@, model, u, g, i) && (u < t + 1 || (u == t + 1
                                && g < 0));
                        assert(refers_to(self@, model, u, g, i));
                    }
                }
            }
            t += 1;
        }
        proof {
            assert forall|i: int| 0 <= i < total implies #[trigger] marks@[i] == is_referenced(
                self@,
                model,
                i,
            ) by {
                assert(marks@[i] == referenced_before(self@, model, t as int, 0, i));
                if is_referenced(self@, model, i) {
                    let (u, g) = choose|u: int, g: int|
                        #[trigger] refers_to(self@, model, u, g, i);
                    assert(refers_to(self@, model, u, g, i));
                }
                if marks@[i] {
                    let (u, g) = choose|u: int, g: int|
                        #[trigger] refers_to(self@, model, u, g, i) && (u < t || (u == t && g < 0));
                    assert(refers_to(self@, model, u, g, i));
                }
            }
        }
        marks
    }

    /// For each image, the request for its symbol cache. There is none for an image that no frame
    /// belongs to.
    pub fn symcaches_to_fetch(&self, request: &SymbolicateStacktraces) -> (r: Vec<
        Option<FetchCache>,
    >)
        ensures
            r.deep_view() == symcaches_to_fetch(self@, request.deep_view()),
    {
        let referenced = self.referenced(&request.stacktraces);
        let ghost expected = symcaches_to_fetch(self@, request.deep_view());
        let mut fetches: Vec<Option<FetchCache>> = Vec::new();
        let mut i: usize = 0;
        while i < referenced.len()
            invariant
                referenced.len() == self@.len(),
                expected == symcaches_to_fetch(self@, request.deep_view()),
                forall|i: int|
                    0 <= i < referenced.len() ==> #[trigger] referenced@[i] == is_referenced(
                        self@,
                        request.deep_view().stacktraces,
                        i,
                    ),
                0 <= i <= referenced.len(),
                fetches.len() == i,
                forall|j: int|
                    0 <= j < i ==> (#[trigger] fetches@[j]).deep_view() == expected[j],
            decreases referenced.len() - i,
        {
            if referenced[i] {
                let (info, _) = self.get(i);
                fetches.push(Some(fetch_for_object(&info.raw, &request.sources, &request.scope)));
            } else {
                fetches.push(None);
            }
            i += 1;
        }
        assert(fetches.deep_view() =~= expected);
        fetches
    }

    /// The images with the symbol caches that were fetched for them.
    pub fn with_symcaches(self, outcomes: Vec<SymCacheOutcome>) -> (r: SymCacheLookup)
        requires
            outcomes.len() == self@.len(),
        ensures
            r@ == all_examined(self@, outcomes@),
    {
        let ghost all = self@;
        let ghost given = outcomes@;
        let mut outcomes = outcomes;
        let mut done: Vec<Image> = Vec::new();
        for image in it: self.into_images()
            invariant
                given.len() == all.len() == it.seq().len(),
                outcomes.len() == given.len(),
                forall|i: int| 0 <= i < all.len() ==> #[trigger] all[i] == it.seq()[i].deep_view(),
                done.len() == it.index(),
                forall|i: int|
                    done.len() <= i < outcomes.len() ==> #[trigger] outcomes@[i] == given[i],
                forall|i: int|
                    0 <= i < done.len() ==> (#[trigger] done@[i]).deep_view() == examined(
                        all[i].0,
                        outcome_model(given[i]),
                    ),
        {
            let at: usize = done.len();
            assert(all[at as int] == image.deep_view());
            assert(outcomes@[at as int] == given[at as int]);
            let outcome: SymCacheOutcome = outcomes[at].take();
            done.push(examine(image, outcome));
        }
        assert(done.deep_view() =~= all_examined(all, given));
        SymCacheLookup::from_images(done)
    }
}

/// No symbol cache is fetched for an image that no frame belongs to, and the image is reported as
/// unused.
pub proof fn law_unreferenced_images_unused(
    images: Seq<ImageModel>,
    request: RequestModel,
    outcomes: Seq<SymCacheOutcome>,
    i: int,
)
    requires
        0 <= i < images.len() == outcomes.len(),
        outcomes[i] is None <==> symcaches_to_fetch(images, request)[i] is None,
        !is_referenced(images, request.stacktraces, i),
    ensures
        symcaches_to_fetch(images, request)[i] is None,
        all_examined(images, outcomes)[i].0.debug_status == ObjectFileStatus::Unused,
        all_examined(images, outcomes)[i].1 is None,
{
}

/// The symbol cache of the image that a frame belongs to is fetched, as the request says.
pub proof fn law_needed_symcaches_are_fetched(
    images: Seq<ImageModel>,
    request: RequestModel,
    t: int,
    f: int,
)
    requires
        0 <= t < request.stacktraces.len(),
        0 <= f < request.stacktraces[t].frames.len(),
    ensures
        ({
            let addr = request.stacktraces[t].frames[f].instruction_addr;
            let holder = first_holder(images, addr);
            holder < images.len() ==> symcaches_to_fetch(images, request)[holder] == Some(
                fetch_for(images[holder].0.raw, request.sources, request.scope),
            )
        }),
{
    let addr = request.stacktraces[t].frames[f].instruction_addr;
    law_first_holder(images, addr);
    assert(refers_to(images, request.stacktraces, t, f, first_holder(images, addr)));
}

/// Fetching symbol caches changes what is known of an image, and not what the request gives of it:
/// each address belongs to the same image as before.
pub proof fn law_fetching_keeps_lookup(
    images: Seq<ImageModel>,
    outcomes: Seq<SymCacheOutcome>,
    addr: u64,
)
    requires
        images.len() == outcomes.len(),
    ensures
        all_examined(images, outcomes).len() == images.len(),
        forall|i: int|
            0 <= i < images.len() ==> (#[trigger] all_examined(images, outcomes)[i]).0.raw
                == images[i].0.raw && all_examined(images, outcomes)[i].0.unwind_status
                == images[i].0.unwind_status,
        first_holder(all_examined(images, outcomes), addr) == first_holder(images, addr),
{
    let after = all_examined(images, outcomes);
    law_first_holder(images, addr);
    law_first_holder(after, addr);
    let a = first_holder(images, addr);
    let b = first_holder(after, addr);
    if a < b {
        assert(!crate::lookup::may_hold(after[a], addr));
        assert(crate::lookup::may_hold(images[a], addr));
    } else if b < a {
        assert(!crate::lookup::may_hold(images[b], addr));
        assert(crate::lookup::may_hold(after[b], addr));
    }
}

} // verus!
