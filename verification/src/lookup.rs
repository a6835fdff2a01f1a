//! Lookup of the image that an address belongs to.

use std::sync::Arc;

use vstd::prelude::*;

use crate::symcache::{SymCacheFile, SymCacheModel};
use crate::types::{CompleteObjectInfo, ObjectModel};

verus! {

/// An image and its symbol cache.
pub type Image = (CompleteObjectInfo, Option<Arc<SymCacheFile>>);

/// The model of an [`Image`].
pub type ImageModel = (ObjectModel, Option<SymCacheModel>);

/// The images of a process, by which addresses are looked up.
#[derive(Debug)]
pub struct SymCacheLookup {
    inner: Vec<Image>,
}

impl View for SymCacheLookup {
    type V = Seq<ImageModel>;

    closed spec fn view(&self) -> Seq<ImageModel> {
        self.inner.deep_view()
    }
}

/// The address at which an image is loaded.
pub open spec fn image_addr(image: ImageModel) -> u64 {
    image.0.raw.image_addr
}

/// The size of an image, zero where it is not known.
pub open spec fn image_size(image: ImageModel) -> u64 {
    match image.0.raw.image_size {
        Some(size) => size,
        None => 0,
    }
}

/// Whether the images stand in the order of their addresses.
pub open spec fn ascending(images: Seq<ImageModel>) -> bool {
    forall|i: int, j: int|
        0 <= i <= j < images.len() ==> image_addr(#[trigger] images[i]) <= image_addr(
            #[trigger] images[j],
        )
}

/// The images that are loaded at an address, in their order.
pub open spec fn images_at(images: Seq<ImageModel>, addr: u64) -> Seq<ImageModel> {
    images.filter(|image: ImageModel| image_addr(image) == addr)
}

/// Whether `sorted` holds the images of `images` in the order of their addresses, with images at
/// the same address left in their order.
pub open spec fn stably_sorted(images: Seq<ImageModel>, sorted: Seq<ImageModel>) -> bool {
    &&& ascending(sorted)
    &&& forall|addr: u64| #[trigger] images_at(sorted, addr) == images_at(images, addr)
}

/// The images in the order of their addresses, with images at the same address left in their order.
pub open spec fn address_order(images: Seq<ImageModel>) -> Seq<ImageModel> {
    choose|sorted: Seq<ImageModel>| stably_sorted(images, sorted)
}

/// The image with another size.
pub open spec fn with_size(image: ImageModel, size: u64) -> ImageModel {
    let raw = image.0.raw;
    (
        ObjectModel {
            raw: crate::types::RawObjectModel { image_size: Some(size), ..raw },
            ..image.0
        },
        image.1,
    )
}

/// The image at `i`, taken to reach up to the next image where its size is not known.
pub open spec fn image_with_gap(images: Seq<ImageModel>, i: int) -> ImageModel {
    if i + 1 < images.len() && image_size(images[i]) == 0 {
        with_size(images[i], (image_addr(images[i + 1]) - image_addr(images[i])) as u64)
    } else {
        images[i]
    }
}

/// The images, each of unknown size taken to reach up to the next image.
pub open spec fn gaps_filled(images: Seq<ImageModel>) -> Seq<ImageModel> {
    Seq::new(images.len(), |i: int| image_with_gap(images, i))
}

/// Whether an image may hold an address. An image of unknown size holds all addresses from its
/// own on, and so does one that would reach beyond the last address.
pub open spec fn may_hold(image: ImageModel, addr: u64) -> bool {
    &&& image_addr(image) <= addr
    &&& {
        ||| image_size(image) == 0
        ||| image_addr(image) + image_size(image) > u64::MAX
        ||| addr <= image_addr(image) + image_size(image)
    }
}

/// The index of the first image that may hold an address, and the number of images where there is
/// none.
pub open spec fn first_holder(images: Seq<ImageModel>, addr: u64) -> int
    decreases images.len(),
{
    if images.len() == 0 || may_hold(images[0], addr) {
        0
    } else {
        1 + first_holder(images.drop_first(), addr)
    }
}

/// The image found for an address is the first one that may hold it.
pub proof fn law_first_holder(images: Seq<ImageModel>, addr: u64)
    ensures
        0 <= first_holder(images, addr) <= images.len(),
        first_holder(images, addr) < images.len() ==> may_hold(
            images[first_holder(images, addr)],
            addr,
        ),
        forall|i: int| 0 <= i < first_holder(images, addr) ==> !may_hold(#[trigger] images[i], addr),
    decreases images.len(),
{
    if images.len() == 0 || may_hold(images[0], addr) {
    } else {
        let rest = images.drop_first();
        law_first_holder(rest, addr);
        assert forall|i: int| 0 <= i < first_holder(images, addr) implies !may_hold(
            #[trigger] images[i],
            addr,
        ) by {
            if i > 0 {
                assert(images[i] == rest[i - 1]);
            }
        }
    }
}

/// An index below which no image may hold the address, and at which one may, or which is the number
/// of images, is that of the first holder.
proof fn lemma_first_holder_unique(images: Seq<ImageModel>, addr: u64, index: int)
    requires
        0 <= index <= images.len(),
        index < images.len() ==> may_hold(images[index], addr),
        forall|i: int| 0 <= i < index ==> !may_hold(#[trigger] images[i], addr),
    ensures
        first_holder(images, addr) == index,
{
    law_first_holder(images, addr);
    let first = first_holder(images, addr);
    if first < index {
        assert(!may_hold(images[first], addr));
    }
}

/// Inserting an image behind all lower ones and before all others leaves the images sorted, and
/// adds it before those at the same address.
proof fn lemma_inserted(sorted: Seq<ImageModel>, image: ImageModel, at: int)
    requires
        ascending(sorted),
        0 <= at <= sorted.len(),
        forall|i: int| 0 <= i < at ==> image_addr(#[trigger] sorted[i]) < image_addr(image),
        forall|i: int| at <= i < sorted.len() ==> image_addr(image) <= image_addr(#[trigger] sorted[i]),
    ensures
        ascending(sorted.insert(at, image)),
        forall|addr: u64| #[trigger]
            images_at(sorted.insert(at, image), addr) == images_at(seq![image] + sorted, addr),
{
    let inserted = sorted.insert(at, image);
    assert forall|i: int, j: int| 0 <= i <= j < inserted.len() implies image_addr(
        #[trigger] inserted[i],
    ) <= image_addr(#[trigger] inserted[j]) by {
        let k = if i < at { i } else { i - 1 };
        let l = if j < at { j } else { j - 1 };
        if i != at && j != at {
            assert(inserted[i] == sorted[k] && inserted[j] == sorted[l]);
        } else if i == at && j > at {
            assert(inserted[j] == sorted[l]);
        } else if j == at && i < at {
            assert(inserted[i] == sorted[k]);
        }
    }
    assert forall|addr: u64| #[trigger] images_at(inserted, addr) == images_at(
        seq![image] + sorted,
        addr,
    ) by {
        let here = |image: ImageModel| image_addr(image) == addr;
        let low = sorted.take(at);
        let high = sorted.skip(at);
        assert(inserted =~= low + (seq![image] + high));
        assert(sorted =~= low + high);
        Seq::filter_distributes_over_add(low, seq![image] + high, here);
        Seq::filter_distributes_over_add(seq![image], high, here);
        Seq::filter_distributes_over_add(seq![image], sorted, here);
        Seq::filter_distributes_over_add(low, high, here);
        if image_addr(image) == addr {
            assert forall|i: int| 0 <= i < low.len() implies !here(#[trigger] low[i]) by {
                assert(low[i] == sorted[i]);
            }
            low.lemma_all_neg_filter_empty(here);
            assert(low.filter(here) =~= Seq::empty());
            assert(inserted.filter(here) =~= seq![image].filter(here) + sorted.filter(here));
        } else {
            let one = seq![image];
            assert forall|i: int| 0 <= i < one.len() implies !here(#[trigger] one[i]) by {}
            one.lemma_all_neg_filter_empty(here);
            assert(one.filter(here) =~= Seq::empty());
            assert(inserted.filter(here) =~= sorted.filter(here));
        }
    }
}

/// There is only one way to put images into the order of their addresses without moving images at
/// the same address past each other.
pub proof fn law_stable_order_unique(
    images: Seq<ImageModel>,
    a: Seq<ImageModel>,
    b: Seq<ImageModel>,
)
    requires
        stably_sorted(images, a),
        stably_sorted(images, b),
    ensures
        a == b,
{
    assert forall|addr: u64| #[trigger] images_at(a, addr) == images_at(b, addr) by {
        assert(images_at(a, addr) == images_at(images, addr));
        assert(images_at(b, addr) == images_at(images, addr));
    }
    lemma_same_images(a, b);
}

/// The first of some images stands first among those at its address.
proof fn lemma_first_of_images(a: Seq<ImageModel>, addr: u64)
    requires
        a.len() > 0,
    ensures
        images_at(a, addr) == (if image_addr(a[0]) == addr {
            seq![a[0]]
        } else {
            Seq::empty()
        }) + images_at(a.drop_first(), addr),
{
    let here = |image: ImageModel| image_addr(image) == addr;
    let one = seq![a[0]];
    assert(a =~= one + a.drop_first());
    Seq::filter_distributes_over_add(one, a.drop_first(), here);
    assert(one.drop_last() =~= Seq::empty());
    reveal_with_fuel(Seq::filter, 2);
    assert(one.filter(here) =~= if here(a[0]) {
        one
    } else {
        Seq::empty()
    });
}

proof fn lemma_lowest_first(a: Seq<ImageModel>, b: Seq<ImageModel>)
    requires
        ascending(a),
        b.len() > 0,
        forall|addr: u64| #[trigger] images_at(a, addr) == images_at(b, addr),
    ensures
        a.len() > 0,
        image_addr(a[0]) <= image_addr(b[0]),
{
    let addr = image_addr(b[0]);
    lemma_first_of_images(b, addr);
    assert(images_at(a, addr) == images_at(b, addr));
    assert(images_at(a, addr)[0] == b[0]);
    let here = |image: ImageModel| image_addr(image) == addr;
    a.lemma_filter_contains_rev(here, b[0]);
    assert(images_at(a, addr).contains(b[0]));
    assert(a.contains(b[0]));
    let i = choose|i: int| 0 <= i < a.len() && a[i] == b[0];
    assert(image_addr(a[0]) <= image_addr(a[i]));
}

proof fn lemma_same_images(a: Seq<ImageModel>, b: Seq<ImageModel>)
    requires
        ascending(a),
        ascending(b),
        forall|addr: u64| #[trigger] images_at(a, addr) == images_at(b, addr),
    ensures
        a == b,
    decreases a.len(),
{
    assert forall|addr: u64| #[trigger] images_at(b, addr) == images_at(a, addr) by {
        assert(images_at(a, addr) == images_at(b, addr));
    }
    if a.len() == 0 {
        if b.len() > 0 {
            lemma_lowest_first(a, b);
        }
        assert(a =~= b);
    } else {
        lemma_lowest_first(b, a);
        lemma_lowest_first(a, b);
        let low = image_addr(a[0]);
        lemma_first_of_images(a, low);
        lemma_first_of_images(b, low);
        assert(images_at(a, low) == images_at(b, low));
        assert(images_at(a, low)[0] == a[0]);
        assert(images_at(b, low)[0] == b[0]);
        let c = a.drop_first();
        let d = b.drop_first();
        assert forall|addr: u64| #[trigger] images_at(c, addr) == images_at(d, addr) by {
            lemma_first_of_images(a, addr);
            lemma_first_of_images(b, addr);
            assert(images_at(a, addr) == images_at(b, addr));
            let head = if image_addr(a[0]) == addr {
                seq![a[0]]
            } else {
                Seq::empty()
            };
            assert((head + images_at(c, addr)).skip(head.len() as int) =~= images_at(c, addr));
            assert((head + images_at(d, addr)).skip(head.len() as int) =~= images_at(d, addr));
        }
        lemma_same_images(c, d);
        assert(a =~= seq![a[0]] + c);
        assert(b =~= seq![b[0]] + d);
    }
}

/// The number of images below an address in a sorted list.
proof fn lemma_insertion_point(sorted: Seq<ImageModel>, addr: u64) -> (at: int)
    requires
        ascending(sorted),
    ensures
        0 <= at <= sorted.len(),
        forall|i: int| 0 <= i < at ==> image_addr(#[trigger] sorted[i]) < addr,
        forall|i: int| at <= i < sorted.len() ==> addr <= image_addr(#[trigger] sorted[i]),
    decreases sorted.len(),
{
    if sorted.len() == 0 || image_addr(sorted[0]) >= addr {
        assert forall|i: int| 0 <= i < sorted.len() implies addr <= image_addr(
            #[trigger] sorted[i],
        ) by {
            assert(image_addr(sorted[0]) <= image_addr(sorted[i]));
        }
        0
    } else {
        let rest = sorted.drop_first();
        assert forall|i: int, j: int| 0 <= i <= j < rest.len() implies image_addr(
            #[trigger] rest[i],
        ) <= image_addr(#[trigger] rest[j]) by {
            assert(image_addr(sorted[i + 1]) <= image_addr(sorted[j + 1]));
        }
        let at = 1 + lemma_insertion_point(rest, addr);
        assert forall|i: int| 0 <= i < at implies image_addr(#[trigger] sorted[i]) < addr by {
            if i > 0 {
                assert(sorted[i] == rest[i - 1]);
            }
        }
        assert forall|i: int| at <= i < sorted.len() implies addr <= image_addr(
            #[trigger] sorted[i],
        ) by {
            assert(sorted[i] == rest[i - 1]);
        }
        at
    }
}

proof fn lemma_order_exists(images: Seq<ImageModel>) -> (sorted: Seq<ImageModel>)
    ensures
        stably_sorted(images, sorted),
        sorted.to_multiset() == images.to_multiset(),
    decreases images.len(),
{
    if images.len() == 0 {
        images
    } else {
        let first = images[0];
        let rest = images.drop_first();
        let done = lemma_order_exists(rest);
        let at = lemma_insertion_point(done, image_addr(first));
        lemma_inserted(done, first, at);
        let sorted = done.insert(at, first);
        assert(images =~= seq![first] + rest);
        assert forall|addr: u64| #[trigger] images_at(sorted, addr) == images_at(images, addr) by {
            let here = |image: ImageModel| image_addr(image) == addr;
            Seq::filter_distributes_over_add(seq![first], done, here);
            Seq::filter_distributes_over_add(seq![first], rest, here);
            assert(images_at(done, addr) == images_at(rest, addr));
        }
        vstd::seq_lib::to_multiset_insert(done, at, first);
        vstd::seq_lib::to_multiset_insert(rest, 0, first);
        assert(rest.insert(0, first) =~= images);
        sorted
    }
}

/// Any images can be put into the order of their addresses, images at the same address stay in
/// their order, and none is lost or added.
pub proof fn law_address_order(images: Seq<ImageModel>)
    ensures
        stably_sorted(images, address_order(images)),
        address_order(images).to_multiset() == images.to_multiset(),
        address_order(images).len() == images.len(),
{
    let sorted = lemma_order_exists(images);
    law_stable_order_unique(images, sorted, address_order(images));
    vstd::seq_lib::to_multiset_len(images);
    vstd::seq_lib::to_multiset_len(sorted);
}

/// Once images are sorted they stand in the order of their addresses, nothing of an image but its
/// size has changed, no known size has changed, and an image of unknown size is the last one or
/// has the next one at its own address.
pub proof fn law_sorted_images(images: Seq<ImageModel>)
    ensures
        ({
            let order = address_order(images);
            let sorted = gaps_filled(order);
            &&& sorted.len() == images.len()
            &&& ascending(sorted)
            &&& forall|i: int|
                #![trigger sorted[i]]
                0 <= i < sorted.len() ==> {
                    &&& sorted[i] == order[i] || sorted[i] == with_size(
                        order[i],
                        image_size(sorted[i]),
                    )
                    &&& image_size(order[i]) != 0 ==> sorted[i] == order[i]
                    &&& image_size(sorted[i]) == 0 ==> i + 1 == sorted.len() || image_addr(
                        sorted[i + 1],
                    ) == image_addr(sorted[i])
                }
        }),
{
    law_address_order(images);
    let order = address_order(images);
    let sorted = gaps_filled(order);
    assert forall|i: int| 0 <= i < sorted.len() implies image_addr(#[trigger] sorted[i])
        == image_addr(order[i]) by {}
    assert forall|i: int|
        #![trigger sorted[i]]
        0 <= i < sorted.len() && image_size(sorted[i]) == 0 && i + 1 != sorted.len() implies image_addr(
        sorted[i + 1],
    ) == image_addr(sorted[i]) by {
        assert(image_addr(order[i]) <= image_addr(order[i + 1]));
        assert(sorted[i + 1] == image_with_gap(order, i + 1));
    }
    assert forall|i: int, j: int| 0 <= i <= j < sorted.len() implies image_addr(
        #[trigger] sorted[i],
    ) <= image_addr(#[trigger] sorted[j]) by {
        assert(image_addr(order[i]) <= image_addr(order[j]));
    }
}

/// Sorting images a second time changes nothing.
pub proof fn law_sort_idempotent(images: Seq<ImageModel>)
    ensures
        gaps_filled(address_order(gaps_filled(address_order(images)))) == gaps_filled(
            address_order(images),
        ),
{
    law_sorted_images(images);
    let sorted = gaps_filled(address_order(images));
    law_address_order(sorted);
    assert(stably_sorted(sorted, sorted));
    law_stable_order_unique(sorted, sorted, address_order(sorted));
    assert forall|i: int| 0 <= i < sorted.len() implies #[trigger] image_with_gap(sorted, i)
        == sorted[i] by {
        if i + 1 < sorted.len() && image_size(sorted[i]) == 0 {
            let order = address_order(images);
            law_address_order(images);
            assert(image_addr(order[i]) <= image_addr(order[i + 1]));
            assert(sorted[i] == image_with_gap(order, i));
        }
    }
    assert(gaps_filled(sorted) =~= sorted);
}

/// An address from the last image on is found where the size of that image is not known.
pub proof fn law_open_ended_image(images: Seq<ImageModel>, addr: u64)
    requires
        images.len() > 0,
        image_size(images.last()) == 0,
        image_addr(images.last()) <= addr,
    ensures
        first_holder(images, addr) < images.len(),
{
    law_first_holder(images, addr);
    let last = images.len() - 1;
    if first_holder(images, addr) == images.len() {
        assert(!may_hold(images[last], addr));
    }
}

/// An address behind that of an image of unknown size belongs to some image, unless another image
/// starts in between.
pub proof fn law_image_of_unknown_size(images: Seq<ImageModel>, k: int, addr: u64)
    requires
        0 <= k < images.len(),
        image_size(images[k]) == 0,
        image_addr(images[k]) <= addr,
        forall|j: int|
            0 <= j < images.len() ==> image_addr(#[trigger] images[j]) <= image_addr(images[k])
                || addr <= image_addr(images[j]),
    ensures
        first_holder(gaps_filled(address_order(images)), addr) < images.len(),
{
    law_address_order(images);
    let order = address_order(images);
    let sorted = gaps_filled(order);
    images.to_multiset_ensures();
    order.to_multiset_ensures();
    assert(images.contains(images[k]));
    assert(order.to_multiset().contains(images[k]));
    assert(order.contains(images[k]));
    let s = choose|s: int| 0 <= s < order.len() && order[s] == images[k];
    if s + 1 < order.len() {
        assert(image_addr(order[s]) <= image_addr(order[s + 1]));
        assert(order.contains(order[s + 1]));
        assert(images.to_multiset().contains(order[s + 1]));
        assert(images.contains(order[s + 1]));
        let j = choose|j: int| 0 <= j < images.len() && images[j] == order[s + 1];
        assert(image_addr(images[j]) <= image_addr(images[k]) || addr <= image_addr(images[j]));
    }
    assert(sorted[s] == image_with_gap(order, s));
    assert(may_hold(sorted[s], addr));
    law_first_holder(sorted, addr);
    if first_holder(sorted, addr) == sorted.len() {
        assert(!may_hold(sorted[s], addr));
    }
}

/// An address below all images is not found.
pub proof fn law_address_below_images(images: Seq<ImageModel>, addr: u64)
    requires
        forall|i: int| 0 <= i < images.len() ==> addr < image_addr(#[trigger] images[i]),
    ensures
        first_holder(images, addr) == images.len(),
{
    lemma_first_holder_unique(images, addr, images.len() as int);
}

impl SymCacheLookup {
    /// The images of a process, in the order of their addresses, those of unknown size taken to
    /// reach up to the next image.
    pub fn from_iter(modules: Vec<CompleteObjectInfo>) -> (r: SymCacheLookup)
        ensures
            r@ == gaps_filled(
                address_order(modules.deep_view().map_values(|info: ObjectModel| (info, None))),
            ),
            r@.len() == modules.len(),
            forall|i: int| 0 <= i < r@.len() ==> (#[trigger] r@[i]).1 is None,
            forall|i: int, j: int|
                #![trigger r@[i], r@[j]]
                0 <= i <= j < r@.len() ==> r@[i].0.raw.image_addr <= r@[j].0.raw.image_addr,
    {
        let ghost all = modules.deep_view();
        let mut inner: Vec<Image> = Vec::new();
        for info in it: modules
            invariant
                all.len() == it.seq().len(),
                forall|i: int| 0 <= i < all.len() ==> #[trigger] all[i] == it.seq()[i].deep_view(),
                inner.len() == it.index(),
                forall|i: int| 0 <= i < inner.len() ==> (#[trigger] inner@[i]).deep_view() == (
                    all[i],
                    None::<SymCacheModel>,
                ),
        {
            inner.push((info, None));
        }
        assert(inner.deep_view() =~= all.map_values(
            |info: ObjectModel| (info, None::<SymCacheModel>),
        ));
        let mut r = SymCacheLookup { inner };
        let ghost unsorted = r@;
        r.sort();
        proof {
            law_sorted_images(unsorted);
            let order = address_order(unsorted);
            assert forall|i: int| 0 <= i < r@.len() implies (#[trigger] r@[i]).1 is None by {
                law_address_order(unsorted);
                order.to_multiset_ensures();
                unsorted.to_multiset_ensures();
                assert(order.contains(order[i]));
                assert(unsorted.to_multiset().contains(order[i]));
                assert(unsorted.contains(order[i]));
            }
            assert forall|i: int, j: int|
                #![trigger r@[i], r@[j]]
                0 <= i <= j < r@.len() implies r@[i].0.raw.image_addr
                <= r@[j].0.raw.image_addr by {
                assert(image_addr(r@[i]) <= image_addr(r@[j]));
            }
        }
        r
    }

    /// The number of images.
    pub fn len(&self) -> (r: usize)
        ensures
            r == self@.len(),
    {
        self.inner.len()
    }

    /// The image at an index, with its symbol cache.
    pub fn get(&self, index: usize) -> (r: (&CompleteObjectInfo, Option<&SymCacheFile>))
        requires
            index < self@.len(),
        ensures
            r.0.deep_view() == self@[index as int].0,
            r.1.deep_view() == self@[index as int].1,
    {
        let image = &self.inner[index];
        let cache: Option<&SymCacheFile> = match &image.1 {
            Some(cache) => Some(&**cache),
            None => None,
        };
        (&image.0, cache)
    }

    /// The images with their symbol caches.
    pub(crate) fn into_images(self) -> (r: Vec<Image>)
        ensures
            r.deep_view() == self@,
    {
        self.inner
    }

    /// The lookup of the given images, in their order.
    pub(crate) fn from_images(images: Vec<Image>) -> (r: SymCacheLookup)
        ensures
            r@ == images.deep_view(),
    {
        SymCacheLookup { inner: images }
    }

    /// The images without their symbol caches.
    pub fn into_modules(self) -> (r: Vec<CompleteObjectInfo>)
        ensures
            r.deep_view() == self@.map_values(|image: ImageModel| image.0),
    {
        let ghost all = self@;
        let mut modules: Vec<CompleteObjectInfo> = Vec::new();
        for image in it: self.inner
            invariant
                all.len() == it.seq().len(),
                forall|i: int| 0 <= i < all.len() ==> #[trigger] all[i] == it.seq()[i].deep_view(),
                modules.len() == it.index(),
                forall|i: int|
                    0 <= i < modules.len() ==> (#[trigger] modules@[i]).deep_view() == all[i].0,
        {
            modules.push(image.0);
        }
        assert(modules.deep_view() =~= all.map_values(|image: ImageModel| image.0));
        modules
    }

    /// Puts the images into the order of their addresses, and takes those of unknown size to reach
    /// up to the next image.
    pub fn sort(&mut self)
        ensures
            final(self)@ == gaps_filled(address_order(old(self)@)),
    {
        let mut rest: Vec<Image> = Vec::new();
        std::mem::swap(&mut rest, &mut self.inner);
        let ghost all = rest.deep_view();
        let mut sorted: Vec<Image> = Vec::new();
        assert(sorted.deep_view() =~= all.skip(rest.len() as int));
        while rest.len() > 0
            invariant
                rest.len() <= all.len(),
                rest.deep_view() == all.take(rest.len() as int),
                stably_sorted(all.skip(rest.len() as int), sorted.deep_view()),
            decreases rest.len(),
        {
            let ghost before = rest.deep_view();
            if let Some(image) = rest.pop() {
                let addr: u64 = image.0.raw.image_addr.0;
                let mut at: usize = 0;
                let ghost done = sorted.deep_view();
                while at < sorted.len() && sorted[at].0.raw.image_addr.0 < addr
                    invariant
                        0 <= at <= sorted.len(),
                        done == sorted.deep_view(),
                        forall|i: int| 0 <= i < at ==> image_addr(#[trigger] done[i]) < addr,
                    decreases sorted.len() - at,
                {
                    at += 1;
                }
                let ghost model = image.deep_view();
                assert forall|i: int| at <= i < done.len() implies addr <= image_addr(
                    #[trigger] done[i],
                ) by {
                    assert(done[at as int] == sorted@[at as int].deep_view());
                    assert(image_addr(done[at as int]) <= image_addr(done[i]));
                }
                sorted.insert(at, image);
                proof {
                    assert(sorted.deep_view() =~= done.insert(at as int, model));
                    lemma_inserted(done, model, at as int);
                    let later = all.skip(before.len() as int);
                    let now = all.skip(rest.len() as int);
                    assert(model == before.last());
                    assert(now =~= seq![model] + later);
                    assert forall|a: u64| #[trigger] images_at(sorted.deep_view(), a) == images_at(
                        now,
                        a,
                    ) by {
                        let here = |image: ImageModel| image_addr(image) == a;
                        Seq::filter_distributes_over_add(seq![model], done, here);
                        Seq::filter_distributes_over_add(seq![model], later, here);
                        assert(images_at(done, a) == images_at(later, a));
                    }
                    assert(rest.deep_view() =~= all.take(rest.len() as int));
                }
            }
        }
        assert(all.skip(0) =~= all);
        let ghost ordered = sorted.deep_view();
        proof {
            law_stable_order_unique(all, ordered, address_order(all));
        }
        let mut i: usize = 0;
        while i + 1 < sorted.len()
            invariant
                ascending(ordered),
                sorted.len() == ordered.len(),
                0 <= i <= sorted.len(),
                sorted.len() > 0 ==> i < sorted.len(),
                forall|j: int|
                    #![trigger sorted@[j]]
                    0 <= j < sorted.len() ==> sorted@[j].deep_view() == (if j < i {
                        image_with_gap(ordered, j)
                    } else {
                        ordered[j]
                    }),
            decreases sorted.len() - i,
        {
            let next: u64 = sorted[i + 1].0.raw.image_addr.0;
            let own: u64 = sorted[i].0.raw.image_addr.0;
            let known: u64 = match sorted[i].0.raw.image_size {
                Some(size) => size,
                None => 0,
            };
            assert(sorted@[i as int].deep_view() == ordered[i as int]);
            assert(sorted@[i as int + 1].deep_view() == ordered[i as int + 1]);
            if known == 0 {
                sorted[i].0.raw.image_size = Some(next - own);
            }
            i += 1;
        }
        self.inner = sorted;
        assert(self@ =~= gaps_filled(ordered));
    }

    /// The first image that may hold an address: its index, its description and its symbol cache.
    pub fn lookup_symcache(&self, addr: u64) -> (r: Option<
        (usize, &CompleteObjectInfo, Option<&SymCacheFile>),
    >)
        ensures
            match r {
                Some((index, info, cache)) => {
                    &&& index == first_holder(self@, addr)
                    &&& index < self@.len()
                    &&& info.deep_view() == self@[index as int].0
                    &&& cache.deep_view() == self@[index as int].1
                    &&& info.raw.image_addr.0 <= addr
                    &&& info.raw.image_size matches Some(size) ==> (size > 0
                        && info.raw.image_addr.0 + size <= u64::MAX ==> addr
                        <= info.raw.image_addr.0 + size)
                },
                None => first_holder(self@, addr) == self@.len(),
            },
    {
        let mut i: usize = 0;
        while i < self.inner.len()
            invariant
                0 <= i <= self.inner.len(),
                forall|j: int| 0 <= j < i ==> !may_hold(#[trigger] self@[j], addr),
            decreases self.inner.len() - i,
        {
            let info = &self.inner[i].0;
            let start_addr: u64 = info.raw.image_addr.0;
            let size: u64 = match info.raw.image_size {
                Some(size) => size,
                None => 0,
            };
            assert(self@[i as int] == self.inner@[i as int].deep_view());
            let starts_below: bool = start_addr <= addr;
            let ends_below: bool = match start_addr.checked_add(size) {
                // The size is only to be relied on where it is not zero.
                Some(end_addr) => end_addr < addr && size != 0,
                None => false,
            };
            if starts_below && !ends_below {
                proof {
                    lemma_first_holder_unique(self@, addr, i as int);
                }
                let cache: Option<&SymCacheFile> = match &self.inner[i].1 {
                    Some(cache) => Some(&**cache),
                    None => None,
                };
                return Some((i, info, cache));
            }
            i += 1;
        }
        proof {
            lemma_first_holder_unique(self@, addr, self@.len() as int);
        }
        None
    }
}

} // verus!
