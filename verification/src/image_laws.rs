//! What holds of the images of a request: which one an address belongs to, what is fetched for each,
//! and what is found out about it.

use vstd::prelude::*;

use crate::arch::Arch;
use crate::fetch::{all_examined, examined, outcome_model, symcaches_to_fetch, SymCacheOutcome};
use crate::lookup::{
    address_order, first_holder, gaps_filled, images_at, law_address_order, law_first_holder,
    may_hold, ImageModel,
};
use crate::object_id::{
    canonical_debug_id, hex_digits_of, hex_text, hyphenated, is_hex_digit, lower_hex_digit,
    object_id,
};
use crate::symcache::{symcache_arch_code, CacheErrorKind, ContentsModel, SymCacheModel};
use crate::types::{unexamined, ObjectFileStatus, ObjectModel, RawObjectModel, RequestModel};

verus! {

/// The image that an address belongs to starts at or below it and, where its size is known, ends at
/// or behind it. Each image before it starts above the address or ends below it, and so does every
/// image where the address belongs to none.
pub proof fn law_holder_covers_address(images: Seq<ImageModel>, addr: u64)
    ensures
        ({
            let holder = first_holder(images, addr);
            &&& 0 <= holder <= images.len()
            &&& holder < images.len() ==> {
                let raw = images[holder].0.raw;
                &&& raw.image_addr <= addr
                &&& raw.image_size matches Some(size) ==> (size > 0 && raw.image_addr + size
                    <= u64::MAX ==> addr <= raw.image_addr + size)
            }
            &&& forall|i: int|
                #![trigger images[i]]
                0 <= i < holder ==> {
                    let raw = images[i].0.raw;
                    ||| addr < raw.image_addr
                    ||| raw.image_size matches Some(size) && size > 0 && raw.image_addr + size
                        < addr
                }
        }),
{
    law_first_holder(images, addr);
    let holder = first_holder(images, addr);
    assert forall|i: int| #![trigger images[i]] 0 <= i < holder implies ({
        let raw = images[i].0.raw;
        ||| addr < raw.image_addr
        ||| raw.image_size matches Some(size) && size > 0 && raw.image_addr + size < addr
    }) by {
        assert(!may_hold(images[i], addr));
    }
}

/// Sorting puts the images into the order of their addresses. None is lost or added, and those at the
/// same address stay in their order.
pub proof fn law_images_in_order(images: Seq<ImageModel>, addr: u64)
    ensures
        ({
            let order = address_order(images);
            &&& order.len() == images.len()
            &&& order.to_multiset() == images.to_multiset()
            &&& forall|i: int, j: int|
                #![trigger order[i], order[j]]
                0 <= i <= j < order.len() ==> order[i].0.raw.image_addr
                    <= order[j].0.raw.image_addr
            &&& order.filter(|image: ImageModel| image.0.raw.image_addr == addr) == images.filter(
                |image: ImageModel| image.0.raw.image_addr == addr,
            )
        }),
{
    law_address_order(images);
    let order = address_order(images);
    assert(images_at(order, addr) == images_at(images, addr));
    let here = |image: ImageModel| image.0.raw.image_addr == addr;
    let at = |image: ImageModel| crate::lookup::image_addr(image) == addr;
    assert(here =~= at);
}

/// An image of unknown size is taken to reach up to the next one. Nothing else of any image changes,
/// and neither does the last one.
pub proof fn law_gaps(images: Seq<ImageModel>, i: int)
    requires
        0 <= i < images.len(),
        i + 1 < images.len() ==> images[i].0.raw.image_addr <= images[i + 1].0.raw.image_addr,
    ensures
        ({
            let image = gaps_filled(images)[i];
            let size = image.0.raw.image_size;
            let is_known = images[i].0.raw.image_size matches Some(size) && size > 0;
            &&& gaps_filled(images).len() == images.len()
            &&& image.1 == images[i].1
            &&& image.0.debug_status == images[i].0.debug_status
            &&& image.0.unwind_status == images[i].0.unwind_status
            &&& image.0.arch == images[i].0.arch
            &&& image.0.raw == (RawObjectModel { image_size: size, ..images[i].0.raw })
            &&& is_known || i + 1 == images.len() ==> size == images[i].0.raw.image_size
            &&& !is_known && i + 1 < images.len() ==> (size matches Some(size)
                && images[i].0.raw.image_addr + size == images[i + 1].0.raw.image_addr)
        }),
{
}

/// The symbol cache of an image is fetched exactly where a frame belongs to the image. It is searched
/// by what the request says of the image, where the request says.
pub proof fn law_symcache_fetch(images: Seq<ImageModel>, request: RequestModel, i: int)
    requires
        0 <= i < images.len(),
    ensures
        ({
            let fetches = symcaches_to_fetch(images, request);
            let raw = images[i].0.raw;
            &&& fetches.len() == images.len()
            &&& fetches[i] is Some <==> exists|t: int, f: int|
                #![trigger request.stacktraces[t].frames[f]]
                0 <= t < request.stacktraces.len() && 0 <= f
                    < request.stacktraces[t].frames.len() && first_holder(
                    images,
                    request.stacktraces[t].frames[f].instruction_addr,
                ) == i
            &&& fetches[i] matches Some(fetch) ==> {
                &&& fetch.object_type == raw.ty
                &&& fetch.identifier.code_file == raw.code_file
                &&& fetch.identifier.debug_file == raw.debug_file
                &&& fetch.sources == request.sources
                &&& fetch.scope == request.scope
                &&& fetch.identifier == object_id(raw)
            }
        }),
{
    let stacktraces = request.stacktraces;
    if exists|t: int, f: int|
        #![trigger stacktraces[t].frames[f]]
        0 <= t < stacktraces.len() && 0 <= f < stacktraces[t].frames.len() && first_holder(
            images,
            stacktraces[t].frames[f].instruction_addr,
        ) == i {
        let (t, f) = choose|t: int, f: int|
            #![trigger stacktraces[t].frames[f]]
            0 <= t < stacktraces.len() && 0 <= f < stacktraces[t].frames.len() && first_holder(
                images,
                stacktraces[t].frames[f].instruction_addr,
            ) == i;
        assert(crate::fetch::refers_to(images, stacktraces, t, f, i));
    }
    if crate::fetch::is_referenced(images, stacktraces, i) {
        let (t, f) = choose|t: int, f: int| #[trigger]
            crate::fetch::refers_to(images, stacktraces, t, f, i);
        assert(first_holder(images, stacktraces[t].frames[f].instruction_addr) == i);
    }
}

/// An object file is searched by its names as they are, by the hexadecimal digits of its code
/// identifier, and by its debug identifier where that can be read.
pub proof fn law_object_id(raw: RawObjectModel)
    ensures
        object_id(raw).code_file == raw.code_file,
        object_id(raw).debug_file == raw.debug_file,
        raw.code_id is None ==> object_id(raw).code_id is None,
        raw.code_id matches Some(text) ==> object_id(raw).code_id == Some(hex_digits_of(text)),
        raw.debug_id is None ==> object_id(raw).debug_id is None,
        raw.debug_id matches Some(text) ==> object_id(raw).debug_id == canonical_debug_id(text),
{
}

/// Of a text only the hexadecimal digits are kept, in their order and in lower case.
pub proof fn law_hex_digits_of(text: Seq<char>, c: char)
    ensures
        hex_digits_of(Seq::empty()).len() == 0,
        48 <= c as int <= 57 || 97 <= c as int <= 102 ==> hex_digits_of(text.push(c))
            == hex_digits_of(text).push(c),
        65 <= c as int <= 70 ==> {
            &&& hex_digits_of(text.push(c)).len() == hex_digits_of(text).len() + 1
            &&& hex_digits_of(text).is_prefix_of(hex_digits_of(text.push(c)))
            &&& hex_digits_of(text.push(c)).last() as int == c as int + 32
        },
        !(48 <= c as int <= 57 || 97 <= c as int <= 102 || 65 <= c as int <= 70) ==> hex_digits_of(
            text.push(c),
        ) == hex_digits_of(text),
{
    let digits = |c: char| is_hex_digit(c);
    let none = Seq::<char>::empty();
    reveal(Seq::filter);
    assert(none.filter(digits) =~= none);
    assert(text.push(c).drop_last() =~= text);
    assert(text.push(c).last() == c);
    let before = hex_digits_of(text);
    let after = hex_digits_of(text.push(c));
    if is_hex_digit(c) {
        assert(text.push(c).filter(digits) == text.filter(digits).push(c));
        assert(after =~= before.push(lower_hex_digit(c)));
        assert(after.take(before.len() as int) =~= before);
    } else {
        assert(text.push(c).filter(digits) == text.filter(digits));
    }
}

/// Bytes are written with two digits each, the higher one first, in lower case.
pub proof fn law_hex_text(bytes: Seq<u8>, i: int)
    requires
        0 <= i < bytes.len(),
    ensures
        ({
            let text = hex_text(bytes);
            let high = text[2 * i] as int;
            let low = text[2 * i + 1] as int;
            &&& text.len() == 2 * bytes.len()
            &&& 48 <= high <= 57 || 97 <= high <= 102
            &&& 48 <= low <= 57 || 97 <= low <= 102
            &&& bytes[i] == 16 * (if high <= 57 {
                high - 48
            } else {
                high - 87
            }) + (if low <= 57 {
                low - 48
            } else {
                low - 87
            })
        }),
{
    let text = hex_text(bytes);
    assert((2 * i) / 2 == i && (2 * i + 1) / 2 == i);
    assert((2 * i) % 2 == 0 && (2 * i + 1) % 2 == 1);
}

/// The digits of a UUID stand in their order, in groups of 8, 4, 4, 4 and 12, with hyphens between
/// them.
pub proof fn law_hyphenated(digits: Seq<char>, k: int)
    requires
        digits.len() == 32,
        0 <= k < 32,
    ensures
        ({
            let text = hyphenated(digits);
            &&& text.len() == 36
            &&& text[8] == '-' && text[13] == '-' && text[18] == '-' && text[23] == '-'
            &&& k < 8 ==> text[k] == digits[k]
            &&& 8 <= k < 12 ==> text[k + 1] == digits[k]
            &&& 12 <= k < 16 ==> text[k + 2] == digits[k]
            &&& 16 <= k < 20 ==> text[k + 3] == digits[k]
            &&& 20 <= k ==> text[k + 4] == digits[k]
        }),
{
}

/// What the request says of an image never changes, and neither does what became of its unwind
/// information.
pub proof fn law_examined_image(info: ObjectModel, outcome: SymCacheOutcome)
    ensures
        examined(info, outcome_model(outcome)).0.raw == info.raw,
        examined(info, outcome_model(outcome)).0.unwind_status == info.unwind_status,
{
}

/// An image whose symbol cache was fetched has the cache and its architecture where the debug file
/// was found, and also where there is none. A cache that cannot be read is not kept, and the
/// architecture is then not known.
pub proof fn law_fetched_symcache(info: ObjectModel, file: SymCacheModel)
    ensures
        ({
            let image = examined(info, Some(Ok(file)));
            &&& file.contents is Negative ==> image.0.debug_status == ObjectFileStatus::Missing
                && image.1 == Some(file) && image.0.arch == file.arch
            &&& file.contents is Malformed ==> image.0.debug_status == ObjectFileStatus::Malformed
                && image.1 is None && image.0.arch == Arch::Unknown
            &&& file.contents matches ContentsModel::Positive(data) ==> {
                &&& symcache_arch_code(data) is Some ==> image.0.debug_status
                    == ObjectFileStatus::Found && image.1 == Some(file) && image.0.arch == file.arch
                &&& symcache_arch_code(data) is None ==> image.0.debug_status
                    == ObjectFileStatus::Other && image.1 is None && image.0.arch == Arch::Unknown
            }
        }),
{
}

/// An image whose symbol cache could not be fetched says why. One for which none was fetched was not
/// used.
pub proof fn law_missing_symcache(info: ObjectModel, kind: CacheErrorKind)
    ensures
        ({
            let image = examined(info, Some(Err(kind)));
            &&& image.1 is None
            &&& image.0.arch == Arch::Unknown
            &&& kind is Fetching ==> image.0.debug_status == ObjectFileStatus::FetchingFailed
            &&& kind is Timeout ==> image.0.debug_status == ObjectFileStatus::Timeout
            &&& kind is ObjectParsing ==> image.0.debug_status == ObjectFileStatus::Malformed
            &&& kind is Other ==> image.0.debug_status == ObjectFileStatus::Other
        }),
        examined(info, None).0.debug_status == ObjectFileStatus::Unused,
        examined(info, None).0.arch == info.arch,
        examined(info, None).1 is None,
{
}

/// Each image is examined with the outcome in its place, and stays in its place.
pub proof fn law_images_examined(
    images: Seq<ImageModel>,
    outcomes: Seq<SymCacheOutcome>,
    i: int,
)
    requires
        0 <= i < images.len() == outcomes.len(),
    ensures
        all_examined(images, outcomes).len() == images.len(),
        all_examined(images, outcomes)[i].0.raw == images[i].0.raw,
        outcomes[i] is None ==> all_examined(images, outcomes)[i] == examined(images[i].0, None),
        outcomes[i] matches Some(Err(kind)) ==> all_examined(images, outcomes)[i] == examined(
            images[i].0,
            Some(Err(kind)),
        ),
        outcomes[i] matches Some(Ok(file)) ==> all_examined(images, outcomes)[i] == examined(
            images[i].0,
            Some(Ok(file.deep_view())),
        ),
{
}

/// Of an object of which only the request is known nothing was found out.
pub proof fn law_unexamined(raw: RawObjectModel)
    ensures
        unexamined(raw).raw == raw,
        unexamined(raw).debug_status == ObjectFileStatus::Unused,
        unexamined(raw).unwind_status is None,
        unexamined(raw).arch == Arch::Unknown,
{
}

} // verus!
