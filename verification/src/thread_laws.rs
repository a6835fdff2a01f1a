//! What holds of every stack trace after symbolication.

use vstd::prelude::*;

use crate::arch::FrameTrust;
use crate::lookup::{first_holder, law_first_holder, ImageModel};
use crate::symbolize::{failed_frame, frames_for, symbolized_thread};
use crate::types::{FrameModel, FrameStatus, RawFrameModel, RawStacktraceModel};

verus! {

/// Whether a frame stands for the one at `index`.
pub open spec fn stands_for(frame: FrameModel, index: int) -> bool {
    frame.original_index == Some(index as usize)
}

/// Whether an image has a symbol cache with symbols.
pub open spec fn has_symbols(image: ImageModel) -> bool {
    image.1 matches Some(file) && file.contents is Positive
}

/// The frames in place of the one at `index` stand for it and are trusted as it is. There are some,
/// unless it was scanned.
pub proof fn law_frames_for(
    images: Seq<ImageModel>,
    signal: Option<u32>,
    registers: Map<Seq<char>, u64>,
    index: int,
    frame: RawFrameModel,
)
    ensures
        ({
            let frames = frames_for(images, signal, registers, index, frame);
            &&& frames.len() == 0 ==> frame.trust == FrameTrust::Scan
            &&& forall|k: int|
                #![trigger frames[k]]
                0 <= k < frames.len() ==> stands_for(frames[k], index) && frames[k].raw.trust
                    == frame.trust
        }),
{
}

/// A frame that no image holds cannot be symbolicated: it is kept as it was, unless it was scanned.
pub proof fn law_uncovered_frame(
    images: Seq<ImageModel>,
    signal: Option<u32>,
    registers: Map<Seq<char>, u64>,
    index: int,
    frame: RawFrameModel,
)
    requires
        first_holder(images, frame.instruction_addr) == images.len(),
    ensures
        frames_for(images, signal, registers, index, frame) == (if frame.trust
            == FrameTrust::Scan {
            Seq::empty()
        } else {
            seq![failed_frame(index as usize, frame, FrameStatus::UnknownImage)]
        }),
{
}

/// A frame whose image has no symbol cache with symbols is not symbolicated: it is kept, at its
/// address, with the file of its image.
pub proof fn law_no_symbols(
    images: Seq<ImageModel>,
    signal: Option<u32>,
    registers: Map<Seq<char>, u64>,
    index: int,
    frame: RawFrameModel,
)
    requires
        first_holder(images, frame.instruction_addr) < images.len(),
        !has_symbols(images[first_holder(images, frame.instruction_addr)]),
    ensures
        ({
            let info = images[first_holder(images, frame.instruction_addr)].0;
            let kept = RawFrameModel { package: info.raw.code_file, ..frame };
            let frames = frames_for(images, signal, registers, index, frame);
            ||| frames == seq![failed_frame(index as usize, kept, FrameStatus::Missing)]
            ||| frames == seq![failed_frame(index as usize, kept, FrameStatus::Malformed)]
        }),
{
    law_first_holder(images, frame.instruction_addr);
}

/// The frames in place of each frame of a stack trace.
spec fn parts(
    thread: RawStacktraceModel,
    images: Seq<ImageModel>,
    signal: Option<u32>,
) -> Seq<Seq<FrameModel>> {
    Seq::new(
        thread.frames.len(),
        |i: int| frames_for(images, signal, thread.registers, i, thread.frames[i]),
    )
}

/// What holds of the frames in place of the first `n` frames of a stack trace.
proof fn lemma_prefix(
    thread: RawStacktraceModel,
    images: Seq<ImageModel>,
    signal: Option<u32>,
    n: int,
)
    requires
        0 <= n <= thread.frames.len() <= usize::MAX,
    ensures
        ({
            let frames = parts(thread, images, signal).take(n).flatten();
            &&& forall|k: int|
                #![trigger frames[k]]
                0 <= k < frames.len() ==> {
                    &&& frames[k].original_index is Some
                    &&& frames[k].original_index->0 < n
                    &&& frames[k].raw.trust == thread.frames[frames[k].original_index->0 as int].trust
                }
            &&& forall|k: int, l: int|
                #![trigger frames[k], frames[l]]
                0 <= k <= l < frames.len() ==> frames[k].original_index->0
                    <= frames[l].original_index->0
            &&& forall|i: int|
                #![trigger thread.frames[i]]
                0 <= i < n && thread.frames[i].trust != FrameTrust::Scan ==> exists|k: int|
                    0 <= k < frames.len() && stands_for(#[trigger] frames[k], i)
        }),
    decreases n,
{
    let all = parts(thread, images, signal);
    if n == 0 {
        assert(all.take(0) =~= Seq::empty());
        assert(all.take(0).flatten() =~= Seq::empty());
    } else {
        let last = n - 1;
        lemma_prefix(thread, images, signal, last);
        law_frames_for(images, signal, thread.registers, last, thread.frames[last]);
        assert(all.take(n) =~= all.take(last).push(all[last]));
        all.take(last).lemma_flatten_push(all[last]);
        let before = all.take(last).flatten();
        let frames = all.take(n).flatten();
        assert(frames =~= before + all[last]);
        assert forall|k: int|
            #![trigger frames[k]]
            0 <= k < frames.len() implies {
            &&& frames[k].original_index is Some
            &&& frames[k].original_index->0 < n
            &&& frames[k].raw.trust == thread.frames[frames[k].original_index->0 as int].trust
        } by {
            if k < before.len() {
                assert(frames[k] == before[k]);
            } else {
                assert(frames[k] == all[last][k - before.len()]);
            }
        }
        assert forall|k: int, l: int|
            #![trigger frames[k], frames[l]]
            0 <= k <= l < frames.len() implies frames[k].original_index->0
            <= frames[l].original_index->0 by {
            if l < before.len() {
                assert(frames[k] == before[k] && frames[l] == before[l]);
            } else {
                assert(frames[l] == all[last][l - before.len()]);
                assert(frames[l].original_index == Some(last as usize));
                assert(frames[k].original_index->0 < n);
            }
        }
        assert forall|i: int|
            #![trigger thread.frames[i]]
            0 <= i < n && thread.frames[i].trust != FrameTrust::Scan implies exists|k: int|
            0 <= k < frames.len() && stands_for(#[trigger] frames[k], i) by {
            if i < last {
                let k = choose|k: int|
                    0 <= k < before.len() && stands_for(#[trigger] before[k], i);
                assert(frames[k] == before[k]);
            } else {
                assert(all[last].len() > 0);
                assert(frames[before.len() as int] == all[last][0]);
                assert(stands_for(frames[before.len() as int], i));
            }
        }
    }
}

/// Each frame of a stack trace after symbolication stands for a frame of the stack trace before, in
/// the same order, and is trusted as it is. No frame is lost but a scanned one.
pub proof fn law_thread_frames(
    thread: RawStacktraceModel,
    images: Seq<ImageModel>,
    signal: Option<u32>,
)
    requires
        thread.frames.len() <= usize::MAX,
    ensures
        ({
            let frames = symbolized_thread(thread, images, signal).frames;
            &&& forall|k: int|
                #![trigger frames[k]]
                0 <= k < frames.len() ==> {
                    &&& frames[k].original_index is Some
                    &&& frames[k].original_index->0 < thread.frames.len()
                    &&& frames[k].raw.trust == thread.frames[frames[k].original_index->0 as int].trust
                }
            &&& forall|k: int, l: int|
                #![trigger frames[k], frames[l]]
                0 <= k <= l < frames.len() ==> frames[k].original_index->0
                    <= frames[l].original_index->0
            &&& forall|i: int|
                #![trigger thread.frames[i]]
                0 <= i < thread.frames.len() && thread.frames[i].trust != FrameTrust::Scan
                    ==> exists|k: int|
                    0 <= k < frames.len() && stands_for(#[trigger] frames[k], i)
        }),
{
    let all = parts(thread, images, signal);
    lemma_prefix(thread, images, signal, thread.frames.len() as int);
    assert(all.take(all.len() as int) =~= all);
    assert(symbolized_thread(thread, images, signal).frames == all.flatten());
}

/// The frames in place of the first `k` frames come first, and those behind them stand for others.
proof fn lemma_cut(
    thread: RawStacktraceModel,
    images: Seq<ImageModel>,
    signal: Option<u32>,
    k: int,
    n: int,
)
    requires
        0 <= k <= n <= thread.frames.len() <= usize::MAX,
    ensures
        ({
            let first = parts(thread, images, signal).take(k).flatten();
            let frames = parts(thread, images, signal).take(n).flatten();
            &&& first.is_prefix_of(frames)
            &&& forall|i: int|
                #![trigger frames[i]]
                first.len() <= i < frames.len() ==> frames[i].original_index->0 >= k
        }),
    decreases n,
{
    let all = parts(thread, images, signal);
    if k < n {
        let last = n - 1;
        lemma_cut(thread, images, signal, k, last);
        law_frames_for(images, signal, thread.registers, last, thread.frames[last]);
        assert(all.take(n) =~= all.take(last).push(all[last]));
        all.take(last).lemma_flatten_push(all[last]);
        let first = all.take(k).flatten();
        let before = all.take(last).flatten();
        let frames = all.take(n).flatten();
        assert(frames =~= before + all[last]);
        assert(frames.take(first.len() as int) =~= before.take(first.len() as int));
        assert forall|i: int|
            #![trigger frames[i]]
            first.len() <= i < frames.len() implies frames[i].original_index->0 >= k by {
            if i < before.len() {
                assert(frames[i] == before[i]);
            } else {
                assert(frames[i] == all[last][i - before.len()]);
                assert(stands_for(frames[i], last));
            }
        }
    }
}

/// Symbolicating the first `k` frames of a stack trace gives what symbolicating all of them gives in
/// place of the first `k`, at its start.
pub proof fn law_first_frames(
    thread: RawStacktraceModel,
    images: Seq<ImageModel>,
    signal: Option<u32>,
    k: int,
)
    requires
        0 <= k <= thread.frames.len() <= usize::MAX,
    ensures
        ({
            let start = RawStacktraceModel { frames: thread.frames.take(k), ..thread };
            let first = symbolized_thread(start, images, signal).frames;
            let frames = symbolized_thread(thread, images, signal).frames;
            &&& first.is_prefix_of(frames)
            &&& forall|i: int|
                #![trigger frames[i]]
                0 <= i < frames.len() ==> (i < first.len() <==> frames[i].original_index->0 < k)
        }),
{
    let start = RawStacktraceModel { frames: thread.frames.take(k), ..thread };
    let all = parts(thread, images, signal);
    let n = thread.frames.len() as int;
    assert(parts(start, images, signal) =~= all.take(k));
    assert(all.take(n) =~= all);
    lemma_cut(thread, images, signal, k, n);
    lemma_prefix(thread, images, signal, k);
    let first = all.take(k).flatten();
    let frames = all.flatten();
    assert(symbolized_thread(start, images, signal).frames == first);
    assert(symbolized_thread(thread, images, signal).frames == frames);
    assert forall|i: int|
        #![trigger frames[i]]
        0 <= i < frames.len() implies (i < first.len() <==> frames[i].original_index->0 < k) by {
        if i < first.len() {
            assert(frames[i] == first[i]);
        }
    }
}

/// The signal and the registers matter for the first frame alone: what stands in place of another
/// frame is the same with any others.
pub proof fn law_later_frame(
    images: Seq<ImageModel>,
    signal: Option<u32>,
    registers: Map<Seq<char>, u64>,
    other_signal: Option<u32>,
    other_registers: Map<Seq<char>, u64>,
    index: int,
    frame: RawFrameModel,
)
    requires
        0 < index <= usize::MAX,
    ensures
        frames_for(images, signal, registers, index, frame) == frames_for(
            images,
            other_signal,
            other_registers,
            index,
            frame,
        ),
{
}

/// The frames in place of the first frame of a stack trace come first.
proof fn lemma_first_part(thread: RawStacktraceModel, images: Seq<ImageModel>, signal: Option<u32>)
    requires
        thread.frames.len() > 0,
    ensures
        symbolized_thread(thread, images, signal).frames == frames_for(
            images,
            signal,
            thread.registers,
            0,
            thread.frames[0],
        ) + parts(thread, images, signal).skip(1).flatten(),
{
    let all = parts(thread, images, signal);
    assert(all.drop_first() =~= all.skip(1));
    assert(all.first() == frames_for(images, signal, thread.registers, 0, thread.frames[0]));
}

/// With another signal and other registers, only what stands in place of the first frame of a stack
/// trace changes.
pub proof fn law_later_frames(
    thread: RawStacktraceModel,
    images: Seq<ImageModel>,
    signal: Option<u32>,
    other_signal: Option<u32>,
    other_registers: Map<Seq<char>, u64>,
)
    requires
        0 < thread.frames.len() <= usize::MAX,
    ensures
        ({
            let other = RawStacktraceModel { registers: other_registers, ..thread };
            let frames = symbolized_thread(thread, images, signal).frames;
            let other_frames = symbolized_thread(other, images, other_signal).frames;
            let first = frames_for(images, signal, thread.registers, 0, thread.frames[0]);
            let other_first = frames_for(
                images,
                other_signal,
                other_registers,
                0,
                thread.frames[0],
            );
            &&& first.is_prefix_of(frames)
            &&& other_first.is_prefix_of(other_frames)
            &&& frames.skip(first.len() as int) == other_frames.skip(other_first.len() as int)
        }),
{
    let other = RawStacktraceModel { registers: other_registers, ..thread };
    let all = parts(thread, images, signal);
    let others = parts(other, images, other_signal);
    lemma_first_part(thread, images, signal);
    lemma_first_part(other, images, other_signal);
    assert forall|i: int| 0 < i < all.len() implies all[i] == #[trigger] others[i] by {
        law_later_frame(
            images,
            signal,
            thread.registers,
            other_signal,
            other_registers,
            i,
            thread.frames[i],
        );
    }
    assert(all.skip(1) =~= others.skip(1));
    let frames = symbolized_thread(thread, images, signal).frames;
    let other_frames = symbolized_thread(other, images, other_signal).frames;
    let first = frames_for(images, signal, thread.registers, 0, thread.frames[0]);
    let other_first = frames_for(images, other_signal, other_registers, 0, thread.frames[0]);
    let rest = all.skip(1).flatten();
    assert(frames.skip(first.len() as int) =~= rest);
    assert(other_frames.skip(other_first.len() as int) =~= rest);
    assert(frames.take(first.len() as int) =~= first);
    assert(other_frames.take(other_first.len() as int) =~= other_first);
}

} // verus!
