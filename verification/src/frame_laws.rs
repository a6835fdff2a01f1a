//! What holds of each frame that is symbolicated.

use vstd::prelude::*;

use crate::arch::{Arch, CpuFamily, FrameTrust, Language};
use crate::demangle::{readable_name, DemangleFormat};
use crate::lookup::{first_holder, law_first_holder, ImageModel};
use crate::symbolize::{
    frame_fits, frame_site, frames_for, frames_of_lines, kept_frames, symbolicated,
    symbolicated_frame, symbolized_thread, thread_fits, threads_fit, with_package,
};
use crate::symcache::{
    inlined_behind_parents, joined_path, law_sound_cache_can_be_looked_up, parsed_symcache,
    symcache_arch_code, symcache_lines, CacheErrorKind, ContentsModel, LineModel, SymCacheModel,
};
use crate::types::{
    FrameModel, FrameStatus, ObjectFileStatus, ObjectModel, RawFrameModel, RawStacktraceModel,
};

verus! {

/// All frames but the first are looked up at their call: where the instruction before the return
/// address starts, and on MIPS the one before that. Neither the signal nor the registers matter.
pub proof fn law_caller_site(
    arch: Arch,
    addr: u64,
    index: int,
    other: int,
    signal: Option<u32>,
    other_signal: Option<u32>,
    registers: Map<Seq<char>, u64>,
    other_registers: Map<Seq<char>, u64>,
)
    requires
        index > 0,
        other > 0,
    ensures
        frame_site(arch, addr, index, signal, registers) == (match arch.family() {
            CpuFamily::Intel32 | CpuFamily::Amd64 | CpuFamily::Unknown => addr - 1,
            CpuFamily::Arm32 => addr / 2 * 2 - 2,
            CpuFamily::Arm64 | CpuFamily::Arm64_32 | CpuFamily::Ppc32 => addr / 4 * 4 - 4,
            CpuFamily::Mips32 | CpuFamily::Mips64 => addr / 4 * 4 - 8,
            CpuFamily::Ppc64 => addr / 8 * 8 - 8,
        }),
        frame_site(arch, addr, index, signal, registers) == frame_site(
            arch,
            addr,
            other,
            other_signal,
            other_registers,
        ),
{
}

/// The first frame is looked up at its own address, unless one of the signals 4, 10 and 11 was
/// raised and the register of the instruction pointer says another address. It is then looked up as
/// a caller is.
pub proof fn law_first_site(
    arch: Arch,
    addr: u64,
    signal: Option<u32>,
    registers: Map<Seq<char>, u64>,
    name: Seq<char>,
)
    requires
        name == (match arch.family() {
            CpuFamily::Intel32 => "eip"@,
            CpuFamily::Amd64 => "rip"@,
            CpuFamily::Ppc32 | CpuFamily::Ppc64 => "srr0"@,
            _ => "pc"@,
        }),
    ensures
        ({
            let site = frame_site(arch, addr, 0, signal, registers);
            let handled = arch.family() != CpuFamily::Unknown && registers.contains_key(name)
                && registers[name] != addr && (signal == Some(4u32) || signal == Some(10u32)
                || signal == Some(11u32));
            &&& handled ==> site == frame_site(arch, addr, 1, None, Map::empty())
            &&& !handled ==> site == (match arch.family() {
                CpuFamily::Intel32 | CpuFamily::Amd64 | CpuFamily::Unknown => addr as int,
                CpuFamily::Arm32 => addr / 2 * 2,
                CpuFamily::Arm64 | CpuFamily::Arm64_32 | CpuFamily::Ppc32 => addr / 4 * 4,
                CpuFamily::Mips32 | CpuFamily::Mips64 => addr / 4 * 4,
                CpuFamily::Ppc64 => addr / 8 * 8,
            })
        }),
{
}

/// Each line that was found gives a frame, in the order of the lines: the innermost function first.
/// The frame says the line, the symbol and the file of its line, and its addresses are those of the
/// line in the process. It stands for the frame that was looked up, and is trusted as that is.
pub proof fn law_line_frames(
    info: ObjectModel,
    index: usize,
    trust: FrameTrust,
    lines: Seq<LineModel>,
)
    requires
        lines.len() > 0,
        forall|k: int|
            0 <= k < lines.len() ==> info.raw.image_addr + (
            #[trigger] lines[k]).function_address <= u64::MAX && info.raw.image_addr
                + lines[k].instruction_address <= u64::MAX,
    ensures
        frames_of_lines(info, index, trust, Some(lines)) matches Ok(frames) && {
            &&& frames.len() == lines.len()
            &&& forall|k: int|
                #![trigger frames[k]]
                #![trigger lines[k]]
                0 <= k < lines.len() ==> {
                    &&& frames[k].status == FrameStatus::Symbolicated
                    &&& frames[k].original_index == Some(index)
                    &&& frames[k].symbol == Some(lines[k].symbol)
                    &&& frames[k].lineno == Some(lines[k].line)
                    &&& frames[k].sym_addr matches Some(addr) && addr == info.raw.image_addr
                        + lines[k].function_address
                    &&& frames[k].raw.instruction_addr == info.raw.image_addr
                        + lines[k].instruction_address
                    &&& frames[k].raw.package == info.raw.code_file
                    &&& frames[k].raw.trust == trust
                    &&& frames[k].function == Some(
                        readable_name(
                            lines[k].symbol,
                            lines[k].language,
                            true,
                            DemangleFormat::Short,
                        ),
                    )
                }
        },
{
    assert forall|k: int| #![trigger lines[k]] 0 <= k < lines.len() implies info.raw.image_addr
        + lines[k].function_address <= u64::MAX && info.raw.image_addr
        + lines[k].instruction_address <= u64::MAX by {}
}

/// The path of a frame is that of its source file in the compilation directory. Where that is the
/// path of the source file itself, the file is named by its name, and otherwise by its path. What is
/// empty is left out, and so is a language that is not known.
pub proof fn law_line_files(
    info: ObjectModel,
    index: usize,
    trust: FrameTrust,
    lines: Seq<LineModel>,
    k: int,
)
    requires
        0 <= k < lines.len(),
    ensures
        frames_of_lines(info, index, trust, Some(lines)) matches Ok(frames) && {
            let path = joined_path(lines[k].compilation_dir, lines[k].path);
            &&& path.len() > 0 ==> frames[k].abs_path == Some(path)
            &&& path.len() == 0 ==> frames[k].abs_path is None
            &&& path == lines[k].path && lines[k].filename.len() > 0 ==> frames[k].filename == Some(
                lines[k].filename,
            )
            &&& path == lines[k].path && lines[k].filename.len() == 0 ==> frames[k].filename is None
            &&& path != lines[k].path && lines[k].path.len() > 0 ==> frames[k].filename == Some(
                lines[k].path,
            )
            &&& path != lines[k].path && lines[k].path.len() == 0 ==> frames[k].filename is None
            &&& 1 <= lines[k].language <= 8 ==> (frames[k].lang matches Some(language)
                && language.spec_code() == lines[k].language)
            &&& lines[k].language == 0 || lines[k].language > 8 ==> frames[k].lang is None
        },
{
    crate::arch::law_language_codes(Language::Unknown, lines[k].language);
}

/// Where no line is found the symbol is missing, and where the cache cannot be searched it is
/// malformed.
pub proof fn law_no_lines(info: ObjectModel, index: usize, trust: FrameTrust)
    ensures
        frames_of_lines(info, index, trust, Some(Seq::empty())) == Err::<
            Seq<FrameModel>,
            FrameStatus,
        >(FrameStatus::MissingSymbol),
        frames_of_lines(info, index, trust, None) == Err::<Seq<FrameModel>, FrameStatus>(
            FrameStatus::Malformed,
        ),
{
}

/// A frame is looked up in the cache of its image, at the address of its instruction within the
/// image. Where that lies before the image, the symbol is missing.
pub proof fn law_frame_in_image(
    images: Seq<ImageModel>,
    signal: Option<u32>,
    registers: Map<Seq<char>, u64>,
    index: usize,
    frame: RawFrameModel,
    data: Seq<u8>,
    arch: Arch,
)
    requires
        first_holder(images, frame.instruction_addr) < images.len(),
        images[first_holder(images, frame.instruction_addr)].1 matches Some(file) && file.contents
            == ContentsModel::Positive(data),
        symcache_arch_code(data) == Some(arch.spec_code()),
    ensures
        ({
            let info = images[first_holder(images, frame.instruction_addr)].0;
            let site = frame_site(arch, frame.instruction_addr, index as int, signal, registers);
            let outcome = symbolicated_frame(images, signal, registers, index, frame);
            &&& site < info.raw.image_addr ==> outcome == Err::<Seq<FrameModel>, FrameStatus>(
                FrameStatus::MissingSymbol,
            )
            &&& site >= info.raw.image_addr ==> outcome == frames_of_lines(
                info,
                index,
                frame.trust,
                symcache_lines(data, (site - info.raw.image_addr) as u64),
            )
        }),
{
    law_first_holder(images, frame.instruction_addr);
    arch.law_code_round_trip();
}

/// A frame whose image has no symbols says why: no image holds it, its debug file was not found, or
/// that could not be read.
pub proof fn law_frame_without_symbols(
    images: Seq<ImageModel>,
    signal: Option<u32>,
    registers: Map<Seq<char>, u64>,
    index: usize,
    frame: RawFrameModel,
)
    ensures
        ({
            let holder = first_holder(images, frame.instruction_addr);
            let outcome = symbolicated_frame(images, signal, registers, index, frame);
            &&& holder == images.len() ==> outcome == Err::<Seq<FrameModel>, FrameStatus>(
                FrameStatus::UnknownImage,
            )
            &&& holder < images.len() ==> match images[holder].1 {
                Some(file) => {
                    &&& file.contents is Negative ==> outcome == Err::<
                        Seq<FrameModel>,
                        FrameStatus,
                    >(FrameStatus::Missing)
                    &&& file.contents is Malformed ==> outcome == Err::<
                        Seq<FrameModel>,
                        FrameStatus,
                    >(FrameStatus::Malformed)
                    &&& file.contents matches ContentsModel::Positive(data) ==> (
                    symcache_arch_code(data) is None ==> outcome == Err::<
                        Seq<FrameModel>,
                        FrameStatus,
                    >(FrameStatus::Malformed))
                },
                None => outcome == Err::<Seq<FrameModel>, FrameStatus>(
                    if images[holder].0.debug_status == ObjectFileStatus::Malformed {
                        FrameStatus::Malformed
                    } else {
                        FrameStatus::Missing
                    },
                ),
            }
        }),
{
    law_first_holder(images, frame.instruction_addr);
}

/// A frame belongs to the file of its image. Its address and its trust stay as they are, and where no
/// image holds it so does its file.
pub proof fn law_package(images: Seq<ImageModel>, frame: RawFrameModel)
    ensures
        with_package(images, frame).instruction_addr == frame.instruction_addr,
        with_package(images, frame).trust == frame.trust,
        first_holder(images, frame.instruction_addr) < images.len() ==> with_package(
            images,
            frame,
        ).package == images[first_holder(images, frame.instruction_addr)].0.raw.code_file,
        first_holder(images, frame.instruction_addr) == images.len() ==> with_package(
            images,
            frame,
        ).package == frame.package,
{
    law_first_holder(images, frame.instruction_addr);
}

/// The frames that were found stand in place of a frame. A frame for which none was found is kept
/// without any symbol, and says why. Only one that was scanned is left out, and only where its debug
/// file has no symbol for it or no image holds it.
pub proof fn law_kept_frames(
    index: usize,
    frame: RawFrameModel,
    frames: Seq<FrameModel>,
    status: FrameStatus,
)
    ensures
        kept_frames(index, frame, Ok(frames)) == frames,
        ({
            let kept = kept_frames(index, frame, Err(status));
            &&& kept.len() == 0 <==> frame.trust == FrameTrust::Scan && (status
                == FrameStatus::MissingSymbol || status == FrameStatus::UnknownImage)
            &&& kept.len() > 0 ==> {
                &&& kept.len() == 1
                &&& kept[0].status == status
                &&& kept[0].original_index == Some(index)
                &&& kept[0].raw == frame
                &&& kept[0].symbol is None
                &&& kept[0].function is None
                &&& kept[0].sym_addr is None
                &&& kept[0].filename is None
                &&& kept[0].abs_path is None
                &&& kept[0].lineno is None
                &&& kept[0].lang is None
            }
        }),
{
}

/// What stands in place of a frame is what is kept of what became of it.
pub proof fn law_frames_in_place(
    images: Seq<ImageModel>,
    signal: Option<u32>,
    registers: Map<Seq<char>, u64>,
    index: usize,
    frame: RawFrameModel,
)
    ensures
        match symbolicated_frame(images, signal, registers, index, frame) {
            Ok(frames) => frames_for(images, signal, registers, index as int, frame) == frames,
            Err(status) => {
                let kept = frames_for(images, signal, registers, index as int, frame);
                &&& kept.len() <= 1
                &&& kept.len() == 0 <==> frame.trust == FrameTrust::Scan && (status
                    == FrameStatus::MissingSymbol || status == FrameStatus::UnknownImage)
                &&& kept.len() == 1 ==> {
                    let holder = first_holder(images, frame.instruction_addr);
                    &&& kept[0].status == status
                    &&& kept[0].original_index == Some(index)
                    &&& kept[0].raw.instruction_addr == frame.instruction_addr
                    &&& kept[0].raw.trust == frame.trust
                    &&& holder < images.len() ==> kept[0].raw.package
                        == images[holder].0.raw.code_file
                    &&& holder == images.len() ==> kept[0].raw.package == frame.package
                    &&& kept[0].symbol is None
                    &&& kept[0].function is None
                    &&& kept[0].lineno is None
                }
            },
        },
{
    law_first_holder(images, frame.instruction_addr);
}

/// A stack trace is symbolicated frame by frame: one more frame adds what stands in its place, at the
/// end. The registers stay as they are, and nothing is said of the thread.
pub proof fn law_next_frame(
    thread: RawStacktraceModel,
    images: Seq<ImageModel>,
    signal: Option<u32>,
    frame: RawFrameModel,
)
    ensures
        ({
            let longer = RawStacktraceModel { frames: thread.frames.push(frame), ..thread };
            let before = symbolized_thread(thread, images, signal);
            let after = symbolized_thread(longer, images, signal);
            &&& thread.frames.len() == 0 ==> before.frames.len() == 0
            &&& after.frames == before.frames + frames_for(
                images,
                signal,
                thread.registers,
                thread.frames.len() as int,
                frame,
            )
            &&& before.registers == thread.registers
            &&& after.registers == thread.registers
            &&& before.thread_id is None
            &&& before.is_requesting is None
        }),
{
    let longer = RawStacktraceModel { frames: thread.frames.push(frame), ..thread };
    let n = thread.frames.len() as int;
    let parts = Seq::new(
        thread.frames.len(),
        |i: int| frames_for(images, signal, thread.registers, i, thread.frames[i]),
    );
    let more = Seq::new(
        longer.frames.len(),
        |i: int| frames_for(images, signal, longer.registers, i, longer.frames[i]),
    );
    assert(more =~= parts.push(frames_for(images, signal, thread.registers, n, frame)));
    parts.lemma_flatten_push(frames_for(images, signal, thread.registers, n, frame));
    assert(symbolized_thread(longer, images, signal).frames == more.flatten());
    assert(symbolized_thread(thread, images, signal).frames == parts.flatten());
    if n == 0 {
        assert(parts =~= Seq::empty());
    }
}

/// A request is answered with all of its stack traces, each symbolicated on its own and in its place,
/// with all of its images, and with its signal. Nothing else is said of the process.
pub proof fn law_response(
    images: Seq<ImageModel>,
    stacktraces: Seq<RawStacktraceModel>,
    signal: Option<u32>,
)
    ensures
        ({
            let response = symbolicated(images, stacktraces, signal);
            &&& response.signal == signal
            &&& response.modules.len() == images.len()
            &&& forall|i: int|
                0 <= i < images.len() ==> #[trigger] response.modules[i] == images[i].0
            &&& response.stacktraces.len() == stacktraces.len()
            &&& forall|i: int|
                0 <= i < stacktraces.len() ==> #[trigger] response.stacktraces[i]
                    == symbolized_thread(stacktraces[i], images, signal)
            &&& response.timestamp is None
            &&& response.system_info is None
            &&& response.crashed is None
            &&& response.crash_reason is None
            &&& response.assertion is None
        }),
{
}

/// A frame cannot be looked up only where its image has a symbol cache, and its address is that of no
/// return, the cache cannot be searched, or an address of a line does not fit.
pub proof fn law_frame_fits(
    images: Seq<ImageModel>,
    signal: Option<u32>,
    registers: Map<Seq<char>, u64>,
    index: usize,
    frame: RawFrameModel,
    data: Seq<u8>,
    arch: Arch,
)
    ensures
        ({
            let holder = first_holder(images, frame.instruction_addr);
            let fits = frame_fits(images, signal, registers, index, frame);
            &&& holder == images.len() ==> fits
            &&& holder < images.len() && images[holder].1 is None ==> fits
            &&& holder < images.len() && (images[holder].1 matches Some(file) && !(
            file.contents is Positive)) ==> fits
            &&& holder < images.len() && (images[holder].1 matches Some(file) && file.contents
                == ContentsModel::Positive(data)) ==> {
                let image = images[holder].0.raw.image_addr;
                let site = frame_site(
                    arch,
                    frame.instruction_addr,
                    index as int,
                    signal,
                    registers,
                );
                let addr = (site - image) as u64;
                &&& symcache_arch_code(data) is None ==> fits
                &&& symcache_arch_code(data) == Some(arch.spec_code()) ==> {
                    &&& 0 <= site < image ==> fits
                    &&& site >= image && inlined_behind_parents(data) && (match symcache_lines(
                        data,
                        addr,
                    ) {
                        Some(lines) => forall|k: int|
                            0 <= k < lines.len() ==> image + (
                            #[trigger] lines[k]).function_address <= u64::MAX && image
                                + lines[k].instruction_address <= u64::MAX,
                        None => true,
                    }) ==> fits
                }
            }
        }),
{
    law_first_holder(images, frame.instruction_addr);
    arch.law_code_round_trip();
    let holder = first_holder(images, frame.instruction_addr);
    if holder < images.len() {
        let image = images[holder].0.raw.image_addr;
        let site = frame_site(arch, frame.instruction_addr, index as int, signal, registers);
        let addr = (site - image) as u64;
        if inlined_behind_parents(data) {
            law_sound_cache_can_be_looked_up(data, addr);
        }
    }
}

/// Stack traces can be symbolicated where each of their frames can be looked up.
pub proof fn law_threads_fit(
    stacktraces: Seq<RawStacktraceModel>,
    images: Seq<ImageModel>,
    signal: Option<u32>,
)
    requires
        forall|t: int, f: int|
            #![trigger stacktraces[t].frames[f]]
            0 <= t < stacktraces.len() && 0 <= f < stacktraces[t].frames.len() ==> frame_fits(
                images,
                signal,
                stacktraces[t].registers,
                f as usize,
                stacktraces[t].frames[f],
            ),
    ensures
        threads_fit(stacktraces, images, signal),
{
    assert forall|t: int| 0 <= t < stacktraces.len() implies thread_fits(
        #[trigger] stacktraces[t],
        images,
        signal,
    ) by {
        assert forall|f: int| 0 <= f < stacktraces[t].frames.len() implies frame_fits(
            images,
            signal,
            stacktraces[t].registers,
            f as usize,
            #[trigger] stacktraces[t].frames[f],
        ) by {}
    }
}

/// What a symbol cache file is told by its contents: that the debug file was not found, that it could
/// not be read, or the architecture of the cache.
pub proof fn law_parsed_symcache(file: SymCacheModel, data: Seq<u8>, arch: Arch)
    ensures
        file.contents is Negative ==> parsed_symcache(file) == Ok::<Option<Arch>, CacheErrorKind>(
            None,
        ),
        file.contents is Malformed ==> parsed_symcache(file) == Err::<
            Option<Arch>,
            CacheErrorKind,
        >(CacheErrorKind::ObjectParsing),
        file.contents == ContentsModel::Positive(data) && symcache_arch_code(data) is None
            ==> parsed_symcache(file) == Err::<Option<Arch>, CacheErrorKind>(CacheErrorKind::Other),
        file.contents == ContentsModel::Positive(data) && symcache_arch_code(data) == Some(
            arch.spec_code(),
        ) ==> parsed_symcache(file) == Ok::<Option<Arch>, CacheErrorKind>(Some(arch)),
{
    arch.law_code_round_trip();
}

} // verus!
