//! CPU architectures, languages and frame trust, and what the CPU says of return addresses.

use vstd::prelude::*;

verus! {

/// A CPU architecture or variant of one.
#[allow(non_camel_case_types)]
#[derive(Clone, Copy, Debug, PartialEq, Eq, Structural)]
pub enum Arch {
    Unknown,
    X86,
    X86Unknown,
    Amd64,
    Amd64h,
    Amd64Unknown,
    Arm,
    ArmV5,
    ArmV6,
    ArmV6m,
    ArmV7,
    ArmV7f,
    ArmV7s,
    ArmV7k,
    ArmV7m,
    ArmV7em,
    ArmUnknown,
    Arm64,
    Arm64V8,
    Arm64e,
    Arm64Unknown,
    Ppc,
    Ppc64,
    Mips,
    Mips64,
    Arm64_32,
    Arm64_32V8,
    Arm64_32Unknown,
}

/// A family of CPUs with a common instruction set and pointer size.
#[allow(non_camel_case_types)]
#[derive(Clone, Copy, Debug, PartialEq, Eq, Structural)]
pub enum CpuFamily {
    Unknown,
    Intel32,
    Amd64,
    Arm32,
    Arm64,
    Ppc32,
    Ppc64,
    Mips32,
    Mips64,
    Arm64_32,
}

impl DeepView for Arch {
    type V = Arch;

    open spec fn deep_view(&self) -> Arch {
        *self
    }
}

impl Default for Arch {
    fn default() -> (r: Arch)
        ensures
            r == Arch::Unknown,
    {
        Arch::Unknown
    }
}

impl Arch {
    /// The numeric code of the architecture.
    pub open spec fn spec_code(self) -> u32 {
        match self {
            Arch::Unknown => 0,
            Arch::X86 => 101,
            Arch::X86Unknown => 199,
            Arch::Amd64 => 201,
            Arch::Amd64h => 202,
            Arch::Amd64Unknown => 299,
            Arch::Arm => 301,
            Arch::ArmV5 => 302,
            Arch::ArmV6 => 303,
            Arch::ArmV6m => 304,
            Arch::ArmV7 => 305,
            Arch::ArmV7f => 306,
            Arch::ArmV7s => 307,
            Arch::ArmV7k => 308,
            Arch::ArmV7m => 309,
            Arch::ArmV7em => 310,
            Arch::ArmUnknown => 399,
            Arch::Arm64 => 401,
            Arch::Arm64V8 => 402,
            Arch::Arm64e => 403,
            Arch::Arm64Unknown => 499,
            Arch::Ppc => 501,
            Arch::Ppc64 => 601,
            Arch::Mips => 701,
            Arch::Mips64 => 801,
            Arch::Arm64_32 => 901,
            Arch::Arm64_32V8 => 902,
            Arch::Arm64_32Unknown => 999,
        }
    }

    /// The architecture with a given numeric code, and `Unknown` for a code that none has.
    pub open spec fn spec_from_code(code: u32) -> Arch {
        if code == 101 {
            Arch::X86
        } else if code == 199 {
            Arch::X86Unknown
        } else if code == 201 {
            Arch::Amd64
        } else if code == 202 {
            Arch::Amd64h
        } else if code == 299 {
            Arch::Amd64Unknown
        } else if code == 301 {
            Arch::Arm
        } else if code == 302 {
            Arch::ArmV5
        } else if code == 303 {
            Arch::ArmV6
        } else if code == 304 {
            Arch::ArmV6m
        } else if code == 305 {
            Arch::ArmV7
        } else if code == 306 {
            Arch::ArmV7f
        } else if code == 307 {
            Arch::ArmV7s
        } else if code == 308 {
            Arch::ArmV7k
        } else if code == 309 {
            Arch::ArmV7m
        } else if code == 310 {
            Arch::ArmV7em
        } else if code == 399 {
            Arch::ArmUnknown
        } else if code == 401 {
            Arch::Arm64
        } else if code == 402 {
            Arch::Arm64V8
        } else if code == 403 {
            Arch::Arm64e
        } else if code == 499 {
            Arch::Arm64Unknown
        } else if code == 501 {
            Arch::Ppc
        } else if code == 601 {
            Arch::Ppc64
        } else if code == 701 {
            Arch::Mips
        } else if code == 801 {
            Arch::Mips64
        } else if code == 901 {
            Arch::Arm64_32
        } else if code == 902 {
            Arch::Arm64_32V8
        } else if code == 999 {
            Arch::Arm64_32Unknown
        } else {
            Arch::Unknown
        }
    }

    /// The family that the architecture belongs to.
    pub open spec fn family(self) -> CpuFamily {
        match self {
            Arch::Unknown => CpuFamily::Unknown,
            Arch::X86 | Arch::X86Unknown => CpuFamily::Intel32,
            Arch::Amd64 | Arch::Amd64h | Arch::Amd64Unknown => CpuFamily::Amd64,
            Arch::Arm | Arch::ArmV5 | Arch::ArmV6 | Arch::ArmV6m => CpuFamily::Arm32,
            Arch::ArmV7 | Arch::ArmV7f | Arch::ArmV7s | Arch::ArmV7k => CpuFamily::Arm32,
            Arch::ArmV7m | Arch::ArmV7em | Arch::ArmUnknown => CpuFamily::Arm32,
            Arch::Arm64 | Arch::Arm64V8 | Arch::Arm64e | Arch::Arm64Unknown => CpuFamily::Arm64,
            Arch::Ppc => CpuFamily::Ppc32,
            Arch::Ppc64 => CpuFamily::Ppc64,
            Arch::Mips => CpuFamily::Mips32,
            Arch::Mips64 => CpuFamily::Mips64,
            Arch::Arm64_32 | Arch::Arm64_32V8 | Arch::Arm64_32Unknown => CpuFamily::Arm64_32,
        }
    }

    /// The family that the architecture belongs to.
    pub fn cpu_family(self) -> (r: CpuFamily)
        ensures
            r == self.family(),
    {
        match self {
            Arch::Unknown => CpuFamily::Unknown,
            Arch::X86 | Arch::X86Unknown => CpuFamily::Intel32,
            Arch::Amd64 | Arch::Amd64h | Arch::Amd64Unknown => CpuFamily::Amd64,
            Arch::Arm | Arch::ArmV5 | Arch::ArmV6 | Arch::ArmV6m => CpuFamily::Arm32,
            Arch::ArmV7 | Arch::ArmV7f | Arch::ArmV7s | Arch::ArmV7k => CpuFamily::Arm32,
            Arch::ArmV7m | Arch::ArmV7em | Arch::ArmUnknown => CpuFamily::Arm32,
            Arch::Arm64 | Arch::Arm64V8 | Arch::Arm64e | Arch::Arm64Unknown => CpuFamily::Arm64,
            Arch::Ppc => CpuFamily::Ppc32,
            Arch::Ppc64 => CpuFamily::Ppc64,
            Arch::Mips => CpuFamily::Mips32,
            Arch::Mips64 => CpuFamily::Mips64,
            Arch::Arm64_32 | Arch::Arm64_32V8 | Arch::Arm64_32Unknown => CpuFamily::Arm64_32,
        }
    }

    /// The numeric code of the architecture.
    pub fn code(self) -> (r: u32)
        ensures
            r == self.spec_code(),
    {
        match self {
            Arch::Unknown => 0,
            Arch::X86 => 101,
            Arch::X86Unknown => 199,
            Arch::Amd64 => 201,
            Arch::Amd64h => 202,
            Arch::Amd64Unknown => 299,
            Arch::Arm => 301,
            Arch::ArmV5 => 302,
            Arch::ArmV6 => 303,
            Arch::ArmV6m => 304,
            Arch::ArmV7 => 305,
            Arch::ArmV7f => 306,
            Arch::ArmV7s => 307,
            Arch::ArmV7k => 308,
            Arch::ArmV7m => 309,
            Arch::ArmV7em => 310,
            Arch::ArmUnknown => 399,
            Arch::Arm64 => 401,
            Arch::Arm64V8 => 402,
            Arch::Arm64e => 403,
            Arch::Arm64Unknown => 499,
            Arch::Ppc => 501,
            Arch::Ppc64 => 601,
            Arch::Mips => 701,
            Arch::Mips64 => 801,
            Arch::Arm64_32 => 901,
            Arch::Arm64_32V8 => 902,
            Arch::Arm64_32Unknown => 999,
        }
    }

    /// The architecture with a given numeric code, and `Unknown` for a code that none has.
    pub fn from_code(code: u32) -> (r: Arch)
        ensures
            r == Arch::spec_from_code(code),
    {
        match code {
            101 => Arch::X86,
            199 => Arch::X86Unknown,
            201 => Arch::Amd64,
            202 => Arch::Amd64h,
            299 => Arch::Amd64Unknown,
            301 => Arch::Arm,
            302 => Arch::ArmV5,
            303 => Arch::ArmV6,
            304 => Arch::ArmV6m,
            305 => Arch::ArmV7,
            306 => Arch::ArmV7f,
            307 => Arch::ArmV7s,
            308 => Arch::ArmV7k,
            309 => Arch::ArmV7m,
            310 => Arch::ArmV7em,
            399 => Arch::ArmUnknown,
            401 => Arch::Arm64,
            402 => Arch::Arm64V8,
            403 => Arch::Arm64e,
            499 => Arch::Arm64Unknown,
            501 => Arch::Ppc,
            601 => Arch::Ppc64,
            701 => Arch::Mips,
            801 => Arch::Mips64,
            901 => Arch::Arm64_32,
            902 => Arch::Arm64_32V8,
            999 => Arch::Arm64_32Unknown,
            _ => Arch::Unknown,
        }
    }

    /// An architecture is found again by its code.
    pub proof fn law_code_round_trip(self)
        ensures
            Arch::spec_from_code(self.spec_code()) == self,
    {
    }
}

/// A programming language named in debug information.
#[derive(Clone, Copy, Debug, PartialEq, Eq, Structural)]
pub enum Language {
    Unknown,
    C,
    Cpp,
    D,
    Go,
    ObjC,
    ObjCpp,
    Rust,
    Swift,
}

impl DeepView for Language {
    type V = Language;

    open spec fn deep_view(&self) -> Language {
        *self
    }
}

impl Language {
    /// The numeric code of the language.
    pub open spec fn spec_code(self) -> u32 {
        match self {
            Language::Unknown => 0,
            Language::C => 1,
            Language::Cpp => 2,
            Language::D => 3,
            Language::Go => 4,
            Language::ObjC => 5,
            Language::ObjCpp => 6,
            Language::Rust => 7,
            Language::Swift => 8,
        }
    }

    /// The language with a given numeric code, and `Unknown` for a code that none has.
    pub open spec fn spec_from_code(code: u32) -> Language {
        if code == 1 {
            Language::C
        } else if code == 2 {
            Language::Cpp
        } else if code == 3 {
            Language::D
        } else if code == 4 {
            Language::Go
        } else if code == 5 {
            Language::ObjC
        } else if code == 6 {
            Language::ObjCpp
        } else if code == 7 {
            Language::Rust
        } else if code == 8 {
            Language::Swift
        } else {
            Language::Unknown
        }
    }

    /// The numeric code of the language.
    pub fn code(self) -> (r: u32)
        ensures
            r == self.spec_code(),
    {
        match self {
            Language::Unknown => 0,
            Language::C => 1,
            Language::Cpp => 2,
            Language::D => 3,
            Language::Go => 4,
            Language::ObjC => 5,
            Language::ObjCpp => 6,
            Language::Rust => 7,
            Language::Swift => 8,
        }
    }

    /// The language with a given numeric code, and `Unknown` for a code that none has.
    pub fn from_code(code: u32) -> (r: Language)
        ensures
            r == Language::spec_from_code(code),
    {
        match code {
            1 => Language::C,
            2 => Language::Cpp,
            3 => Language::D,
            4 => Language::Go,
            5 => Language::ObjC,
            6 => Language::ObjCpp,
            7 => Language::Rust,
            8 => Language::Swift,
            _ => Language::Unknown,
        }
    }

    /// A language is found again by its code.
    pub proof fn law_code_round_trip(self)
        ensures
            Language::spec_from_code(self.spec_code()) == self,
    {
    }
}

/// How far the instruction pointer of a frame can be trusted, in rising order.
#[derive(Clone, Copy, Debug, PartialEq, Eq, Structural)]
pub enum FrameTrust {
    /// Nothing is known of where the frame came from.
    Unknown,
    /// Found by scanning the stack, the lowest precision.
    Scan,
    /// Found by scanning the stack with call frame information.
    CFIScan,
    /// Derived from the frame pointer.
    FP,
    /// Derived from call frame information.
    CFI,
    /// Provided by an outside stack walker.
    Prewalked,
    /// Given as instruction pointer in a context, the highest precision.
    Context,
}

impl DeepView for FrameTrust {
    type V = FrameTrust;

    open spec fn deep_view(&self) -> FrameTrust {
        *self
    }
}

impl FrameTrust {
    /// The trust with a given numeric code, and `Unknown` for a code that no trust has.
    pub open spec fn spec_from_code(code: u32) -> FrameTrust {
        if code == 1 {
            FrameTrust::Scan
        } else if code == 2 {
            FrameTrust::CFIScan
        } else if code == 3 {
            FrameTrust::FP
        } else if code == 4 {
            FrameTrust::CFI
        } else if code == 5 {
            FrameTrust::Prewalked
        } else if code == 6 {
            FrameTrust::Context
        } else {
            FrameTrust::Unknown
        }
    }

    /// The trust with a given numeric code, and `Unknown` for a code that no trust has.
    pub fn from_code(code: u32) -> (r: FrameTrust)
        ensures
            r == FrameTrust::spec_from_code(code),
    {
        match code {
            1 => FrameTrust::Scan,
            2 => FrameTrust::CFIScan,
            3 => FrameTrust::FP,
            4 => FrameTrust::CFI,
            5 => FrameTrust::Prewalked,
            6 => FrameTrust::Context,
            _ => FrameTrust::Unknown,
        }
    }
}

/// The name of the register that holds the instruction pointer.
pub open spec fn ip_register(family: CpuFamily) -> Option<Seq<char>> {
    match family {
        CpuFamily::Intel32 => Some("eip"@),
        CpuFamily::Amd64 => Some("rip"@),
        CpuFamily::Arm32 | CpuFamily::Arm64 | CpuFamily::Arm64_32 => Some("pc"@),
        CpuFamily::Ppc32 | CpuFamily::Ppc64 => Some("srr0"@),
        CpuFamily::Mips32 | CpuFamily::Mips64 => Some("pc"@),
        CpuFamily::Unknown => None,
    }
}

/// The alignment of instructions, where all instructions of the family have one.
pub open spec fn instruction_alignment(family: CpuFamily) -> Option<int> {
    match family {
        CpuFamily::Arm32 => Some(2),
        CpuFamily::Arm64 | CpuFamily::Arm64_32 => Some(4),
        CpuFamily::Ppc32 | CpuFamily::Mips32 | CpuFamily::Mips64 => Some(4),
        CpuFamily::Ppc64 => Some(8),
        CpuFamily::Intel32 | CpuFamily::Amd64 | CpuFamily::Unknown => None,
    }
}

/// The start of the instruction at `addr`, as far as the alignment tells it.
pub open spec fn aligned_address(family: CpuFamily, addr: u64) -> int {
    match instruction_alignment(family) {
        Some(alignment) => addr - addr as int % alignment,
        None => addr as int,
    }
}

/// How far before a return address the calling instruction is taken to be.
pub open spec fn call_offset(family: CpuFamily) -> int {
    let size = match instruction_alignment(family) {
        Some(alignment) => alignment,
        None => 1,
    };
    if family == CpuFamily::Mips32 || family == CpuFamily::Mips64 {
        2 * size
    } else {
        size
    }
}

/// Whether a frame holds a return address rather than the address of its own instruction: this is
/// so of all frames but the first, and of the first where a signal handler was taken off above it
/// (signals 4, 10 and 11).
pub open spec fn is_return_address(
    addr: u64,
    crashing_frame: bool,
    signal: Option<u32>,
    ip_reg: Option<u64>,
) -> bool {
    ||| !crashing_frame
    ||| {
        &&& ip_reg is Some
        &&& ip_reg->0 != addr
        &&& signal is Some
        &&& (signal->0 == 4 || signal->0 == 10 || signal->0 == 11)
    }
}

/// The address of the instruction that a frame executes. Below zero where the address is that of
/// no return.
pub open spec fn call_site(
    family: CpuFamily,
    addr: u64,
    crashing_frame: bool,
    signal: Option<u32>,
    ip_reg: Option<u64>,
) -> int {
    if is_return_address(addr, crashing_frame, signal, ip_reg) {
        aligned_address(family, addr) - call_offset(family)
    } else {
        aligned_address(family, addr)
    }
}

/// Whether the call site of a frame is not below zero.
pub(crate) fn has_call_site(
    family: CpuFamily,
    addr: u64,
    crashing_frame: bool,
    signal: Option<u32>,
    ip_reg: Option<u64>,
) -> (r: bool)
    ensures
        r == (call_site(family, addr, crashing_frame, signal, ip_reg) >= 0),
{
    let is_crash_signal: bool = match signal {
        Some(signal) => signal == 4 || signal == 10 || signal == 11,
        None => false,
    };
    let is_other_register: bool = match ip_reg {
        Some(ip_reg) => ip_reg != addr,
        None => false,
    };
    if crashing_frame && !(is_other_register && is_crash_signal) {
        return true;
    }
    let offset: u64 = match family {
        CpuFamily::Arm32 => 2,
        CpuFamily::Arm64 | CpuFamily::Arm64_32 | CpuFamily::Ppc32 => 4,
        CpuFamily::Mips32 | CpuFamily::Mips64 | CpuFamily::Ppc64 => 8,
        CpuFamily::Intel32 | CpuFamily::Amd64 | CpuFamily::Unknown => 1,
    };
    addr >= offset
}

/// Calls `symbolic::common::InstructionInfo::caller_address`. Claims that it returns the call site
/// of the frame, for frames whose call site is not below zero; on the others it overflows.
#[verifier::external_body]
#[allow(deprecated)]
pub(crate) fn caller_address(
    arch: u32,
    addr: u64,
    crashing_frame: bool,
    signal: Option<u32>,
    ip_reg: Option<u64>,
) -> (r: u64)
    requires
        Arch::spec_from_code(arch).spec_code() == arch,
        call_site(Arch::spec_from_code(arch).family(), addr, crashing_frame, signal, ip_reg) >= 0,
    ensures
        r == call_site(Arch::spec_from_code(arch).family(), addr, crashing_frame, signal, ip_reg),
{
    let arch = symbolic::common::Arch::from_u32(arch);
    symbolic::common::InstructionInfo { addr, arch, crashing_frame, signal, ip_reg }.caller_address()
}

/// Calls `symbolic::common::CpuFamily::ip_register_name`. Claims that it returns the name of the
/// register that holds the instruction pointer.
#[verifier::external_body]
pub(crate) fn ip_register_name(arch: u32) -> (r: Option<&'static str>)
    requires
        Arch::spec_from_code(arch).spec_code() == arch,
    ensures
        ip_register(Arch::spec_from_code(arch).family()) == (match r {
            Some(name) => Some(name@),
            None => None,
        }),
{
    symbolic::common::Arch::from_u32(arch).cpu_family().ip_register_name()
}

/// The code of the architecture with a given name, as `symbolic::common::Arch` parses it.
pub uninterp spec fn arch_code_of_name(name: Seq<char>) -> Option<u32>;

/// Calls `<symbolic::common::Arch as FromStr>::from_str`. Claims that which architecture comes back
/// depends on the name alone.
#[verifier::external_body]
pub(crate) fn parse_arch(name: &str) -> (r: Option<u32>)
    ensures
        r == arch_code_of_name(name@),
{
    name.parse::<symbolic::common::Arch>().ok().map(|arch| arch as u32)
}

/// The architecture with a given name, and `Unknown` for a name that none has.
pub open spec fn arch_of_name(name: Seq<char>) -> Arch {
    match arch_code_of_name(name) {
        Some(code) => Arch::spec_from_code(code),
        None => Arch::Unknown,
    }
}

impl Arch {
    /// The architecture with a given name, and `Unknown` for a name that none has.
    pub fn from_name(name: &str) -> (r: Arch)
        ensures
            r == arch_of_name(name@),
    {
        match parse_arch(name) {
            Some(code) => Arch::from_code(code),
            None => Arch::Unknown,
        }
    }
}

/// Each architecture has its code, and the hundreds of the code tell the family. A code that no
/// architecture has stands for none.
pub proof fn law_arch_codes(arch: Arch, code: u32)
    ensures
        Arch::Unknown.spec_code() == 0,
        Arch::X86.spec_code() == 101,
        Arch::X86Unknown.spec_code() == 199,
        Arch::Amd64.spec_code() == 201,
        Arch::Amd64h.spec_code() == 202,
        Arch::Amd64Unknown.spec_code() == 299,
        Arch::Arm.spec_code() == 301,
        Arch::ArmV5.spec_code() == 302,
        Arch::ArmV6.spec_code() == 303,
        Arch::ArmV6m.spec_code() == 304,
        Arch::ArmV7.spec_code() == 305,
        Arch::ArmV7f.spec_code() == 306,
        Arch::ArmV7s.spec_code() == 307,
        Arch::ArmV7k.spec_code() == 308,
        Arch::ArmV7m.spec_code() == 309,
        Arch::ArmV7em.spec_code() == 310,
        Arch::ArmUnknown.spec_code() == 399,
        Arch::Arm64.spec_code() == 401,
        Arch::Arm64V8.spec_code() == 402,
        Arch::Arm64e.spec_code() == 403,
        Arch::Arm64Unknown.spec_code() == 499,
        Arch::Ppc.spec_code() == 501,
        Arch::Ppc64.spec_code() == 601,
        Arch::Mips.spec_code() == 701,
        Arch::Mips64.spec_code() == 801,
        Arch::Arm64_32.spec_code() == 901,
        Arch::Arm64_32V8.spec_code() == 902,
        Arch::Arm64_32Unknown.spec_code() == 999,
        arch.spec_code() / 100 == (match arch.family() {
            CpuFamily::Unknown => 0int,
            CpuFamily::Intel32 => 1,
            CpuFamily::Amd64 => 2,
            CpuFamily::Arm32 => 3,
            CpuFamily::Arm64 => 4,
            CpuFamily::Ppc32 => 5,
            CpuFamily::Ppc64 => 6,
            CpuFamily::Mips32 => 7,
            CpuFamily::Mips64 => 8,
            CpuFamily::Arm64_32 => 9,
        }),
        Arch::spec_from_code(code) != Arch::Unknown ==> Arch::spec_from_code(code).spec_code()
            == code,
        Arch::spec_from_code(arch.spec_code()) == arch,
{
}

/// Each language has its code, and a code above these stands for none.
pub proof fn law_language_codes(language: Language, code: u32)
    ensures
        Language::Unknown.spec_code() == 0,
        Language::C.spec_code() == 1,
        Language::Cpp.spec_code() == 2,
        Language::D.spec_code() == 3,
        Language::Go.spec_code() == 4,
        Language::ObjC.spec_code() == 5,
        Language::ObjCpp.spec_code() == 6,
        Language::Rust.spec_code() == 7,
        Language::Swift.spec_code() == 8,
        Language::spec_from_code(language.spec_code()) == language,
        1 <= code <= 8 ==> Language::spec_from_code(code).spec_code() == code,
        code == 0 || code > 8 ==> Language::spec_from_code(code) == Language::Unknown,
{
}

/// Each trust has its code, from the lowest on, and any other code says nothing of a frame.
pub proof fn law_trust_codes(code: u32)
    ensures
        FrameTrust::spec_from_code(1) == FrameTrust::Scan,
        FrameTrust::spec_from_code(2) == FrameTrust::CFIScan,
        FrameTrust::spec_from_code(3) == FrameTrust::FP,
        FrameTrust::spec_from_code(4) == FrameTrust::CFI,
        FrameTrust::spec_from_code(5) == FrameTrust::Prewalked,
        FrameTrust::spec_from_code(6) == FrameTrust::Context,
        code == 0 || code > 6 ==> FrameTrust::spec_from_code(code) == FrameTrust::Unknown,
{
}

/// A name is that of the architecture whose code it is parsed to, and of none where it cannot be
/// parsed.
pub proof fn law_arch_of_name(name: Seq<char>, arch: Arch)
    ensures
        arch_code_of_name(name) is None ==> arch_of_name(name) == Arch::Unknown,
        arch_code_of_name(name) == Some(arch.spec_code()) ==> arch_of_name(name) == arch,
{
    arch.law_code_round_trip();
}

/// A return address is that of the instruction behind the call, on MIPS of the second one behind it:
/// the call is where the instruction before it starts. Where instructions have no common size it is
/// enough to go back by a byte.
pub proof fn law_call_before_return(
    family: CpuFamily,
    addr: u64,
    crashing_frame: bool,
    signal: Option<u32>,
    ip_reg: Option<u64>,
)
    requires
        !crashing_frame || (ip_reg is Some && ip_reg != Some(addr) && (signal == Some(4u32)
            || signal == Some(10u32) || signal == Some(11u32))),
    ensures
        call_site(family, addr, crashing_frame, signal, ip_reg) == (match family {
            CpuFamily::Intel32 | CpuFamily::Amd64 | CpuFamily::Unknown => addr - 1,
            CpuFamily::Arm32 => addr / 2 * 2 - 2,
            CpuFamily::Arm64 | CpuFamily::Arm64_32 | CpuFamily::Ppc32 => addr / 4 * 4 - 4,
            CpuFamily::Mips32 | CpuFamily::Mips64 => addr / 4 * 4 - 8,
            CpuFamily::Ppc64 => addr / 8 * 8 - 8,
        }),
{
}

/// The first frame executes the instruction at its own address, unless a signal handler was taken
/// off above it: one of the signals 4, 10 and 11 was raised, and the register says another address.
pub proof fn law_crashing_instruction(
    family: CpuFamily,
    addr: u64,
    signal: Option<u32>,
    ip_reg: Option<u64>,
)
    requires
        ip_reg is None || ip_reg == Some(addr) || (signal != Some(4u32) && signal != Some(10u32)
            && signal != Some(11u32)),
    ensures
        call_site(family, addr, true, signal, ip_reg) == (match family {
            CpuFamily::Intel32 | CpuFamily::Amd64 | CpuFamily::Unknown => addr as int,
            CpuFamily::Arm32 => addr / 2 * 2,
            CpuFamily::Arm64 | CpuFamily::Arm64_32 | CpuFamily::Ppc32 => addr / 4 * 4,
            CpuFamily::Mips32 | CpuFamily::Mips64 => addr / 4 * 4,
            CpuFamily::Ppc64 => addr / 8 * 8,
        }),
{
}

} // verus!
