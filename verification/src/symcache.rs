//! Symbol caches: files that map the addresses of an image to source lines.

use vstd::prelude::*;

use crate::arch::Arch;
use crate::types::ObjectFileStatus;

verus! {

/// The contents of a cache file.
#[derive(Clone, Debug)]
pub enum CacheContents {
    /// The object file was not found.
    Negative,
    /// The object file was found and could not be read.
    Malformed,
    /// The object file was converted to these bytes.
    Positive(Vec<u8>),
}

/// The model of [`CacheContents`].
pub enum ContentsModel {
    Negative,
    Malformed,
    Positive(Seq<u8>),
}

impl DeepView for CacheContents {
    type V = ContentsModel;

    open spec fn deep_view(&self) -> ContentsModel {
        match self {
            CacheContents::Negative => ContentsModel::Negative,
            CacheContents::Malformed => ContentsModel::Malformed,
            CacheContents::Positive(data) => ContentsModel::Positive(data@),
        }
    }
}

/// A symbol cache file.
#[derive(Clone, Debug)]
pub struct SymCacheFile {
    /// The architecture of the object file.
    pub arch: Arch,
    /// The contents of the file.
    pub contents: CacheContents,
}

/// The model of a [`SymCacheFile`].
pub struct SymCacheModel {
    pub arch: Arch,
    pub contents: ContentsModel,
}

impl DeepView for SymCacheFile {
    type V = SymCacheModel;

    open spec fn deep_view(&self) -> SymCacheModel {
        SymCacheModel { arch: self.arch, contents: self.contents.deep_view() }
    }
}

/// Why a symbol cache could not be had.
#[derive(Clone, Copy, Debug, PartialEq, Eq, Structural)]
pub enum CacheErrorKind {
    /// The object file could not be fetched.
    Fetching,
    /// Building the cache took too long.
    Timeout,
    /// The object file could not be read.
    ObjectParsing,
    /// Any other error.
    Other,
}

/// What an error says of the object file.
pub open spec fn cache_error_status(kind: CacheErrorKind) -> ObjectFileStatus {
    match kind {
        CacheErrorKind::Fetching => ObjectFileStatus::FetchingFailed,
        CacheErrorKind::Timeout => ObjectFileStatus::Timeout,
        CacheErrorKind::ObjectParsing => ObjectFileStatus::Malformed,
        CacheErrorKind::Other => ObjectFileStatus::Other,
    }
}

impl From<CacheErrorKind> for ObjectFileStatus {
    fn from(kind: CacheErrorKind) -> (r: ObjectFileStatus)
        ensures
            r == cache_error_status(kind),
    {
        match kind {
            CacheErrorKind::Fetching => ObjectFileStatus::FetchingFailed,
            // Timeouts during download are also caught by Fetching.
            CacheErrorKind::Timeout => ObjectFileStatus::Timeout,
            CacheErrorKind::ObjectParsing => ObjectFileStatus::Malformed,
            CacheErrorKind::Other => ObjectFileStatus::Other,
        }
    }
}

impl vstd::std_specs::convert::FromSpecImpl<CacheErrorKind> for ObjectFileStatus {
    open spec fn obeys_from_spec() -> bool {
        true
    }

    open spec fn from_spec(kind: CacheErrorKind) -> ObjectFileStatus {
        cache_error_status(kind)
    }
}

/// A source line that covers an address.
#[derive(Clone, Debug, PartialEq)]
pub struct LineRecord {
    /// The compilation directory of the function.
    pub compilation_dir: String,
    /// The path of the source file, relative to the compilation directory.
    pub path: String,
    /// The name of the source file.
    pub filename: String,
    /// The code of the language.
    pub language: u32,
    /// The mangled name of the function.
    pub symbol: String,
    /// The line in the source file.
    pub line: u32,
    /// The address of the function, relative to the image.
    pub function_address: u64,
    /// The address that was looked up, relative to the image.
    pub instruction_address: u64,
}

/// The model of a [`LineRecord`].
pub struct LineModel {
    pub compilation_dir: Seq<char>,
    pub path: Seq<char>,
    pub filename: Seq<char>,
    pub language: u32,
    pub symbol: Seq<char>,
    pub line: u32,
    pub function_address: u64,
    pub instruction_address: u64,
}

impl DeepView for LineRecord {
    type V = LineModel;

    open spec fn deep_view(&self) -> LineModel {
        LineModel {
            compilation_dir: self.compilation_dir@,
            path: self.path@,
            filename: self.filename@,
            language: self.language,
            symbol: self.symbol@,
            line: self.line,
            function_address: self.function_address,
            instruction_address: self.instruction_address,
        }
    }
}

/// The number that two bytes hold, the lowest first.
pub open spec fn u16_at(data: Seq<u8>, at: int) -> int {
    data[at] + 0x100 * data[at + 1]
}

/// The number that four bytes hold, the lowest first.
pub open spec fn u32_at(data: Seq<u8>, at: int) -> int {
    data[at] + 0x100 * data[at + 1] + 0x1_0000 * data[at + 2] + 0x100_0000 * data[at + 3]
}

/// The size of the header of a symbol cache: the first version of the format has a shorter one.
pub open spec fn header_size(data: Seq<u8>) -> int {
    if u32_at(data, 4) == 1 {
        52
    } else {
        68
    }
}

/// The bytes that the offsets of a symbol cache count in: in the first version of the format, those
/// behind the header.
pub open spec fn segments(data: Seq<u8>) -> Seq<u8> {
    if u32_at(data, 4) == 1 {
        data.skip(52)
    } else {
        data
    }
}

/// How far before its own record that of the function is which the function at `index` was inlined
/// into; 65535 where it was not inlined. A function record has 25 bytes, and holds the offset in its
/// bytes 19 and 20.
pub open spec fn parent_offset(data: Seq<u8>, index: int) -> int {
    let start = u32_at(data, header_size(data) - 8);
    u16_at(segments(data), start + 25 * index + 19)
}

/// Whether all function records lie inside the cache.
pub open spec fn functions_inside(data: Seq<u8>) -> bool {
    let start = u32_at(data, header_size(data) - 8);
    let count = u32_at(data, header_size(data) - 4);
    start + 25 * count <= segments(data).len()
}

/// Whether each inlined function stands behind the function that it was inlined into. In a cache
/// where this is not so, going from one to the other leads out of the cache or never ends.
pub open spec fn inlined_behind_parents(data: Seq<u8>) -> bool {
    data.len() >= 8 && data.len() >= header_size(data) && functions_inside(data) ==> forall|i: int|
        #![trigger parent_offset(data, i)]
        0 <= i < function_count(data) ==> (parent_offset(data, i) == 0xffff || 1
            <= parent_offset(data, i) <= i)
}

/// How many functions a symbol cache has.
pub open spec fn function_count(data: Seq<u8>) -> int {
    u32_at(data, header_size(data) - 4)
}

/// The address at which the function at `index` starts. A function record holds it in its first six
/// bytes.
pub open spec fn function_start(data: Seq<u8>, index: int) -> int {
    let at = u32_at(data, header_size(data) - 8) + 25 * index;
    u32_at(segments(data), at) + 0x1_0000_0000 * u16_at(segments(data), at + 4)
}

/// Whether the functions are ordered by the addresses at which they start.
pub open spec fn functions_ordered(data: Seq<u8>) -> bool {
    forall|i: int, j: int|
        #![trigger function_start(data, i), function_start(data, j)]
        0 <= i <= j < function_count(data) ==> function_start(data, i) <= function_start(data, j)
}

/// The last of the first `count` functions that does not start behind an address. Below zero where
/// there is none.
pub open spec fn last_function(data: Seq<u8>, addr: u64, count: int) -> int
    decreases count,
{
    if count <= 0 {
        -1
    } else if function_start(data, count - 1) <= addr {
        count - 1
    } else {
        last_function(data, addr, count - 1)
    }
}

/// Whether a search that goes back through the functions from the one at `index` ends. It passes
/// each function that one of those it passed was inlined into, and goes on to `last` at least. Each
/// inlined function on its way stands behind the function that it was inlined into.
pub open spec fn search_ends(data: Seq<u8>, index: int, last: int) -> bool
    decreases index,
{
    let offset = parent_offset(data, index);
    let first = if offset != 0xffff && index - offset < last {
        index - offset
    } else {
        last
    };
    &&& offset == 0xffff || 1 <= offset <= index
    &&& 0 <= first < index ==> search_ends(data, index - 1, first)
}

/// Whether an address can be looked up in a symbol cache: the search for the functions that cover
/// it ends. It starts from the last function that does not start behind the address where the
/// functions are in order, and may start from any where they are not.
pub open spec fn can_be_looked_up(data: Seq<u8>, addr: u64) -> bool {
    data.len() >= 8 && data.len() >= header_size(data) && functions_inside(data) ==> if functions_ordered(
        data,
    ) {
        let last = last_function(data, addr, function_count(data));
        0 <= last ==> search_ends(data, last, last)
    } else {
        inlined_behind_parents(data)
    }
}

/// Where each inlined function stands behind the function that it was inlined into, every address
/// can be looked up.
pub proof fn law_sound_cache_can_be_looked_up(data: Seq<u8>, addr: u64)
    requires
        inlined_behind_parents(data),
    ensures
        can_be_looked_up(data, addr),
{
    if data.len() >= 8 && data.len() >= header_size(data) && functions_inside(data) {
        let count = function_count(data);
        lemma_last_function(data, addr, count);
        let last = last_function(data, addr, count);
        if 0 <= last {
            lemma_search_ends(data, last, last);
        }
    }
}

proof fn lemma_last_function(data: Seq<u8>, addr: u64, count: int)
    requires
        0 <= count,
    ensures
        -1 <= last_function(data, addr, count) < count,
    decreases count,
{
    if count > 0 {
        lemma_last_function(data, addr, count - 1);
    }
}

proof fn lemma_search_ends(data: Seq<u8>, index: int, last: int)
    requires
        data.len() >= 8,
        data.len() >= header_size(data),
        functions_inside(data),
        inlined_behind_parents(data),
        0 <= index < function_count(data),
    ensures
        search_ends(data, index, last),
    decreases index,
{
    let offset = parent_offset(data, index);
    let first = if offset != 0xffff && index - offset < last {
        index - offset
    } else {
        last
    };
    if 0 <= first < index {
        lemma_search_ends(data, index - 1, first);
    }
}

/// The code of the architecture that a symbol cache names. Older caches count the architectures from
/// one on.
pub open spec fn current_arch_code(code: int) -> u32 {
    if code == 1 {
        101
    } else if code == 2 {
        201
    } else if code == 3 {
        202
    } else if 4 <= code <= 13 {
        (code + 297) as u32
    } else if 14 <= code <= 16 {
        (code + 387) as u32
    } else if code == 17 {
        501
    } else if code == 18 {
        601
    } else {
        Arch::spec_from_code(code as u32).spec_code()
    }
}

/// The code of the architecture that a symbol cache is for. None where the bytes are no symbol
/// cache: they do not start with `SYMC` and a version of the format, or the header is not whole.
pub open spec fn symcache_arch_code(data: Seq<u8>) -> Option<u32> {
    if data.len() >= 8 && data.take(4) == seq![0x53u8, 0x59, 0x4d, 0x43] && 1 <= u32_at(data, 4)
        <= 5 && data.len() >= header_size(data) {
        Some(current_arch_code(u32_at(data, header_size(data) - 28)))
    } else {
        None
    }
}

/// Calls `symbolic::symcache::SymCache::parse` and `SymCache::arch`. Claims which bytes are a symbol
/// cache, and which architecture it names. The crate reads numbers as the machine does: the contract
/// speaks of a machine on which their lowest byte comes first.
#[verifier::external_body]
pub(crate) fn parse_symcache(data: &[u8]) -> (r: Option<u32>)
    ensures
        r == symcache_arch_code(data@),
{
    symbolic::symcache::SymCache::parse(data).ok().map(|cache| cache.arch() as u32)
}

/// The lines that cover an address of a symbol cache, as `symbolic::symcache::SymCache` finds them.
/// None where the cache could not be read.
pub uninterp spec fn symcache_lines(data: Seq<u8>, addr: u64) -> Option<Seq<LineModel>>;

/// Calls `symbolic::symcache::SymCache::lookup` and reads what it finds. Claims that what it finds
/// depends on the bytes and the address alone, that each line carries the address that was looked
/// up, and that function addresses, which a cache stores in six bytes, are below 2^48. Here too
/// the lowest byte of a number comes first.
#[verifier::external_body]
pub(crate) fn lookup_lines(data: &[u8], addr: u64) -> (r: Option<Vec<LineRecord>>)
    requires
        can_be_looked_up(data@, addr),
    ensures
        r.deep_view() == symcache_lines(data@, addr),
        r matches Some(lines) ==> forall|i: int|
            0 <= i < lines.len() ==> (#[trigger] lines[i]).instruction_address == addr
                && lines[i].function_address < 0x1_0000_0000_0000,
{
    let cache = symbolic::symcache::SymCache::parse(data).ok()?;
    let lines = cache.lookup(addr).ok()?.collect::<Vec<_>>().ok()?;
    let record = |line: symbolic::symcache::LineInfo<'_>| LineRecord {
        compilation_dir: line.compilation_dir().to_owned(),
        path: line.path(),
        filename: line.filename().to_owned(),
        language: line.language() as u32,
        symbol: line.symbol().to_owned(),
        line: line.line(),
        function_address: line.function_address(),
        instruction_address: line.instruction_address(),
    };
    Some(lines.into_iter().map(record).collect())
}

/// What parsing a symbol cache file gives: the architecture of the cache, or nothing where the
/// object file was not found.
pub open spec fn parsed_symcache(file: SymCacheModel) -> Result<Option<Arch>, CacheErrorKind> {
    match file.contents {
        ContentsModel::Negative => Ok(None),
        ContentsModel::Malformed => Err(CacheErrorKind::ObjectParsing),
        ContentsModel::Positive(data) => match symcache_arch_code(data) {
            Some(code) => Ok(Some(Arch::spec_from_code(code))),
            None => Err(CacheErrorKind::Other),
        },
    }
}

impl SymCacheFile {
    /// Parses the file. Gives the architecture of the cache, or nothing where the object file was
    /// not found.
    pub fn parse(&self) -> (r: Result<Option<Arch>, CacheErrorKind>)
        ensures
            r == parsed_symcache(self.deep_view()),
    {
        match &self.contents {
            CacheContents::Negative => Ok(None),
            CacheContents::Malformed => Err(CacheErrorKind::ObjectParsing),
            CacheContents::Positive(data) => match parse_symcache(data.as_slice()) {
                Some(code) => Ok(Some(Arch::from_code(code))),
                None => Err(CacheErrorKind::Other),
            },
        }
    }
}

/// The number that two bytes hold, the lowest first.
fn read_u16(data: &[u8], at: usize) -> (r: u64)
    requires
        at + 2 <= data@.len(),
    ensures
        r == u16_at(data@, at as int),
{
    data[at] as u64 + 0x100 * data[at + 1] as u64
}

/// The number that four bytes hold, the lowest first.
fn read_u32(data: &[u8], at: usize) -> (r: u64)
    requires
        at + 4 <= data@.len(),
    ensures
        r == u32_at(data@, at as int),
{
    data[at] as u64 + 0x100 * data[at + 1] as u64 + 0x1_0000 * data[at + 2] as u64 + 0x100_0000
        * data[at + 3] as u64
}

/// Where the function records of a symbol cache are, and how many there are. None where they do not
/// lie inside the cache.
fn function_records(data: &[u8]) -> (r: Option<(u64, u64)>)
    ensures
        match r {
            Some((start, count)) => {
                &&& data@.len() >= 8
                &&& data@.len() >= header_size(data@)
                &&& functions_inside(data@)
                &&& count == function_count(data@)
                &&& start == u32_at(data@, header_size(data@) - 8) + data@.len() - segments(
                    data@,
                ).len()
                &&& start + 25 * count <= data@.len()
                &&& start <= 0x1_0000_0033
                &&& count <= 0xffff_ffff
            },
            None => !(data@.len() >= 8 && data@.len() >= header_size(data@) && functions_inside(
                data@,
            )),
        },
{
    if data.len() < 8 {
        return None;
    }
    let first_version: bool = read_u32(data, 4) == 1;
    let header: usize = if first_version {
        52
    } else {
        68
    };
    if data.len() < header {
        return None;
    }
    let base: u64 = if first_version {
        52
    } else {
        0
    };
    let start: u64 = base + read_u32(data, header - 8);
    let count: u64 = read_u32(data, header - 4);
    let total: u64 = data.len() as u64;
    if start + 25 * count > total {
        return None;
    }
    Some((start, count))
}

fn read_parent_offset(data: &[u8], start: u64, index: u64) -> (r: u64)
    requires
        data@.len() >= header_size(data@),
        start == u32_at(data@, header_size(data@) - 8) + data@.len() - segments(data@).len(),
        start <= 0x1_0000_0033,
        index < 0xffff_ffff,
        start + 25 * (index + 1) <= data@.len(),
    ensures
        r == parent_offset(data@, index as int),
{
    let total: usize = data.len();
    let at: u64 = start + 25 * index + 19;
    proof {
        assert(at + 2 <= total);
        let base = data@.len() - segments(data@).len();
        assert(segments(data@)[at - base] == data@[at as int]);
        assert(segments(data@)[at - base + 1] == data@[at + 1]);
    }
    read_u16(data, at as usize)
}

fn read_function_start(data: &[u8], start: u64, index: u64) -> (r: u64)
    requires
        data@.len() >= header_size(data@),
        start == u32_at(data@, header_size(data@) - 8) + data@.len() - segments(data@).len(),
        start <= 0x1_0000_0033,
        index < 0xffff_ffff,
        start + 25 * (index + 1) <= data@.len(),
    ensures
        r == function_start(data@, index as int),
{
    let total: usize = data.len();
    let at: u64 = start + 25 * index;
    proof {
        assert(at + 6 <= total);
        let base = data@.len() - segments(data@).len();
        assert(segments(data@)[at - base + 0] == data@[at + 0]);
        assert(segments(data@)[at - base + 1] == data@[at + 1]);
        assert(segments(data@)[at - base + 2] == data@[at + 2]);
        assert(segments(data@)[at - base + 3] == data@[at + 3]);
        assert(segments(data@)[at - base + 4] == data@[at + 4]);
        assert(segments(data@)[at - base + 4 + 1] == data@[at + 4 + 1]);
    }
    read_u32(data, at as usize) + 0x1_0000_0000 * read_u16(data, at as usize + 4)
}

/// Whether each inlined function of a symbol cache stands behind the function that it was inlined
/// into.
pub fn has_inlined_behind_parents(data: &[u8]) -> (r: bool)
    ensures
        r == inlined_behind_parents(data@),
{
    let (start, count) = match function_records(data) {
        Some(records) => records,
        None => return true,
    };
    let mut i: u64 = 0;
    while i < count
        invariant
            data@.len() >= 8,
            data@.len() >= header_size(data@),
            functions_inside(data@),
            start == u32_at(data@, header_size(data@) - 8) + data@.len() - segments(data@).len(),
            start <= 0x1_0000_0033,
            count == function_count(data@),
            start + 25 * count <= data@.len(),
            i <= count <= 0xffff_ffff,
            forall|j: int|
                #![trigger parent_offset(data@, j)]
                0 <= j < i ==> (parent_offset(data@, j) == 0xffff || 1 <= parent_offset(data@, j)
                    <= j),
        decreases count - i,
    {
        let offset: u64 = read_parent_offset(data, start, i);
        if offset != 0xffff && (offset < 1 || offset > i) {
            return false;
        }
        i += 1;
    }
    true
}

fn check_order(data: &[u8], start: u64, count: u64) -> (r: bool)
    requires
        data@.len() >= header_size(data@),
        start == u32_at(data@, header_size(data@) - 8) + data@.len() - segments(data@).len(),
        start <= 0x1_0000_0033,
        count == function_count(data@),
        count <= 0xffff_ffff,
        start + 25 * count <= data@.len(),
    ensures
        r == functions_ordered(data@),
{
    if count == 0 {
        return true;
    }
    let mut last: u64 = read_function_start(data, start, 0);
    let mut k: u64 = 1;
    while k < count
        invariant
            data@.len() >= header_size(data@),
            start == u32_at(data@, header_size(data@) - 8) + data@.len() - segments(data@).len(),
            start <= 0x1_0000_0033,
            count == function_count(data@),
            1 <= k <= count <= 0xffff_ffff,
            start + 25 * count <= data@.len(),
            last == function_start(data@, k - 1),
            forall|i: int, j: int|
                #![trigger function_start(data@, i), function_start(data@, j)]
                0 <= i <= j < k ==> function_start(data@, i) <= function_start(data@, j),
        decreases count - k,
    {
        let next: u64 = read_function_start(data, start, k);
        if next < last {
            assert(function_start(data@, k - 1) > function_start(data@, k as int));
            return false;
        }
        last = next;
        k += 1;
    }
    true
}

fn check_search(data: &[u8], start: u64, index: u64) -> (r: bool)
    requires
        data@.len() >= header_size(data@),
        start == u32_at(data@, header_size(data@) - 8) + data@.len() - segments(data@).len(),
        start <= 0x1_0000_0033,
        index < 0xffff_ffff,
        start + 25 * (index + 1) <= data@.len(),
    ensures
        r == search_ends(data@, index as int, index as int),
{
    let mut at: u64 = index;
    let mut first: u64 = index;
    loop
        invariant
            data@.len() >= header_size(data@),
            start == u32_at(data@, header_size(data@) - 8) + data@.len() - segments(data@).len(),
            start <= 0x1_0000_0033,
            first <= at <= index < 0xffff_ffff,
            start + 25 * (index + 1) <= data@.len(),
            search_ends(data@, index as int, index as int) == search_ends(
                data@,
                at as int,
                first as int,
            ),
        decreases at,
    {
        let offset: u64 = read_parent_offset(data, start, at);
        if offset != 0xffff {
            if offset < 1 || offset > at {
                return false;
            }
            if at - offset < first {
                first = at - offset;
            }
        }
        if first == at {
            return true;
        }
        at -= 1;
    }
}

/// Whether an address can be looked up in a symbol cache.
pub fn check_lookup(data: &[u8], addr: u64) -> (r: bool)
    ensures
        r == can_be_looked_up(data@, addr),
{
    let (start, count) = match function_records(data) {
        Some(records) => records,
        None => return true,
    };
    if !check_order(data, start, count) {
        return has_inlined_behind_parents(data);
    }
    let mut i: u64 = count;
    while i > 0
        invariant
            data@.len() >= 8,
            data@.len() >= header_size(data@),
            functions_inside(data@),
            functions_ordered(data@),
            start == u32_at(data@, header_size(data@) - 8) + data@.len() - segments(data@).len(),
            start <= 0x1_0000_0033,
            count == function_count(data@),
            start + 25 * count <= data@.len(),
            i <= count <= 0xffff_ffff,
            last_function(data@, addr, i as int) == last_function(data@, addr, count as int),
        decreases i,
    {
        if read_function_start(data, start, i - 1) <= addr {
            return check_search(data, start, i - 1);
        }
        i -= 1;
    }
    true
}

/// Two paths joined as `symbolic::common::join_path` does it.
pub uninterp spec fn joined_path(base: Seq<char>, other: Seq<char>) -> Seq<char>;

/// Calls `symbolic::common::join_path`. Claims that the path depends on the two paths alone.
#[verifier::external_body]
pub(crate) fn join_path(base: &str, other: &str) -> (r: String)
    ensures
        r@ == joined_path(base@, other@),
{
    symbolic::common::join_path(base, other)
}

/// A symbol cache of a version from two on can be searched for every address where each function
/// record names no parent, or one that stands before it. Function records have 25 bytes, and name
/// the parent in two of them.
pub proof fn law_searchable_cache(data: Seq<u8>, start: int, count: int, addr: u64)
    requires
        data.len() >= 68,
        2 <= u32_at(data, 4),
        start == data[60] + 0x100 * data[61] + 0x1_0000 * data[62] + 0x100_0000 * data[63],
        count == data[64] + 0x100 * data[65] + 0x1_0000 * data[66] + 0x100_0000 * data[67],
        forall|i: int|
            #![trigger parent_offset(data, i)]
            0 <= i < count ==> ({
                let offset = data[start + 25 * i + 19] + 0x100 * data[start + 25 * i + 20];
                offset == 0xffff || 1 <= offset <= i
            }),
    ensures
        can_be_looked_up(data, addr),
{
    law_sound_cache_can_be_looked_up(data, addr);
}

/// Bytes that start with `SYMC` and the number of a version are a symbol cache once the header is
/// whole. It names its architecture by its code.
pub proof fn law_symcache_header(data: Seq<u8>, arch: Arch)
    requires
        data.len() >= 68,
        data[0] == 0x53 && data[1] == 0x59 && data[2] == 0x4d && data[3] == 0x43,
        2 <= data[4] <= 5 && data[5] == 0 && data[6] == 0 && data[7] == 0,
        data[40] + 0x100 * data[41] + 0x1_0000 * data[42] + 0x100_0000 * data[43]
            == arch.spec_code(),
    ensures
        symcache_arch_code(data) == Some(arch.spec_code()),
{
    assert(data.take(4) =~= seq![0x53u8, 0x59, 0x4d, 0x43]);
    arch.law_code_round_trip();
}

/// Bytes that do not start with `SYMC`, or are too few for a header, are no symbol cache.
pub proof fn law_no_symcache(data: Seq<u8>)
    requires
        data.len() < 52 || data[0] != 0x53 || data[1] != 0x59 || data[2] != 0x4d || data[3] != 0x43,
    ensures
        symcache_arch_code(data) is None,
{
    if data.len() >= 8 {
        let start = data.take(4);
        assert(start[0] == data[0] && start[1] == data[1] && start[2] == data[2] && start[3]
            == data[3]);
        assert(seq![0x53u8, 0x59, 0x4d, 0x43][0] == 0x53);
    }
}

} // verus!
