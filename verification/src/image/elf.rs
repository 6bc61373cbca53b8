//! Packing of a Zephyr ELF into the presign image format: the file-backed loadable segments
//! are placed at their load addresses in the baremetal code slot, after a static-data record
//! that begins with a jump over it.

use vstd::prelude::*;

use goblin::elf::Elf;

use crate::image::error::ImageError;
use crate::image::layout::{
    BAREMETAL_CODE_END, BAREMETAL_CODE_ORIGIN, EM_RISCV, JUMP_INSTRUCTION, PT_LOAD,
    STATICS_IN_ROM_LEN,
};
use crate::text::{chars_to_string, dec_str, hex_min, push_dec, push_hex_min, push_str};

verus! {

/// The fields of an ELF program header that packing reads.
#[derive(Clone, Copy)]
pub struct ProgramHeader {
    pub p_type: u32,
    pub p_offset: u64,
    pub p_paddr: u64,
    pub p_filesz: u64,
    pub p_memsz: u64,
}

/// The fields of a parsed ELF that packing reads.
pub struct ElfSummary {
    pub machine: u16,
    pub is_64: bool,
    pub little_endian: bool,
    pub entry: u64,
    pub program_headers: Vec<ProgramHeader>,
}

/// The abstract value of an [`ElfSummary`].
pub struct ElfView {
    pub machine: u16,
    pub is_64: bool,
    pub little_endian: bool,
    pub entry: u64,
    pub program_headers: Seq<ProgramHeader>,
}

impl View for ElfSummary {
    type V = ElfView;

    open spec fn view(&self) -> ElfView {
        ElfView {
            machine: self.machine,
            is_64: self.is_64,
            little_endian: self.little_endian,
            entry: self.entry,
            program_headers: self.program_headers@,
        }
    }
}

/// What `goblin` makes of the bytes `data`: the parsed ELF, or the text of its error.
pub uninterp spec fn elf_parse(data: Seq<u8>) -> Result<ElfView, Seq<char>>;

/// The abstract value of a parse result.
pub open spec fn parse_view(r: Result<ElfSummary, String>) -> Result<ElfView, Seq<char>> {
    match r {
        Ok(elf) => Ok(elf@),
        Err(m) => Err(m@),
    }
}

/// Parses `data` with `goblin::elf::Elf::parse` and copies out the header fields and program
/// headers; an error becomes its display text. The contract claims only that the outcome,
/// when the call returns, is a function of the bytes, named [`elf_parse`]. Whether goblin
/// returns on every malformed input rather than panicking is not established (its parser
/// reads program and section headers, the dynamic section, symbols, relocations, notes and
/// version sections), so the call may unwind, as Verus allows an unmarked function to.
#[verifier::external_body]
fn parse_elf(data: &[u8]) -> (r: Result<ElfSummary, String>)
    ensures
        parse_view(r) == elf_parse(data@),
{
    match Elf::parse(data) {
        Ok(elf) => Ok(ElfSummary {
            machine: elf.header.e_machine, is_64: elf.is_64, little_endian: elf.little_endian,
            entry: elf.entry,
            program_headers: elf.program_headers.iter().map(|h| ProgramHeader {
                p_type: h.p_type, p_offset: h.p_offset, p_paddr: h.p_paddr,
                p_filesz: h.p_filesz, p_memsz: h.p_memsz,
            }).collect(),
        }),
        Err(error) => Err(error.to_string()),
    }
}

/// A file-backed loadable segment: where its bytes are in the file, and where they load.
#[derive(Clone, Copy)]
pub struct LoadSegment {
    pub offset: usize,
    pub physical_address: u64,
    pub file_size: usize,
}

/// The message of a failed conversion of a 64-bit file offset or size to `usize`.
pub open spec fn conversion_message() -> Seq<char> {
    "out of range integral type conversion attempted"@
}

/// The file-backed `PT_LOAD` segments of the first `n` program headers, in header order, or
/// the message of the first problem, for a file of `data_len` bytes.
pub open spec fn load_segments(headers: Seq<ProgramHeader>, data_len: nat, n: int) -> Result<
    Seq<LoadSegment>,
    Seq<char>,
>
    decreases n,
{
    if n <= 0 {
        Ok(seq![])
    } else {
        match load_segments(headers, data_len, n - 1) {
            Err(m) => Err(m),
            Ok(segments) => {
                let h = headers[n - 1];
                let index = dec_str((n - 1) as nat);
                if h.p_type != PT_LOAD || h.p_filesz == 0 {
                    Ok(segments)
                } else if h.p_filesz > h.p_memsz {
                    Err("PT_LOAD "@ + index + " has p_filesz greater than p_memsz"@)
                } else if h.p_offset > usize::MAX || h.p_filesz > usize::MAX {
                    Err(conversion_message())
                } else if h.p_offset + h.p_filesz > usize::MAX {
                    Err("PT_LOAD "@ + index + " file range overflows"@)
                } else if h.p_offset + h.p_filesz > data_len {
                    Err("PT_LOAD "@ + index + " extends beyond the file"@)
                } else {
                    Ok(
                        segments.push(
                            LoadSegment {
                                offset: h.p_offset as usize,
                                physical_address: h.p_paddr,
                                file_size: h.p_filesz as usize,
                            },
                        ),
                    )
                }
            },
        }
    }
}

/// Every segment of `segments` lies within a file of `data_len` bytes.
pub open spec fn within_file(segments: Seq<LoadSegment>, data_len: nat) -> bool {
    forall|i: int|
        0 <= i < segments.len() ==> (#[trigger] segments[i]).offset + segments[i].file_size
            <= data_len
}

proof fn lemma_load_segments_within_file(headers: Seq<ProgramHeader>, data_len: nat, n: int)
    ensures
        load_segments(headers, data_len, n) matches Ok(segments) ==> within_file(
            segments,
            data_len,
        ),
    decreases n,
{
    if n > 0 {
        lemma_load_segments_within_file(headers, data_len, n - 1);
    }
}

/// An error whose message is the characters `m`.
fn error_of(m: &Vec<char>) -> (e: ImageError)
    ensures
        e@ == m@,
{
    ImageError::new(chars_to_string(m))
}

/// An error whose message is the literal `m`.
fn error_str(m: &str) -> (e: ImageError)
    ensures
        e@ == m@,
{
    let mut out: Vec<char> = Vec::new();
    push_str(&mut out, m);
    error_of(&out)
}

/// An error "PT_LOAD {index}{rest}".
fn segment_error(index: usize, rest: &str) -> (e: ImageError)
    ensures
        e@ == "PT_LOAD "@ + dec_str(index as nat) + rest@,
{
    let mut m: Vec<char> = Vec::new();
    push_str(&mut m, "PT_LOAD ");
    push_dec(&mut m, index as u64);
    push_str(&mut m, rest);
    error_of(&m)
}

/// The file-backed `PT_LOAD` segments of `headers`, in header order, for a file of
/// `data_len` bytes.
pub fn collect_load_segments(headers: &Vec<ProgramHeader>, data_len: usize) -> (r: Result<
    Vec<LoadSegment>,
    ImageError,
>)
    ensures
        match r {
            Ok(segments) => load_segments(headers@, data_len as nat, headers@.len() as int)
                == Ok::<Seq<LoadSegment>, Seq<char>>(segments@),
            Err(e) => load_segments(headers@, data_len as nat, headers@.len() as int)
                == Err::<Seq<LoadSegment>, Seq<char>>(e@),
        },
{
    let n = headers.len();
    let mut segments: Vec<LoadSegment> = Vec::new();
    let mut i: usize = 0;
    while i < n
        invariant
            n == headers@.len(),
            i <= n,
            load_segments(headers@, data_len as nat, i as int) == Ok::<
                Seq<LoadSegment>,
                Seq<char>,
            >(segments@),
        decreases n - i,
    {
        let h = headers[i];
        if h.p_type == PT_LOAD && h.p_filesz != 0 {
            if h.p_filesz > h.p_memsz {
                let e = segment_error(i, " has p_filesz greater than p_memsz");
                proof {
                    lemma_error_sticks(headers@, data_len as nat, i as int + 1, n as int, e@);
                }
                return Err(e);
            }
            if h.p_offset > usize::MAX as u64 || h.p_filesz > usize::MAX as u64 {
                let e = error_str("out of range integral type conversion attempted");
                proof {
                    lemma_error_sticks(headers@, data_len as nat, i as int + 1, n as int, e@);
                }
                return Err(e);
            }
            let offset = h.p_offset as usize;
            let file_size = h.p_filesz as usize;
            let file_end = match offset.checked_add(file_size) {
                None => {
                    let e = segment_error(i, " file range overflows");
                    proof {
                        lemma_error_sticks(headers@, data_len as nat, i as int + 1, n as int, e@);
                    }
                    return Err(e);
                },
                Some(end) => end,
            };
            if file_end > data_len {
                let e = segment_error(i, " extends beyond the file");
                proof {
                    lemma_error_sticks(headers@, data_len as nat, i as int + 1, n as int, e@);
                }
                return Err(e);
            }
            segments.push(LoadSegment { offset, physical_address: h.p_paddr, file_size });
        }
        i = i + 1;
    }
    Ok(segments)
}

/// Once collection fails, it fails with the same message however many headers follow.
proof fn lemma_error_sticks(headers: Seq<ProgramHeader>, data_len: nat, k: int, n: int, m: Seq<
    char,
>)
    requires
        0 <= k <= n,
        load_segments(headers, data_len, k) == Err::<Seq<LoadSegment>, Seq<char>>(m),
    ensures
        load_segments(headers, data_len, n) == Err::<Seq<LoadSegment>, Seq<char>>(m),
    decreases n - k,
{
    if k < n {
        lemma_error_sticks(headers, data_len, k, n - 1, m);
    }
}

/// `sorted` with `x` inserted after every element whose load address is at most that of
/// `x`: one step of a stable sort by load address.
pub open spec fn insert_by_address(sorted: Seq<LoadSegment>, x: LoadSegment) -> Seq<LoadSegment>
    decreases sorted.len(),
{
    if sorted.len() == 0 {
        seq![x]
    } else if sorted.last().physical_address <= x.physical_address {
        sorted.push(x)
    } else {
        insert_by_address(sorted.drop_last(), x).push(sorted.last())
    }
}

/// `segments` stably sorted by load address: segments with equal addresses keep their order.
pub open spec fn sort_by_address(segments: Seq<LoadSegment>) -> Seq<LoadSegment>
    decreases segments.len(),
{
    if segments.len() == 0 {
        seq![]
    } else {
        insert_by_address(sort_by_address(segments.drop_last()), segments.last())
    }
}

/// Where [`insert_by_address`] puts `x`.
pub open spec fn insert_position(sorted: Seq<LoadSegment>, x: LoadSegment) -> int
    decreases sorted.len(),
{
    if sorted.len() == 0 {
        0
    } else if sorted.last().physical_address <= x.physical_address {
        sorted.len() as int
    } else {
        insert_position(sorted.drop_last(), x)
    }
}

proof fn lemma_insert_at_position(sorted: Seq<LoadSegment>, x: LoadSegment)
    ensures
        0 <= insert_position(sorted, x) <= sorted.len(),
        insert_by_address(sorted, x) == sorted.insert(insert_position(sorted, x), x),
    decreases sorted.len(),
{
    if sorted.len() > 0 && sorted.last().physical_address > x.physical_address {
        lemma_insert_at_position(sorted.drop_last(), x);
        assert(insert_by_address(sorted, x) =~= sorted.insert(insert_position(sorted, x), x));
    } else if sorted.len() > 0 {
        assert(sorted.push(x) =~= sorted.insert(sorted.len() as int, x));
    } else {
        assert(seq![x] =~= sorted.insert(0, x));
    }
}

/// The position found by scanning back over the elements whose address exceeds that of `x`
/// is [`insert_position`].
proof fn lemma_scan_finds_position(sorted: Seq<LoadSegment>, x: LoadSegment, j: int)
    requires
        0 <= j <= sorted.len(),
        j == 0 || sorted[j - 1].physical_address <= x.physical_address,
        forall|k: int| j <= k < sorted.len() ==> sorted[k].physical_address > x.physical_address,
    ensures
        insert_position(sorted, x) == j,
    decreases sorted.len(),
{
    if sorted.len() > j {
        lemma_scan_finds_position(sorted.drop_last(), x, j);
    }
}

/// Stably sorts `segments` by load address (insertion sort).
pub fn sort_segments(segments: &Vec<LoadSegment>) -> (sorted: Vec<LoadSegment>)
    ensures
        sorted@ == sort_by_address(segments@),
{
    let n = segments.len();
    let mut out: Vec<LoadSegment> = Vec::new();
    let mut i: usize = 0;
    while i < n
        invariant
            n == segments@.len(),
            i <= n,
            out@ == sort_by_address(segments@.take(i as int)),
        decreases n - i,
    {
        let x = segments[i];
        let mut j = out.len();
        while j > 0 && out[j - 1].physical_address > x.physical_address
            invariant
                j <= out@.len(),
                forall|k: int|
                    j <= k < out@.len() ==> out@[k].physical_address > x.physical_address,
            decreases j,
        {
            j = j - 1;
        }
        proof {
            lemma_scan_finds_position(out@, x, j as int);
            lemma_insert_at_position(out@, x);
            assert(segments@.take(i + 1).drop_last() =~= segments@.take(i as int));
        }
        out.insert(j, x);
        i = i + 1;
    }
    assert(segments@.take(n as int) =~= segments@);
    out
}

/// Where segment `s` ends in the address space.
pub open spec fn segment_end(s: LoadSegment) -> int {
    s.physical_address + s.file_size
}

/// The message of a segment that loads outside the baremetal code slot.
pub open spec fn outside_slot_message(start: nat, end: nat) -> Seq<char> {
    "PT_LOAD LMA range 0x"@ + hex_min(start, 8) + "..0x"@ + hex_min(end, 8)
        + " is outside the baremetal code slot 0x"@ + hex_min(BAREMETAL_CODE_ORIGIN as nat, 8)
        + "..0x"@ + hex_min(BAREMETAL_CODE_END as nat, 8)
        + "; initialized RAM sections must use a ROM load address"@
}

/// The first problem with the placement of the sorted `segments` from the `i`th on, when
/// the previous one ends at `previous_end`: an address range that overflows, leaves the code
/// slot, or overlaps the previous one.
pub open spec fn layout_problem(segments: Seq<LoadSegment>, i: int, previous_end: int) -> Option<
    Seq<char>,
>
    decreases segments.len() - i,
{
    if i < 0 || i >= segments.len() {
        None
    } else {
        let s = segments[i];
        let end = segment_end(s);
        if end > u64::MAX {
            Some("PT_LOAD address range overflows"@)
        } else if s.physical_address < BAREMETAL_CODE_ORIGIN || end > BAREMETAL_CODE_END {
            Some(outside_slot_message(s.physical_address as nat, end as nat))
        } else if s.physical_address < previous_end {
            Some("overlapping PT_LOAD segments at LMA 0x"@ + hex_min(s.physical_address as nat, 8))
        } else {
            layout_problem(segments, i + 1, end)
        }
    }
}

/// Segments `i` on lie in the code slot, each starting at or after the end of the one before
/// it (the first at or after `previous_end`).
pub open spec fn laid_out(segments: Seq<LoadSegment>, i: int, previous_end: int) -> bool {
    &&& forall|k: int|
        i <= k < segments.len() ==> BAREMETAL_CODE_ORIGIN <= (#[trigger] segments[k]).physical_address
            && segment_end(segments[k]) <= BAREMETAL_CODE_END
    &&& forall|k: int|
        i < k < segments.len() ==> segment_end(segments[k - 1]) <= (
        #[trigger] segments[k]).physical_address
    &&& (0 <= i < segments.len() ==> previous_end <= segments[i].physical_address)
}

proof fn lemma_layout_ok(segments: Seq<LoadSegment>, i: int, previous_end: int)
    requires
        0 <= i,
        layout_problem(segments, i, previous_end) is None,
    ensures
        laid_out(segments, i, previous_end),
    decreases segments.len() - i,
{
    if i < segments.len() {
        lemma_layout_ok(segments, i + 1, segment_end(segments[i]));
    }
}

/// Checks the placement of the sorted `segments` in the code slot.
fn check_layout(segments: &Vec<LoadSegment>) -> (r: Result<(), ImageError>)
    ensures
        match r {
            Ok(()) => layout_problem(segments@, 0, BAREMETAL_CODE_ORIGIN as int) is None,
            Err(e) => layout_problem(segments@, 0, BAREMETAL_CODE_ORIGIN as int) == Some(e@),
        },
{
    let n = segments.len();
    let mut previous_end: u64 = BAREMETAL_CODE_ORIGIN;
    let mut i: usize = 0;
    while i < n
        invariant
            n == segments@.len(),
            i <= n,
            layout_problem(segments@, 0, BAREMETAL_CODE_ORIGIN as int) == layout_problem(
                segments@,
                i as int,
                previous_end as int,
            ),
        decreases n - i,
    {
        let s = segments[i];
        let end = match s.physical_address.checked_add(s.file_size as u64) {
            None => {
                return Err(error_str("PT_LOAD address range overflows"));
            },
            Some(end) => end,
        };
        if s.physical_address < BAREMETAL_CODE_ORIGIN || end > BAREMETAL_CODE_END {
            let mut m: Vec<char> = Vec::new();
            push_str(&mut m, "PT_LOAD LMA range 0x");
            push_hex_min(&mut m, s.physical_address, 8);
            push_str(&mut m, "..0x");
            push_hex_min(&mut m, end, 8);
            push_str(&mut m, " is outside the baremetal code slot 0x");
            push_hex_min(&mut m, BAREMETAL_CODE_ORIGIN, 8);
            push_str(&mut m, "..0x");
            push_hex_min(&mut m, BAREMETAL_CODE_END, 8);
            push_str(&mut m, "; initialized RAM sections must use a ROM load address");
            return Err(error_of(&m));
        }
        if s.physical_address < previous_end {
            let mut m: Vec<char> = Vec::new();
            push_str(&mut m, "overlapping PT_LOAD segments at LMA 0x");
            push_hex_min(&mut m, s.physical_address, 8);
            return Err(error_of(&m));
        }
        previous_end = end;
        i = i + 1;
    }
    Ok(())
}

/// The largest end address of the first `n` segments (0 for none).
pub open spec fn max_end(segments: Seq<LoadSegment>, n: int) -> int
    decreases n,
{
    if n <= 0 {
        0
    } else {
        let rest = max_end(segments, n - 1);
        let end = segment_end(segments[n - 1]);
        if end > rest {
            end
        } else {
            rest
        }
    }
}

proof fn lemma_max_end_bounds(segments: Seq<LoadSegment>, n: int)
    requires
        0 <= n <= segments.len(),
    ensures
        forall|k: int| 0 <= k < n ==> segment_end(#[trigger] segments[k]) <= max_end(segments, n),
        n > 0 ==> exists|k: int| 0 <= k < n && max_end(segments, n) == segment_end(#[trigger] segments[k]),
    decreases n,
{
    if n > 0 {
        lemma_max_end_bounds(segments, n - 1);
        if n > 1 && max_end(segments, n) == max_end(segments, n - 1) {
            let k = choose|k: int| 0 <= k < n - 1 && max_end(segments, n - 1) == segment_end(
                #[trigger] segments[k],
            );
            assert(0 <= k < n && max_end(segments, n) == segment_end(segments[k]));
        } else {
            if n == 1 {
                assert(max_end(segments, 0) == 0);
            }
            assert(max_end(segments, n) == segment_end(segments[n - 1]));
        }
    }
}

/// The largest end address of `segments`, which lie in the code slot.
fn program_end(segments: &Vec<LoadSegment>) -> (end: u64)
    requires
        laid_out(segments@, 0, BAREMETAL_CODE_ORIGIN as int),
    ensures
        end == max_end(segments@, segments@.len() as int),
{
    let n = segments.len();
    let mut best: u64 = 0;
    let mut i: usize = 0;
    while i < n
        invariant
            n == segments@.len(),
            i <= n,
            laid_out(segments@, 0, BAREMETAL_CODE_ORIGIN as int),
            best == max_end(segments@, i as int),
        decreases n - i,
    {
        let s = segments[i];
        assert(BAREMETAL_CODE_ORIGIN <= segments@[i as int].physical_address);
        let end = s.physical_address + s.file_size as u64;
        if end > best {
            best = end;
        }
        i = i + 1;
    }
    best
}

/// A zero-filled program of `size` bytes with the bytes of the first `n` segments of `data`
/// copied, in order, to their load addresses relative to the code origin.
pub open spec fn place_segments(data: Seq<u8>, segments: Seq<LoadSegment>, n: int, size: nat) -> Seq<
    u8,
>
    decreases n,
{
    if n <= 0 {
        Seq::new(size, |_i: int| 0u8)
    } else {
        let previous = place_segments(data, segments, n - 1, size);
        let s = segments[n - 1];
        let d = s.physical_address - BAREMETAL_CODE_ORIGIN;
        previous.take(d) + data.subrange(s.offset as int, s.offset + s.file_size) + previous.skip(
            d + s.file_size,
        )
    }
}

/// Every segment of `segments` loads at or after the code origin and ends within `size`
/// bytes of it.
pub open spec fn fits_program(segments: Seq<LoadSegment>, size: nat) -> bool {
    forall|k: int|
        0 <= k < segments.len() ==> BAREMETAL_CODE_ORIGIN <= (
        #[trigger] segments[k]).physical_address && segment_end(segments[k])
            <= BAREMETAL_CODE_ORIGIN + size
}

proof fn lemma_place_len(data: Seq<u8>, segments: Seq<LoadSegment>, n: int, size: nat)
    requires
        0 <= n <= segments.len(),
        fits_program(segments, size),
        within_file(segments, data.len()),
    ensures
        place_segments(data, segments, n, size).len() == size,
    decreases n,
{
    if n > 0 {
        lemma_place_len(data, segments, n - 1, size);
        assert(BAREMETAL_CODE_ORIGIN <= segments[n - 1].physical_address);
        assert(segments[n - 1].offset + segments[n - 1].file_size <= data.len());
    }
}

/// Copies the bytes of `segments` from `data` into a zero-filled program of `size` bytes.
fn place(data: &[u8], segments: &Vec<LoadSegment>, size: usize) -> (program: Vec<u8>)
    requires
        fits_program(segments@, size as nat),
        within_file(segments@, data@.len()),
    ensures
        program@ == place_segments(data@, segments@, segments@.len() as int, size as nat),
{
    let mut program: Vec<u8> = Vec::new();
    let mut z: usize = 0;
    while z < size
        invariant
            z <= size,
            program@ == Seq::new(z as nat, |_i: int| 0u8),
        decreases size - z,
    {
        program.push(0);
        z = z + 1;
        assert(program@ =~= Seq::new(z as nat, |_i: int| 0u8));
    }
    let n = segments.len();
    let mut i: usize = 0;
    while i < n
        invariant
            n == segments@.len(),
            i <= n,
            fits_program(segments@, size as nat),
            within_file(segments@, data@.len()),
            program@ == place_segments(data@, segments@, i as int, size as nat),
        decreases n - i,
    {
        proof {
            lemma_place_len(data@, segments@, i as int, size as nat);
        }
        let s = segments[i];
        assert(BAREMETAL_CODE_ORIGIN <= segments@[i as int].physical_address);
        assert(s.offset + s.file_size <= data@.len());
        let d = (s.physical_address - BAREMETAL_CODE_ORIGIN) as usize;
        let ghost previous = program@;
        let mut j: usize = 0;
        while j < s.file_size
            invariant
                j <= s.file_size,
                d + s.file_size <= size,
                previous.len() == size,
                s.offset + s.file_size <= data@.len(),
                data@.len() == data.len(),
                program@ == previous.take(d as int) + data@.subrange(
                    s.offset as int,
                    s.offset + j,
                ) + previous.skip(d + j),
            decreases s.file_size - j,
        {
            program.set(d + j, data[s.offset + j]);
            j = j + 1;
            assert(program@ =~= previous.take(d as int) + data@.subrange(
                s.offset as int,
                s.offset + j,
            ) + previous.skip(d + j));
        }
        i = i + 1;
    }
    program
}

proof fn lemma_insert_len_within(sorted: Seq<LoadSegment>, x: LoadSegment, data_len: nat)
    ensures
        insert_by_address(sorted, x).len() == sorted.len() + 1,
        within_file(sorted, data_len) && x.offset + x.file_size <= data_len ==> within_file(
            insert_by_address(sorted, x),
            data_len,
        ),
    decreases sorted.len(),
{
    if sorted.len() > 0 && sorted.last().physical_address > x.physical_address {
        lemma_insert_len_within(sorted.drop_last(), x, data_len);
        let r = insert_by_address(sorted, x);
        if within_file(sorted, data_len) && x.offset + x.file_size <= data_len {
            assert forall|i: int| 0 <= i < r.len() implies (#[trigger] r[i]).offset
                + r[i].file_size <= data_len by {
                if i < r.len() - 1 {
                    assert(r[i] == insert_by_address(sorted.drop_last(), x)[i]);
                } else {
                    assert(r[i] == sorted[sorted.len() - 1]);
                }
            }
        }
    }
}

proof fn lemma_sort_len_within(segments: Seq<LoadSegment>, data_len: nat)
    ensures
        sort_by_address(segments).len() == segments.len(),
        within_file(segments, data_len) ==> within_file(sort_by_address(segments), data_len),
    decreases segments.len(),
{
    if segments.len() > 0 {
        lemma_sort_len_within(segments.drop_last(), data_len);
        lemma_insert_len_within(sort_by_address(segments.drop_last()), segments.last(), data_len);
        if within_file(segments, data_len) {
            assert(within_file(segments.drop_last(), data_len));
            assert(segments.last() == segments[segments.len() - 1]);
        }
    }
}

/// The presign image of the ELF bytes, and the size of its program.
pub struct PackedImage {
    pub packed: Vec<u8>,
    pub program_size: usize,
}

/// The abstract value of a packing outcome: the image bytes and program size, or the message.
pub open spec fn packed_view(r: Result<PackedImage, ImageError>) -> Result<(Seq<u8>, usize), Seq<char>> {
    match r {
        Ok(p) => Ok((p.packed@, p.program_size)),
        Err(e) => Err(e@),
    }
}

/// The little-endian bytes of the code trampoline.
pub open spec fn jump_bytes() -> Seq<u8> {
    seq![
        (JUMP_INSTRUCTION % 256) as u8,
        (JUMP_INSTRUCTION / 256 % 256) as u8,
        (JUMP_INSTRUCTION / 65536 % 256) as u8,
        (JUMP_INSTRUCTION / 16777216) as u8,
    ]
}

/// The presign image of `program`: the code trampoline, zeros up to the size of the
/// static-data record, then the program.
pub open spec fn presign_image(program: Seq<u8>) -> Seq<u8> {
    jump_bytes() + Seq::new((STATICS_IN_ROM_LEN - 4) as nat, |_i: int| 0u8) + program
}

/// What packing the ELF `elf`, parsed from `data`, gives: the presign image and its program
/// size, or the message of the first problem.
pub open spec fn pack_spec(data: Seq<u8>, elf: ElfView) -> Result<(Seq<u8>, usize), Seq<char>> {
    if elf.machine != EM_RISCV {
        Err(
            "ELF machine is "@ + dec_str(elf.machine as nat) + ", expected RISC-V ("@ + dec_str(
                EM_RISCV as nat,
            ) + ")"@,
        )
    } else if !elf.is_64 && !elf.little_endian {
        Err("only little-endian ELF32 images are supported"@)
    } else if elf.is_64 {
        Err("only ELF32 images are supported"@)
    } else if elf.entry != BAREMETAL_CODE_ORIGIN {
        Err(
            "ELF entry is 0x"@ + hex_min(elf.entry as nat, 8) + ", expected 0x"@ + hex_min(
                BAREMETAL_CODE_ORIGIN as nat,
                8,
            ),
        )
    } else {
        match load_segments(elf.program_headers, data.len(), elf.program_headers.len() as int) {
            Err(m) => Err(m),
            Ok(segments) => {
                let sorted = sort_by_address(segments);
                if segments.len() == 0 {
                    Err("ELF has no file-backed PT_LOAD segments"@)
                } else if sorted[0].physical_address != BAREMETAL_CODE_ORIGIN {
                    Err(
                        "first PT_LOAD LMA is 0x"@ + hex_min(sorted[0].physical_address as nat, 8)
                            + ", expected 0x"@ + hex_min(BAREMETAL_CODE_ORIGIN as nat, 8),
                    )
                } else {
                    match layout_problem(sorted, 0, BAREMETAL_CODE_ORIGIN as int) {
                        Some(m) => Err(m),
                        None => {
                            let size = (max_end(sorted, sorted.len() as int)
                                - BAREMETAL_CODE_ORIGIN) as nat;
                            Ok(
                                (
                                    presign_image(
                                        place_segments(data, sorted, sorted.len() as int, size),
                                    ),
                                    size as usize,
                                ),
                            )
                        },
                    }
                }
            },
        }
    }
}

/// An error "{before}0x{value:08x}{after}0x{expected:08x}".
fn address_error(before: &str, value: u64, after: &str, expected: u64) -> (e: ImageError)
    ensures
        e@ == before@ + hex_min(value as nat, 8) + after@ + hex_min(expected as nat, 8),
{
    let mut m: Vec<char> = Vec::new();
    push_str(&mut m, before);
    push_hex_min(&mut m, value, 8);
    push_str(&mut m, after);
    push_hex_min(&mut m, expected, 8);
    error_of(&m)
}

/// Packs the ELF `elf`, parsed from `data`, into the presign image: checks the machine, class,
/// byte order and entry point, collects the file-backed `PT_LOAD` segments, sorts them by load
/// address, checks that they lie in the code slot without overlapping, and copies them to
/// their load addresses after the static-data record.
pub fn pack_parsed_elf(data: &[u8], elf: &ElfSummary) -> (r: Result<PackedImage, ImageError>)
    ensures
        packed_view(r) == pack_spec(data@, elf@),
{
    if elf.machine != EM_RISCV {
        let mut m: Vec<char> = Vec::new();
        push_str(&mut m, "ELF machine is ");
        push_dec(&mut m, elf.machine as u64);
        push_str(&mut m, ", expected RISC-V (");
        push_dec(&mut m, EM_RISCV as u64);
        push_str(&mut m, ")");
        return Err(error_of(&m));
    }
    if !elf.is_64 && !elf.little_endian {
        return Err(error_str("only little-endian ELF32 images are supported"));
    }
    if elf.is_64 {
        return Err(error_str("only ELF32 images are supported"));
    }
    if elf.entry != BAREMETAL_CODE_ORIGIN {
        return Err(address_error("ELF entry is 0x", elf.entry, ", expected 0x", BAREMETAL_CODE_ORIGIN));
    }
    let segments = match collect_load_segments(&elf.program_headers, data.len()) {
        Err(e) => {
            return Err(e);
        },
        Ok(segments) => segments,
    };
    proof {
        lemma_load_segments_within_file(
            elf.program_headers@,
            data@.len(),
            elf.program_headers@.len() as int,
        );
        lemma_sort_len_within(segments@, data@.len());
    }
    if segments.len() == 0 {
        return Err(error_str("ELF has no file-backed PT_LOAD segments"));
    }
    let sorted = sort_segments(&segments);
    if sorted[0].physical_address != BAREMETAL_CODE_ORIGIN {
        return Err(
            address_error(
                "first PT_LOAD LMA is 0x",
                sorted[0].physical_address,
                ", expected 0x",
                BAREMETAL_CODE_ORIGIN,
            ),
        );
    }
    match check_layout(&sorted) {
        Err(e) => {
            return Err(e);
        },
        Ok(()) => {},
    }
    let ghost n = sorted@.len() as int;
    proof {
        lemma_layout_ok(sorted@, 0, BAREMETAL_CODE_ORIGIN as int);
        lemma_max_end_bounds(sorted@, n);
        let k = choose|k: int| 0 <= k < n && max_end(sorted@, n) == segment_end(
            #[trigger] sorted@[k],
        );
        assert(BAREMETAL_CODE_ORIGIN <= sorted@[k].physical_address);
    }
    let end = program_end(&sorted);
    let size = (end - BAREMETAL_CODE_ORIGIN) as usize;
    assert(fits_program(sorted@, size as nat)) by {
        assert forall|k: int| 0 <= k < n implies BAREMETAL_CODE_ORIGIN <= (
        #[trigger] sorted@[k]).physical_address && segment_end(sorted@[k])
            <= BAREMETAL_CODE_ORIGIN + size by {
            assert(segment_end(sorted@[k]) <= max_end(sorted@, n));
        }
    }
    let mut program = place(data, &sorted, size);
    let mut packed: Vec<u8> = Vec::new();
    packed.push((JUMP_INSTRUCTION % 256) as u8);
    packed.push((JUMP_INSTRUCTION / 256 % 256) as u8);
    packed.push((JUMP_INSTRUCTION / 65536 % 256) as u8);
    packed.push((JUMP_INSTRUCTION / 16777216) as u8);
    assert(packed@ =~= jump_bytes());
    while packed.len() < STATICS_IN_ROM_LEN
        invariant
            4 <= packed@.len() <= STATICS_IN_ROM_LEN,
            packed@ == jump_bytes() + Seq::new((packed@.len() - 4) as nat, |_i: int| 0u8),
        decreases STATICS_IN_ROM_LEN - packed@.len(),
    {
        packed.push(0);
        assert(packed@ =~= jump_bytes() + Seq::new((packed@.len() - 4) as nat, |_i: int| 0u8));
    }
    packed.append(&mut program);
    Ok(PackedImage { packed, program_size: size })
}

/// Packs the ELF file `data` into the presign image: parses it with `goblin` (its error
/// message, if it does not parse), then [`pack_parsed_elf`]. The contract holds whenever the
/// function returns; it does not promise a return, since the goblin parse it starts with may
/// panic on some malformed input. [`pack_parsed_elf`], which does the rest, never panics.
pub fn pack_elf_bytes(data: &[u8]) -> (r: Result<PackedImage, ImageError>)
    ensures
        match elf_parse(data@) {
            Ok(elf) => packed_view(r) == pack_spec(data@, elf),
            Err(m) => packed_view(r) == Err::<(Seq<u8>, usize), Seq<char>>(m),
        },
{
    match parse_elf(data) {
        Ok(elf) => pack_parsed_elf(data, &elf),
        Err(m) => Err(ImageError::new(m)),
    }
}

proof fn lemma_insert_members(sorted: Seq<LoadSegment>, x: LoadSegment)
    ensures
        forall|y: LoadSegment| #[trigger]
            insert_by_address(sorted, x).contains(y) <==> (sorted.contains(y) || y == x),
    decreases sorted.len(),
{
    let r = insert_by_address(sorted, x);
    if sorted.len() == 0 {
        assert forall|y: LoadSegment| #[trigger] r.contains(y) <==> (sorted.contains(y) || y == x) by {
            if r.contains(y) {
                let i = choose|i: int| 0 <= i < r.len() && r[i] == y;
                assert(i == 0);
            }
            if y == x {
                assert(r[0] == y);
            }
        }
    } else if sorted.last().physical_address <= x.physical_address {
        assert forall|y: LoadSegment| #[trigger] r.contains(y) <==> (sorted.contains(y) || y == x) by {
            if r.contains(y) {
                let i = choose|i: int| 0 <= i < r.len() && r[i] == y;
                if i < sorted.len() {
                    assert(sorted[i] == y);
                }
            }
            if sorted.contains(y) {
                let i = choose|i: int| 0 <= i < sorted.len() && sorted[i] == y;
                assert(r[i] == y);
            }
            if y == x {
                assert(r[sorted.len() as int] == y);
            }
        }
    } else {
        let front = sorted.drop_last();
        lemma_insert_members(front, x);
        let inner = insert_by_address(front, x);
        assert forall|y: LoadSegment| #[trigger] r.contains(y) <==> (sorted.contains(y) || y == x) by {
            if r.contains(y) {
                let i = choose|i: int| 0 <= i < r.len() && r[i] == y;
                if i < inner.len() {
                    assert(inner[i] == y);
                    assert(inner.contains(y));
                    if front.contains(y) {
                        let k = choose|k: int| 0 <= k < front.len() && front[k] == y;
                        assert(sorted[k] == y);
                    }
                } else {
                    assert(sorted[sorted.len() - 1] == y);
                }
            }
            if sorted.contains(y) {
                let i = choose|i: int| 0 <= i < sorted.len() && sorted[i] == y;
                if i < sorted.len() - 1 {
                    assert(front[i] == y);
                    assert(front.contains(y));
                    assert(inner.contains(y));
                    let k = choose|k: int| 0 <= k < inner.len() && inner[k] == y;
                    assert(r[k] == y);
                } else {
                    assert(r[r.len() - 1] == y);
                }
            }
            if y == x {
                assert(inner.contains(y));
                let k = choose|k: int| 0 <= k < inner.len() && inner[k] == y;
                assert(r[k] == y);
            }
        }
    }
}

/// Sorting keeps exactly the segments it was given.
proof fn lemma_sort_members(segments: Seq<LoadSegment>)
    ensures
        forall|y: LoadSegment| #[trigger]
            sort_by_address(segments).contains(y) <==> segments.contains(y),
    decreases segments.len(),
{
    if segments.len() > 0 {
        let front = segments.drop_last();
        lemma_sort_members(front);
        lemma_insert_members(sort_by_address(front), segments.last());
        assert forall|y: LoadSegment| #[trigger]
            sort_by_address(segments).contains(y) <==> segments.contains(y) by {
            if segments.contains(y) {
                let i = choose|i: int| 0 <= i < segments.len() && segments[i] == y;
                if i < segments.len() - 1 {
                    assert(front[i] == y);
                    assert(front.contains(y));
                }
            }
            if front.contains(y) {
                let i = choose|i: int| 0 <= i < front.len() && front[i] == y;
                assert(segments[i] == y);
            }
            if y == segments.last() {
                assert(segments[segments.len() - 1] == y);
            }
        }
    }
}

/// In a laid-out sequence, every segment ends at or before the start of every later one.
proof fn lemma_laid_out_ordered(segments: Seq<LoadSegment>, a: int, b: int)
    requires
        laid_out(segments, 0, BAREMETAL_CODE_ORIGIN as int),
        0 <= a < b < segments.len(),
    ensures
        segment_end(segments[a]) <= segments[b].physical_address,
    decreases b - a,
{
    if a + 1 < b {
        lemma_laid_out_ordered(segments, a, b - 1);
        assert(segment_end(segments[b - 1]) <= segments[b].physical_address);
    } else {
        assert(segment_end(segments[b - 1]) <= segments[b].physical_address);
    }
}

/// Byte `j` of segment `s` in the presign image `packed`.
pub open spec fn image_byte(packed: Seq<u8>, s: LoadSegment, j: int) -> u8 {
    packed[STATICS_IN_ROM_LEN + s.physical_address - BAREMETAL_CODE_ORIGIN + j]
}

/// Byte `j` of segment `s` in the ELF file `data`.
pub open spec fn file_byte(data: Seq<u8>, s: LoadSegment, j: int) -> u8 {
    data[s.offset + j]
}

/// Some segment of `segments` loads a byte at address `a`.
pub open spec fn covered(segments: Seq<LoadSegment>, a: int) -> bool {
    exists|k: int|
        0 <= k < segments.len() && (#[trigger] segments[k]).physical_address <= a < segment_end(
            segments[k],
        )
}

proof fn lemma_place_contents(data: Seq<u8>, segments: Seq<LoadSegment>, n: int, size: nat)
    requires
        0 <= n <= segments.len(),
        fits_program(segments, size),
        within_file(segments, data.len()),
        laid_out(segments, 0, BAREMETAL_CODE_ORIGIN as int),
    ensures
        forall|k: int, j: int|
            0 <= k < n && 0 <= j < segments[k].file_size ==> place_segments(data, segments, n, size)[segments[k].physical_address - BAREMETAL_CODE_ORIGIN + j]
                == #[trigger] file_byte(data, segments[k], j),
        forall|q: int|
            0 <= q < size && !covered(segments.take(n), BAREMETAL_CODE_ORIGIN + q)
                ==> #[trigger] place_segments(data, segments, n, size)[q] == 0,
    decreases n,
{
    lemma_place_len(data, segments, n, size);
    if n > 0 {
        lemma_place_contents(data, segments, n - 1, size);
        lemma_place_len(data, segments, n - 1, size);
        let previous = place_segments(data, segments, n - 1, size);
        let current = place_segments(data, segments, n, size);
        let s = segments[n - 1];
        let d = s.physical_address - BAREMETAL_CODE_ORIGIN;
        assert(BAREMETAL_CODE_ORIGIN <= s.physical_address);
        assert(s.offset + s.file_size <= data.len());
        assert forall|k: int, j: int|
            0 <= k < n && 0 <= j < segments[k].file_size implies current[segments[k].physical_address
            - BAREMETAL_CODE_ORIGIN + j] == #[trigger] file_byte(data, segments[k], j) by {
            if k < n - 1 {
                lemma_laid_out_ordered(segments, k, n - 1);
                assert(BAREMETAL_CODE_ORIGIN <= segments[k].physical_address);
                assert(previous[segments[k].physical_address - BAREMETAL_CODE_ORIGIN + j]
                    == file_byte(data, segments[k], j));
            }
        }
        assert forall|q: int|
            0 <= q < size && !covered(segments.take(n), BAREMETAL_CODE_ORIGIN + q)
                implies #[trigger] current[q] == 0 by {
            if covered(segments.take(n - 1), BAREMETAL_CODE_ORIGIN + q) {
                let k = choose|k: int|
                    0 <= k < segments.take(n - 1).len() && (#[trigger] segments.take(
                        n - 1,
                    )[k]).physical_address <= BAREMETAL_CODE_ORIGIN + q < segment_end(
                        segments.take(n - 1)[k],
                    );
                assert(segments.take(n)[k] == segments.take(n - 1)[k]);
            }
            if d <= q < d + s.file_size {
                assert(segments.take(n)[n - 1] == s);
            }
            assert(previous[q] == 0);
        }
    }
}

/// Packing places the bytes of every file-backed loadable segment at its load address in
/// the presign image (256 bytes of static-data record, then the program from the code
/// origin), leaves every program byte that no segment loads zero, and starts the image with
/// the little-endian code trampoline.
#[verifier::rlimit(40)]
pub proof fn law_pack_places_segments(data: Seq<u8>, elf: ElfView)
    ensures
        pack_spec(data, elf) matches Ok((packed, size)) ==> {
            &&& packed.len() == STATICS_IN_ROM_LEN + size
            &&& packed.take(4) == jump_bytes()
            &&& load_segments(elf.program_headers, data.len(), elf.program_headers.len() as int) matches Ok(segments)
            &&& forall|k: int, j: int|
                0 <= k < segments.len() && 0 <= j < segments[k].file_size ==> #[trigger] image_byte(
                    packed,
                    segments[k],
                    j,
                ) == file_byte(data, segments[k], j)
            &&& forall|q: int|
                0 <= q < size && !covered(segments, BAREMETAL_CODE_ORIGIN + q)
                    ==> #[trigger] packed[STATICS_IN_ROM_LEN + q] == 0
        },
{
    if let Ok((packed, size)) = pack_spec(data, elf) {
        let n = elf.program_headers.len() as int;
        let segments = load_segments(elf.program_headers, data.len(), n)->Ok_0;
        let sorted = sort_by_address(segments);
        let m = sorted.len() as int;
        lemma_load_segments_within_file(elf.program_headers, data.len(), n);
        lemma_sort_len_within(segments, data.len());
        lemma_sort_members(segments);
        lemma_layout_ok(sorted, 0, BAREMETAL_CODE_ORIGIN as int);
        lemma_max_end_bounds(sorted, m);
        let program = place_segments(data, sorted, m, size as nat);
        assert(fits_program(sorted, size as nat)) by {
            assert forall|k: int| 0 <= k < m implies BAREMETAL_CODE_ORIGIN <= (
            #[trigger] sorted[k]).physical_address && segment_end(sorted[k])
                <= BAREMETAL_CODE_ORIGIN + size by {
                assert(segment_end(sorted[k]) <= max_end(sorted, m));
            }
        }
        lemma_place_len(data, sorted, m, size as nat);
        lemma_place_contents(data, sorted, m, size as nat);
        assert(packed == presign_image(program));
        assert(packed.take(4) =~= jump_bytes());
        assert forall|k: int, j: int|
            0 <= k < segments.len() && 0 <= j < segments[k].file_size implies #[trigger] image_byte(
                packed,
                segments[k],
                j,
            ) == file_byte(data, segments[k], j) by {
            assert(segments.contains(segments[k]));
            assert(sorted.contains(segments[k]));
            let i = choose|i: int| 0 <= i < sorted.len() && sorted[i] == segments[k];
            assert(file_byte(data, sorted[i], j) == program[sorted[i].physical_address
                - BAREMETAL_CODE_ORIGIN + j]);
        }
        assert forall|q: int|
            0 <= q < size && !covered(segments, BAREMETAL_CODE_ORIGIN + q)
                implies #[trigger] packed[STATICS_IN_ROM_LEN + q] == 0 by {
            assert(sorted.take(m) =~= sorted);
            if covered(sorted, BAREMETAL_CODE_ORIGIN + q) {
                let i = choose|i: int|
                    0 <= i < sorted.len() && (#[trigger] sorted[i]).physical_address
                        <= BAREMETAL_CODE_ORIGIN + q < segment_end(sorted[i]);
                assert(sorted.contains(sorted[i]));
                assert(segments.contains(sorted[i]));
                let k = choose|k: int| 0 <= k < segments.len() && segments[k] == sorted[i];
                assert(segments[k].physical_address <= BAREMETAL_CODE_ORIGIN + q < segment_end(
                    segments[k],
                ));
            }
            assert(program[q] == 0);
        }
    }
}

/// The segments are in ascending order of load address.
pub open spec fn ascending(s: Seq<LoadSegment>) -> bool {
    forall|a: int, b: int|
        0 <= a < b < s.len() ==> (#[trigger] s[a]).physical_address <= (
        #[trigger] s[b]).physical_address
}

proof fn lemma_insert_ascending(sorted: Seq<LoadSegment>, x: LoadSegment)
    requires
        ascending(sorted),
    ensures
        ascending(insert_by_address(sorted, x)),
    decreases sorted.len(),
{
    if sorted.len() > 0 && sorted.last().physical_address > x.physical_address {
        let front = sorted.drop_last();
        lemma_insert_ascending(front, x);
        lemma_insert_members(front, x);
        lemma_insert_len_within(front, x, 0);
        let inner = insert_by_address(front, x);
        let r = insert_by_address(sorted, x);
        assert forall|a: int, b: int| 0 <= a < b < r.len() implies (#[trigger] r[a]).physical_address
            <= (#[trigger] r[b]).physical_address by {
            if b < r.len() - 1 {
                assert(r[a] == inner[a] && r[b] == inner[b]);
            } else {
                assert(r[a] == inner[a]);
                assert(inner.contains(inner[a]));
                if front.contains(inner[a]) {
                    let k = choose|k: int| 0 <= k < front.len() && front[k] == inner[a];
                    assert(sorted[k] == front[k]);
                }
            }
        }
    }
}

/// Sorting by load address keeps exactly the segments it is given, as many of them, in
/// ascending order of load address.
pub proof fn law_sort_by_address(segments: Seq<LoadSegment>)
    ensures
        sort_by_address(segments).len() == segments.len(),
        forall|y: LoadSegment| #[trigger]
            sort_by_address(segments).contains(y) <==> segments.contains(y),
        ascending(sort_by_address(segments)),
    decreases segments.len(),
{
    lemma_sort_len_within(segments, 0);
    lemma_sort_members(segments);
    if segments.len() > 0 {
        law_sort_by_address(segments.drop_last());
        lemma_insert_ascending(sort_by_address(segments.drop_last()), segments.last());
    }
}

/// Packing accepts only a little-endian 32-bit RISC-V ELF whose entry point is the code
/// origin, one of whose file-backed loadable segments loads exactly at the code origin, all
/// of which load within the code slot, and which, sorted by load address, do not overlap.
pub proof fn law_pack_accepts_only_valid_layout(data: Seq<u8>, elf: ElfView)
    ensures
        pack_spec(data, elf) is Ok ==> {
            &&& elf.machine == EM_RISCV && !elf.is_64 && elf.little_endian
            &&& elf.entry == BAREMETAL_CODE_ORIGIN
            &&& load_segments(elf.program_headers, data.len(), elf.program_headers.len() as int) matches Ok(segments)
            &&& exists|k: int|
                0 <= k < segments.len() && (#[trigger] segments[k]).physical_address
                    == BAREMETAL_CODE_ORIGIN
            &&& forall|k: int|
                0 <= k < segments.len() ==> BAREMETAL_CODE_ORIGIN <= (
                #[trigger] segments[k]).physical_address && segment_end(segments[k])
                    <= BAREMETAL_CODE_END
            &&& forall|a: int, b: int|
                0 <= a < b < segments.len() ==> segment_end(
                    #[trigger] sort_by_address(segments)[a],
                ) <= (#[trigger] sort_by_address(segments)[b]).physical_address
        },
{
    if pack_spec(data, elf) is Ok {
        let n = elf.program_headers.len() as int;
        let segments = load_segments(elf.program_headers, data.len(), n)->Ok_0;
        let sorted = sort_by_address(segments);
        law_sort_by_address(segments);
        lemma_layout_ok(sorted, 0, BAREMETAL_CODE_ORIGIN as int);
        assert(sorted.contains(sorted[0]));
        let k0 = choose|k: int| 0 <= k < segments.len() && segments[k] == sorted[0];
        assert(segments[k0].physical_address == BAREMETAL_CODE_ORIGIN);
        assert forall|k: int| 0 <= k < segments.len() implies BAREMETAL_CODE_ORIGIN <= (
        #[trigger] segments[k]).physical_address && segment_end(segments[k])
            <= BAREMETAL_CODE_END by {
            assert(segments.contains(segments[k]));
            assert(sorted.contains(segments[k]));
            let i = choose|i: int| 0 <= i < sorted.len() && sorted[i] == segments[k];
            assert(BAREMETAL_CODE_ORIGIN <= sorted[i].physical_address);
        }
        assert forall|a: int, b: int| 0 <= a < b < segments.len() implies segment_end(
            #[trigger] sort_by_address(segments)[a],
        ) <= (#[trigger] sort_by_address(segments)[b]).physical_address by {
            lemma_laid_out_ordered(sorted, a, b);
        }
    }
}

/// Whether program header `h` is a file-backed loadable segment.
pub open spec fn file_backed_load(h: ProgramHeader) -> bool {
    h.p_type == 1 && h.p_filesz > 0
}

proof fn lemma_load_segments_file_backed(headers: Seq<ProgramHeader>, data_len: nat, n: int)
    requires
        0 <= n <= headers.len(),
    ensures
        load_segments(headers, data_len, n) matches Ok(segments) ==> {
            let loads = headers.take(n).filter(|h: ProgramHeader| file_backed_load(h));
            &&& segments.len() == loads.len()
            &&& forall|i: int|
                0 <= i < segments.len() ==> (#[trigger] segments[i]).offset == loads[i].p_offset
                    && segments[i].physical_address == loads[i].p_paddr
                    && segments[i].file_size == loads[i].p_filesz
        },
    decreases n,
{
    let pred = |h: ProgramHeader| file_backed_load(h);
    reveal(Seq::filter);
    if n > 0 {
        lemma_load_segments_file_backed(headers, data_len, n - 1);
        let t = headers.take(n);
        assert(t.drop_last() =~= headers.take(n - 1));
        assert(t.last() == headers[n - 1]);
        let prev = headers.take(n - 1).filter(pred);
        let loads = t.filter(pred);
        if pred(headers[n - 1]) {
            assert(loads == prev.push(headers[n - 1]));
        } else {
            assert(loads == prev);
        }
        if let Ok(segments) = load_segments(headers, data_len, n) {
            let before = load_segments(headers, data_len, n - 1)->Ok_0;
            if pred(headers[n - 1]) {
                assert(segments == before.push(
                    LoadSegment {
                        offset: headers[n - 1].p_offset as usize,
                        physical_address: headers[n - 1].p_paddr,
                        file_size: headers[n - 1].p_filesz as usize,
                    },
                ));
                assert forall|i: int| 0 <= i < segments.len() implies (
                #[trigger] segments[i]).offset == loads[i].p_offset
                    && segments[i].physical_address == loads[i].p_paddr
                    && segments[i].file_size == loads[i].p_filesz by {
                    if i < before.len() {
                        assert(segments[i] == before[i]);
                        assert(loads[i] == prev[i]);
                    }
                }
            } else {
                assert(segments == before);
            }
        }
    } else {
        assert(headers.take(0).len() == 0);
    }
}

/// Packing collects, in header order, exactly the program headers of type `PT_LOAD` (1) with
/// file bytes: one segment per such header, with its file offset, load address and file size;
/// headers of any other type, and `PT_LOAD` headers without file bytes (`.bss`), contribute
/// nothing.
pub proof fn law_collects_file_backed_loads(headers: Seq<ProgramHeader>, data_len: nat)
    ensures
        load_segments(headers, data_len, headers.len() as int) matches Ok(segments) ==> {
            let loads = headers.filter(|h: ProgramHeader| h.p_type == 1 && h.p_filesz > 0);
            &&& segments.len() == loads.len()
            &&& forall|i: int|
                0 <= i < segments.len() ==> (#[trigger] segments[i]).offset == loads[i].p_offset
                    && segments[i].physical_address == loads[i].p_paddr
                    && segments[i].file_size == loads[i].p_filesz && segments[i].file_size > 0
        },
{
    lemma_load_segments_file_backed(headers, data_len, headers.len() as int);
    assert(headers.take(headers.len() as int) =~= headers);
    let f1 = |h: ProgramHeader| file_backed_load(h);
    let f2 = |h: ProgramHeader| h.p_type == 1 && h.p_filesz > 0;
    assert(f1 =~= f2);
}

} // verus!
