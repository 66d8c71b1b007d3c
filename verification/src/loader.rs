//! Loading programs onto tiles: finding boot modules by name, reading them, and placing the
//! load segments of their ELF program headers.
use vstd::prelude::*;

use crate::errors::Code;
use crate::sysc::{PAGE_BITS, PAGE_SIZE};

verus! {

/// Does the first space-separated word of module name `name` equal `wanted`?
pub open spec fn name_matches(name: Seq<u8>, wanted: Seq<u8>) -> bool {
    let end = first_space(name, 0);
    name.subrange(0, end) == wanted
}

/// The position of the first space in `name` from `from` on, or its length.
pub open spec fn first_space(name: Seq<u8>, from: int) -> int
    decreases name.len() - from,
{
    if from < 0 || from >= name.len() {
        name.len() as int
    } else if name[from] == 0x20u8 {
        from
    } else {
        first_space(name, from + 1)
    }
}

/// Does the first word of `name` equal `wanted` (see `name_matches`)?
pub fn mod_name_matches(name: &Vec<u8>, wanted: &Vec<u8>) -> (r: bool)
    ensures
        r == name_matches(name@, wanted@),
{
    let mut end: usize = 0;
    while end < name.len() && name[end] != 0x20u8
        invariant
            end <= name@.len(),
            first_space(name@, 0) == first_space(name@, end as int),
        decreases name@.len() - end,
    {
        end += 1;
    }
    assert(first_space(name@, end as int) == end);
    if end != wanted.len() {
        assert(name@.subrange(0, end as int).len() != wanted@.len());
        return false;
    }
    let mut i: usize = 0;
    while i < end
        invariant
            i <= end,
            end == wanted@.len(),
            end <= name@.len(),
            first_space(name@, 0) == end,
            forall|j: int| 0 <= j < i ==> name@[j] == wanted@[j],
        decreases end - i,
    {
        if name[i] != wanted[i] {
            proof {
                assert(name@.subrange(0, end as int)[i as int] != wanted@[i as int]);
            }
            return false;
        }
        i += 1;
    }
    proof {
        assert(name@.subrange(0, end as int) =~= wanted@);
    }
    true
}

/// The index of the first module whose name's first word is `wanted`.
pub open spec fn spec_get_mod(names: Seq<Vec<u8>>, wanted: Seq<u8>, from: int) -> Option<int>
    decreases names.len() - from,
{
    if from < 0 || from >= names.len() {
        None
    } else if name_matches(names[from]@, wanted) {
        Some(from)
    } else {
        spec_get_mod(names, wanted, from + 1)
    }
}

/// Finds the boot module `wanted` by the first word of the modules' names.
pub fn get_mod(names: &Vec<Vec<u8>>, wanted: &Vec<u8>) -> (r: Option<usize>)
    ensures
        match spec_get_mod(names@, wanted@, 0) {
            Some(i) => r == Some(i as usize),
            None => r is None,
        },
{
    let mut i: usize = 0;
    while i < names.len()
        invariant
            i <= names@.len(),
            spec_get_mod(names@, wanted@, 0) == spec_get_mod(names@, wanted@, i as int),
        decreases names@.len() - i,
    {
        if mod_name_matches(&names[i], wanted) {
            return Some(i);
        }
        i += 1;
    }
    None
}

/// Reads a boot module of `size` bytes sequentially from position `off`.
#[derive(Clone, Copy, Debug, PartialEq, Eq, Structural)]
pub struct BootModReader {
    pub size: u64,
    pub off: u64,
}

impl BootModReader {
    pub fn new(size: u64) -> (r: Self)
        ensures
            r == (BootModReader { size, off: 0 }),
    {
        BootModReader { size, off: 0 }
    }

    /// Continues reading at `pos`.
    pub fn seek(&mut self, pos: u64)
        ensures
            *final(self) == (BootModReader { off: pos, ..*old(self) }),
    {
        self.off = pos;
    }

    /// Reads `len` bytes: returns the position to read them from and advances.
    ///
    /// Fails with `InvalidElf` if they extend beyond the module.
    pub fn read(&mut self, len: u64) -> (r: Result<u64, Code>)
        ensures
            old(self).off + len > old(self).size ==> r == Err::<u64, Code>(Code::InvalidElf)
                && *final(self) == *old(self),
            old(self).off + len <= old(self).size ==> r == Ok::<u64, Code>(old(self).off)
                && *final(self) == (BootModReader { off: (old(self).off + len) as u64, ..*old(self) }),
    {
        match self.off.checked_add(len) {
            None => Err(Code::InvalidElf),
            Some(end) => {
                if end > self.size {
                    return Err(Code::InvalidElf);
                }
                let pos = self.off;
                self.off = end;
                Ok(pos)
            },
        }
    }
}

/// `x` rounded down to a page boundary.
pub open spec fn page_down(x: int) -> int {
    x - x % PAGE_SIZE as int
}

/// `x` rounded up to a page boundary.
pub open spec fn page_up(x: int) -> int {
    if x % PAGE_SIZE as int == 0 {
        x
    } else {
        x - x % PAGE_SIZE as int + PAGE_SIZE
    }
}

/// What a program header asks the loader to do.
#[derive(Clone, Copy, Debug, PartialEq, Eq, Structural)]
pub enum Segment {
    /// Nothing: no load segment, or an empty one.
    Skip,
    /// Clear `size` bytes from `virt` on (a segment without file contents).
    Zero { virt: u64, size: u64 },
    /// Copy `size` bytes from offset `src` of the module to `virt`.
    Load { virt: u64, src: u64, size: u64 },
}

/// The segment for a program header of type load (`is_load`) or not, for `mem_size` bytes at
/// `virt_addr`, of which `file_size` come from `offset` in the file. Segments start at page
/// boundaries; a segment without file contents is cleared up to the next page boundary.
pub open spec fn spec_segment(is_load: bool, offset: u64, virt_addr: u64, file_size: u64, mem_size: u64) -> Segment {
    if !is_load || mem_size == 0 {
        Segment::Skip
    } else if file_size == 0 {
        Segment::Zero {
            virt: page_down(virt_addr as int) as u64,
            size: page_up(virt_addr % PAGE_SIZE + mem_size) as u64,
        }
    } else {
        Segment::Load {
            virt: page_down(virt_addr as int) as u64,
            src: page_down(offset as int) as u64,
            size: (offset % PAGE_SIZE + file_size) as u64,
        }
    }
}

/// Decides what to do for a program header (see `spec_segment`).
pub fn segment(is_load: bool, offset: u64, virt_addr: u64, file_size: u64, mem_size: u64) -> (r: Segment)
    requires
        is_load && mem_size != 0 && file_size != 0 ==> mem_size == file_size,
        is_load && mem_size != 0 && file_size == 0 ==> virt_addr % PAGE_SIZE + mem_size + PAGE_SIZE - 1 <= u64::MAX,
        is_load && mem_size != 0 && file_size != 0 ==> offset % PAGE_SIZE + file_size <= u64::MAX,
    ensures
        r == spec_segment(is_load, offset, virt_addr, file_size, mem_size),
{
    if !is_load || mem_size == 0 {
        return Segment::Skip;
    }
    let virt = virt_addr - virt_addr % PAGE_SIZE;
    if file_size == 0 {
        let raw = virt_addr % PAGE_SIZE + mem_size;
        let size = if raw % PAGE_SIZE == 0 {
            raw
        } else {
            raw - raw % PAGE_SIZE + PAGE_SIZE
        };
        Segment::Zero { virt, size }
    } else {
        Segment::Load { virt, src: offset - offset % PAGE_SIZE, size: offset % PAGE_SIZE + file_size }
    }
}

/// A load segment without file contents is cleared from the start of the page that holds its
/// first byte, over whole pages that cover all of its memory, `[virt_addr, virt_addr +
/// mem_size)`, and end within one page after it.
pub proof fn lemma_zero_segment_covers(offset: u64, virt_addr: u64, mem_size: u64)
    requires
        mem_size > 0,
        virt_addr % PAGE_SIZE + mem_size + PAGE_SIZE - 1 <= u64::MAX,
    ensures
        spec_segment(true, offset, virt_addr, 0, mem_size) matches Segment::Zero { virt, size } && {
            &&& virt % PAGE_SIZE == 0
            &&& virt <= virt_addr < virt + PAGE_SIZE
            &&& size % PAGE_SIZE == 0
            &&& virt + size >= virt_addr + mem_size
            &&& virt + size < virt_addr + mem_size + PAGE_SIZE
        },
{
}

/// A load segment with file contents is copied from the start of the page that holds its
/// first byte in the module, to the start of the page that holds its first byte in memory,
/// up to the last byte of its file contents.
pub proof fn lemma_load_segment_covers(offset: u64, virt_addr: u64, file_size: u64)
    requires
        file_size > 0,
        offset % PAGE_SIZE + file_size <= u64::MAX,
    ensures
        spec_segment(true, offset, virt_addr, file_size, file_size) matches Segment::Load {
            virt,
            src,
            size,
        } && {
            &&& virt % PAGE_SIZE == 0
            &&& virt <= virt_addr < virt + PAGE_SIZE
            &&& src % PAGE_SIZE == 0
            &&& src <= offset < src + PAGE_SIZE
            &&& src + size == offset + file_size
        },
{
}

/// Where a segment of `size` bytes at `virt` is mapped: the first page (its selector in the
/// mapping table), the number of pages, and the page-aligned physical offset for `phys`.
pub fn map_range(virt: u64, size: u64, phys: u64) -> (r: (u64, u64, u64))
    requires
        size + PAGE_SIZE - 1 <= u64::MAX,
    ensures
        r.0 == virt / PAGE_SIZE,
        r.1 == page_up(size as int) / PAGE_SIZE as int,
        r.2 == page_down(phys as int),
{
    assert(virt >> 12u64 == virt / 4096) by (bit_vector);
    let sel = virt >> PAGE_BITS;
    let up = if size % PAGE_SIZE == 0 {
        size
    } else {
        size - size % PAGE_SIZE + PAGE_SIZE
    };
    (sel, up / PAGE_SIZE, phys - phys % PAGE_SIZE)
}

/// Where the heap starts: at the page boundary at or after the end of the last segment.
pub fn heap_start(end: u64) -> (r: u64)
    requires
        end + PAGE_SIZE - 1 <= u64::MAX,
    ensures
        r == page_up(end as int),
{
    if end % PAGE_SIZE == 0 {
        end
    } else {
        end - end % PAGE_SIZE + PAGE_SIZE
    }
}

/// The fields of an ELF program header that the loader reads.
#[derive(Clone, Copy, Debug, PartialEq, Eq, Structural)]
pub struct ProgHeader {
    pub is_load: bool,
    pub offset: u64,
    pub virt_addr: u64,
    pub file_size: u64,
    pub mem_size: u64,
}

/// The segment that program header `h` asks for.
pub open spec fn header_segment(h: ProgHeader) -> Segment {
    spec_segment(h.is_load, h.offset, h.virt_addr, h.file_size, h.mem_size)
}

/// The end of the loaded image after segment `s`, where it was `prev` before.
pub open spec fn segment_end(s: Segment, prev: int) -> int {
    match s {
        Segment::Skip => prev,
        Segment::Zero { virt, size } => virt + size,
        Segment::Load { virt, size, .. } => virt + size,
    }
}

/// The end of the image after loading the segments of `hs` in order, from address 0.
pub open spec fn image_end(hs: Seq<ProgHeader>) -> int
    decreases hs.len(),
{
    if hs.len() == 0 {
        0
    } else {
        segment_end(header_segment(hs.last()), image_end(hs.drop_last()))
    }
}

/// Can the loader place the segment of `h` without an arithmetic overflow, and does the header
/// hold as much in the file as in memory whenever it has file contents?
pub open spec fn header_loadable(h: ProgHeader) -> bool {
    &&& h.is_load && h.mem_size != 0 && h.file_size != 0 ==> h.mem_size == h.file_size
    &&& h.is_load && h.mem_size != 0 && h.file_size == 0 ==> h.virt_addr % PAGE_SIZE + h.mem_size
        + PAGE_SIZE - 1 <= u64::MAX
    &&& h.is_load && h.mem_size != 0 && h.file_size != 0 ==> h.offset % PAGE_SIZE + h.file_size
        <= u64::MAX
    &&& segment_end(header_segment(h), 0) + PAGE_SIZE - 1 <= u64::MAX
}

/// Plans the loading of a program: the segment for each program header, in order, and where
/// the heap starts (the page boundary at or after the end of the last segment placed).
pub fn plan_load(hs: &Vec<ProgHeader>) -> (r: (Vec<Segment>, u64))
    requires
        forall|i: int| 0 <= i < hs@.len() ==> header_loadable(#[trigger] hs@[i]),
    ensures
        r.0@.len() == hs@.len(),
        forall|i: int| 0 <= i < hs@.len() ==> r.0@[i] == header_segment(#[trigger] hs@[i]),
        r.1 == page_up(image_end(hs@)),
{
    let mut segs: Vec<Segment> = Vec::new();
    let mut end: u64 = 0;
    let mut i: usize = 0;
    while i < hs.len()
        invariant
            i <= hs@.len(),
            segs@.len() == i,
            forall|j: int| 0 <= j < i ==> segs@[j] == header_segment(#[trigger] hs@[j]),
            end == image_end(hs@.subrange(0, i as int)),
            end + PAGE_SIZE - 1 <= u64::MAX,
            forall|j: int| 0 <= j < hs@.len() ==> header_loadable(#[trigger] hs@[j]),
        decreases hs@.len() - i,
    {
        let h = hs[i];
        assert(header_loadable(hs@[i as int]));
        let seg = segment(h.is_load, h.offset, h.virt_addr, h.file_size, h.mem_size);
        match seg {
            Segment::Skip => {},
            Segment::Zero { virt, size } => {
                end = virt + size;
            },
            Segment::Load { virt, size, .. } => {
                end = virt + size;
            },
        }
        segs.push(seg);
        proof {
            let pre = hs@.subrange(0, i as int + 1);
            assert(pre.drop_last() =~= hs@.subrange(0, i as int));
            assert(pre.last() == hs@[i as int]);
        }
        i += 1;
    }
    proof {
        assert(hs@.subrange(0, hs@.len() as int) =~= hs@);
    }
    (segs, heap_start(end))
}

} // verus!
