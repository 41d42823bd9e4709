//! What the boot loader decides: whether the kernel image is a loadable
//! x86-64 ELF executable and which segments go where, whether the console
//! font is a PSF1 font and how large its glyph table is, and which graphics
//! mode to use.

use vstd::prelude::*;

verus! {

/// The ELF file header.
#[derive(Debug, Clone, Copy)]
pub struct Elf64Ehdr {
    pub e_ident: [u8; 16],
    pub e_type: u16,
    pub e_machine: u16,
    pub e_version: u32,
    pub e_entry: u64,
    pub e_phoff: u64,
    pub e_shoff: u64,
    pub e_flags: u32,
    pub e_ehsize: u16,
    pub e_phentsize: u16,
    pub e_phnum: u16,
    pub e_shentsize: u16,
    pub e_shnum: u16,
    pub e_shstrndx: u16,
}

/// An ELF program header.
#[derive(Debug, Clone, Copy, PartialEq, Eq, Structural)]
pub struct Elf64Phdr {
    pub p_type: u32,
    pub p_flags: u32,
    pub p_offset: u64,
    pub p_vaddr: u64,
    pub p_paddr: u64,
    pub p_filesz: u64,
    pub p_memsz: u64,
    pub p_align: u64,
}

/// 64-bit class.
pub const ELFCLASS64: u8 = 2;

/// Little-endian data.
pub const ELFDATA2LSB: u8 = 1;

/// Executable file type.
pub const ET_EXEC: u16 = 2;

/// AMD x86-64 machine.
pub const EM_X86_64: u16 = 62;

/// Loadable segment type.
pub const PT_LOAD: u32 = 1;

/// Bytes of the file header.
pub const EHDR_SIZE: usize = 64;

/// Bytes of a program header.
pub const PHDR_SIZE: usize = 56;

/// The little-endian number of `n` bytes at `off`.
pub open spec fn le(b: Seq<u8>, off: int, n: nat) -> int
    decreases n,
{
    if n == 0 {
        0
    } else {
        b[off] as int + 256 * le(b, off + 1, (n - 1) as nat)
    }
}

proof fn lemma_le_bound(b: Seq<u8>, off: int, n: nat)
    ensures
        0 <= le(b, off, n) < vstd::arithmetic::power2::pow2(8 * n),
    decreases n,
{
    vstd::arithmetic::power2::lemma2_to64();
    if n > 0 {
        lemma_le_bound(b, off + 1, (n - 1) as nat);
        vstd::arithmetic::power2::lemma_pow2_adds(8, 8 * (n - 1) as nat);
    }
}

/// Reads the little-endian number of `n` bytes at `off`.
fn read_le(b: &[u8], off: usize, n: usize) -> (v: u64)
    requires
        n <= 8,
        off + n <= b@.len(),
    ensures
        v == le(b@, off as int, n as nat),
{
    let len = b.len();
    let mut v: u64 = 0;
    let mut k: usize = n;
    while k > 0
        invariant
            k <= n <= 8,
            off + n <= b@.len(),
            len == b@.len(),
            v == le(b@, (off + k) as int, (n - k) as nat),
        decreases k,
    {
        proof {
            lemma_le_bound(b@, (off + k) as int, (n - k) as nat);
            vstd::arithmetic::power2::lemma2_to64();
            vstd::arithmetic::power2::lemma_pow2_adds(8 * (n - k) as nat, 8);
            if 8 * (n - k) < 56 {
                vstd::arithmetic::power2::lemma_pow2_strictly_increases(8 * (n - k) as nat, 56);
            }
            assert(v < vstd::arithmetic::power2::pow2(8 * (n - k) as nat));
            vstd::arithmetic::power2::lemma2_to64_rest();
            assert(v < 0x100000000000000);
        }
        let byte = b[off + k - 1];
        v = (byte as u64) + 256 * v;
        k = k - 1;
    }
    v
}

impl Elf64Ehdr {
    /// The header fields at their offsets in the first 64 bytes.
    pub open spec fn parsed_from(&self, b: Seq<u8>) -> bool {
        &&& forall|i: int| 0 <= i < 16 ==> self.e_ident[i] == b[i]
        &&& self.e_type == le(b, 16, 2)
        &&& self.e_machine == le(b, 18, 2)
        &&& self.e_version == le(b, 20, 4)
        &&& self.e_entry == le(b, 24, 8)
        &&& self.e_phoff == le(b, 32, 8)
        &&& self.e_shoff == le(b, 40, 8)
        &&& self.e_flags == le(b, 48, 4)
        &&& self.e_ehsize == le(b, 52, 2)
        &&& self.e_phentsize == le(b, 54, 2)
        &&& self.e_phnum == le(b, 56, 2)
        &&& self.e_shentsize == le(b, 58, 2)
        &&& self.e_shnum == le(b, 60, 2)
        &&& self.e_shstrndx == le(b, 62, 2)
    }

    /// Reads the file header at the start of an image.
    pub fn parse(b: &[u8]) -> (h: Elf64Ehdr)
        requires
            b@.len() >= EHDR_SIZE,
        ensures
            h.parsed_from(b@),
    {
        let mut e_ident: [u8; 16] = [0u8; 16];
        let mut i: usize = 0;
        while i < 16
            invariant
                i <= 16,
                b@.len() >= EHDR_SIZE,
                forall|k: int| 0 <= k < i ==> e_ident[k] == b@[k],
            decreases 16 - i,
        {
            e_ident[i] = b[i];
            i = i + 1;
        }
        proof {
            lemma_le_bound(b@, 16, 2);
            lemma_le_bound(b@, 18, 2);
            lemma_le_bound(b@, 20, 4);
            lemma_le_bound(b@, 48, 4);
            lemma_le_bound(b@, 52, 2);
            lemma_le_bound(b@, 54, 2);
            lemma_le_bound(b@, 56, 2);
            lemma_le_bound(b@, 58, 2);
            lemma_le_bound(b@, 60, 2);
            lemma_le_bound(b@, 62, 2);
            vstd::arithmetic::power2::lemma2_to64();
        }
        Elf64Ehdr {
            e_ident,
            e_type: read_le(b, 16, 2) as u16,
            e_machine: read_le(b, 18, 2) as u16,
            e_version: read_le(b, 20, 4) as u32,
            e_entry: read_le(b, 24, 8),
            e_phoff: read_le(b, 32, 8),
            e_shoff: read_le(b, 40, 8),
            e_flags: read_le(b, 48, 4) as u32,
            e_ehsize: read_le(b, 52, 2) as u16,
            e_phentsize: read_le(b, 54, 2) as u16,
            e_phnum: read_le(b, 56, 2) as u16,
            e_shentsize: read_le(b, 58, 2) as u16,
            e_shnum: read_le(b, 60, 2) as u16,
            e_shstrndx: read_le(b, 62, 2) as u16,
        }
    }

    /// The image is an x86-64 executable: magic `7F 'E' 'L' 'F'`, 64-bit
    /// class, little endian, executable type, x86-64 machine, version 1.
    pub open spec fn valid_spec(&self) -> bool {
        &&& self.e_ident[0] == 0x7F
        &&& self.e_ident[1] == 0x45
        &&& self.e_ident[2] == 0x4C
        &&& self.e_ident[3] == 0x46
        &&& self.e_ident[4] == ELFCLASS64
        &&& self.e_ident[5] == ELFDATA2LSB
        &&& self.e_type == ET_EXEC
        &&& self.e_machine == EM_X86_64
        &&& self.e_version == 1
    }

    /// Whether the kernel image may be loaded (see `valid_spec`).
    pub fn is_valid(&self) -> (ok: bool)
        ensures
            ok == self.valid_spec(),
    {
        self.e_ident[0] == 0x7F && self.e_ident[1] == 'E' as u8 && self.e_ident[2] == 'L' as u8
            && self.e_ident[3] == 'F' as u8 && self.e_ident[4] == ELFCLASS64 && self.e_ident[5]
            == ELFDATA2LSB && self.e_type == ET_EXEC && self.e_machine == EM_X86_64 && self.e_version == 1
    }
}

impl Elf64Phdr {
    /// The program header fields at their offsets from `off`.
    pub open spec fn parsed_from(&self, b: Seq<u8>, off: int) -> bool {
        &&& self.p_type == le(b, off, 4)
        &&& self.p_flags == le(b, off + 4, 4)
        &&& self.p_offset == le(b, off + 8, 8)
        &&& self.p_vaddr == le(b, off + 16, 8)
        &&& self.p_paddr == le(b, off + 24, 8)
        &&& self.p_filesz == le(b, off + 32, 8)
        &&& self.p_memsz == le(b, off + 40, 8)
        &&& self.p_align == le(b, off + 48, 8)
    }

    /// Reads the program header at `off`.
    pub fn parse(b: &[u8], off: usize) -> (h: Elf64Phdr)
        requires
            off + PHDR_SIZE <= b@.len(),
        ensures
            h.parsed_from(b@, off as int),
    {
        let len = b.len();
        assert(off + PHDR_SIZE <= len);
        proof {
            lemma_le_bound(b@, off as int, 4);
            lemma_le_bound(b@, off + 4, 4);
            vstd::arithmetic::power2::lemma2_to64();
        }
        Elf64Phdr {
            p_type: read_le(b, off, 4) as u32,
            p_flags: read_le(b, off + 4, 4) as u32,
            p_offset: read_le(b, off + 8, 8),
            p_vaddr: read_le(b, off + 16, 8),
            p_paddr: read_le(b, off + 24, 8),
            p_filesz: read_le(b, off + 32, 8),
            p_memsz: read_le(b, off + 40, 8),
            p_align: read_le(b, off + 48, 8),
        }
    }
}


/// The program header at `off` of an image.
pub open spec fn phdr_at(b: Seq<u8>, off: int) -> Elf64Phdr {
    Elf64Phdr {
        p_type: le(b, off, 4) as u32,
        p_flags: le(b, off + 4, 4) as u32,
        p_offset: le(b, off + 8, 8) as u64,
        p_vaddr: le(b, off + 16, 8) as u64,
        p_paddr: le(b, off + 24, 8) as u64,
        p_filesz: le(b, off + 32, 8) as u64,
        p_memsz: le(b, off + 40, 8) as u64,
        p_align: le(b, off + 48, 8) as u64,
    }
}

/// A segment to load: `pages` pages are allocated at the page-aligned
/// address `addr`, then `filesz` bytes from `file_offset` of the image are
/// copied to `paddr`.
#[derive(Debug, Clone, Copy, PartialEq, Eq, Structural)]
pub struct LoadSegment {
    pub addr: u64,
    pub pages: u64,
    pub file_offset: u64,
    pub paddr: u64,
    pub filesz: u64,
}

/// The load of a loadable program header: memory size rounded up to whole
/// pages, physical address rounded down to a page.
pub open spec fn segment_of(ph: Elf64Phdr) -> LoadSegment {
    LoadSegment {
        addr: (ph.p_paddr / 0x1000 * 0x1000) as u64,
        pages: ((ph.p_memsz + 0x1000 - 1) / 0x1000) as u64,
        file_offset: ph.p_offset,
        paddr: ph.p_paddr,
        filesz: ph.p_filesz,
    }
}

/// The loads of the first `n` program headers visited, in order.
pub open spec fn load_plan(b: Seq<u8>, h: Elf64Ehdr, n: int) -> Seq<LoadSegment>
    decreases n,
{
    if n <= 0 {
        seq![]
    } else {
        let prev = load_plan(b, h, n - 1);
        let ph = phdr_at(b, h.e_phoff + (n - 1) * h.e_phentsize);
        if ph.p_type == PT_LOAD { prev.push(segment_of(ph)) } else { prev }
    }
}

/// Every program header lies inside the image, and every loadable one has
/// a memory size that can be rounded up to pages. The headers' total size
/// is computed in 16 bits, so it must fit there.
pub open spec fn plan_ok(b: Seq<u8>, h: Elf64Ehdr) -> bool {
    &&& h.e_phentsize > 0
    &&& h.e_phnum * h.e_phentsize <= u16::MAX
    &&& forall|k: int| 0 <= k < h.e_phnum ==> #[trigger] ph_ok(b, h, k)
}

/// The `k`-th program header, at `e_phoff + k * e_phentsize`, lies inside
/// the image and, if loadable, has a memory size that can be rounded up to
/// pages.
pub open spec fn ph_ok(b: Seq<u8>, h: Elf64Ehdr, k: int) -> bool {
    let off = h.e_phoff + k * h.e_phentsize;
    &&& off + PHDR_SIZE <= b.len()
    &&& phdr_at(b, off).p_type == PT_LOAD ==> phdr_at(b, off).p_memsz + 0x1000 <= u64::MAX
}

proof fn lemma_phdr_fields(b: Seq<u8>, off: int)
    ensures
        phdr_at(b, off).p_type == le(b, off, 4),
        phdr_at(b, off).p_offset == le(b, off + 8, 8),
        phdr_at(b, off).p_paddr == le(b, off + 24, 8),
        phdr_at(b, off).p_filesz == le(b, off + 32, 8),
        phdr_at(b, off).p_memsz == le(b, off + 40, 8),
        phdr_at(b, off).p_flags == le(b, off + 4, 4),
        phdr_at(b, off).p_vaddr == le(b, off + 16, 8),
        phdr_at(b, off).p_align == le(b, off + 48, 8),
{
    vstd::arithmetic::power2::lemma2_to64();
    lemma_le_bound(b, off, 4);
    lemma_le_bound(b, off + 4, 4);
    lemma_le_bound(b, off + 8, 8);
    lemma_le_bound(b, off + 16, 8);
    lemma_le_bound(b, off + 24, 8);
    lemma_le_bound(b, off + 32, 8);
    lemma_le_bound(b, off + 40, 8);
    lemma_le_bound(b, off + 48, 8);
}

/// The segments to load from a kernel image, in program-header order: the
/// headers stand at `e_phoff + k * e_phentsize` for `k < e_phnum`.
pub fn load_segments(data: &[u8], h: &Elf64Ehdr) -> (segs: Vec<LoadSegment>)
    requires
        plan_ok(data@, *h),
    ensures
        segs@ == load_plan(data@, *h, h.e_phnum as int),
{
    let step = h.e_phentsize as u64;
    let len: usize = data.len();
    let mut segs: Vec<LoadSegment> = Vec::new();
    let mut k: u64 = 0;
    while k < h.e_phnum as u64
        invariant
            plan_ok(data@, *h),
            len == data@.len(),
            step == h.e_phentsize,
            k <= h.e_phnum,
            segs@ == load_plan(data@, *h, k as int),
        decreases h.e_phnum - k,
    {
        proof {
            assert(ph_ok(data@, *h, k as int));
            assert(k * step <= h.e_phnum * h.e_phentsize) by (nonlinear_arith)
                requires
                    k <= h.e_phnum,
                    step == h.e_phentsize,
            ;
        }
        let ghost off: int = h.e_phoff + (k as int) * (h.e_phentsize as int);
        assert(off + PHDR_SIZE <= data@.len());
        assert((k as int) * (step as int) == (k as int) * (h.e_phentsize as int));
        let ptr: u64 = h.e_phoff + k * step;
        assert(ptr == off);
        proof {
            lemma_phdr_fields(data@, ptr as int);
        }
        let ph = Elf64Phdr::parse(data, ptr as usize);
        if ph.p_type == PT_LOAD {
            let pages = (ph.p_memsz + 0x1000 - 1) / 0x1000;
            let addr = (ph.p_paddr / 0x1000) * 0x1000;
            segs.push(LoadSegment { addr, pages, file_offset: ph.p_offset, paddr: ph.p_paddr, filesz: ph.p_filesz });
        }
        k = k + 1;
    }
    segs
}


/// Whether `load_segments` can run on this image (see `plan_ok`); where it
/// cannot, loading the kernel fails.
pub fn check_load_plan(data: &[u8], h: &Elf64Ehdr) -> (ok: bool)
    ensures
        ok == plan_ok(data@, *h),
{
    if h.e_phentsize == 0 {
        return false;
    }
    assert((h.e_phnum as int) * (h.e_phentsize as int) <= 65535 * 65535) by (nonlinear_arith)
        requires
            h.e_phnum <= 65535,
            h.e_phentsize <= 65535,
    ;
    let total: u64 = (h.e_phnum as u64) * (h.e_phentsize as u64);
    if total > 0xFFFF {
        return false;
    }
    let step = h.e_phentsize as u64;
    let len_usize: usize = data.len();
    let len = len_usize as u64;
    let mut k: u64 = 0;
    while k < h.e_phnum as u64
        invariant
            step == h.e_phentsize,
            step > 0,
            h.e_phnum * h.e_phentsize <= u16::MAX,
            len == data@.len(),
            len == len_usize,
            k <= h.e_phnum,
            forall|j: int| 0 <= j < k ==> #[trigger] ph_ok(data@, *h, j),
        decreases h.e_phnum - k,
    {
        assert(k * step <= h.e_phnum * h.e_phentsize) by (nonlinear_arith)
            requires
                k <= h.e_phnum,
                step == h.e_phentsize,
        ;
        let rel: u64 = k * step;
        let ghost off: int = h.e_phoff + (k as int) * (h.e_phentsize as int);
        assert((k as int) * (step as int) == (k as int) * (h.e_phentsize as int));
        assert(rel == off - h.e_phoff);
        if h.e_phoff > len || len - h.e_phoff < rel || len - h.e_phoff - rel < 56 {
            assert(!ph_ok(data@, *h, k as int));
            return false;
        }
        let ptr: u64 = h.e_phoff + rel;
        let ph = Elf64Phdr::parse(data, ptr as usize);
        proof {
            lemma_phdr_fields(data@, ptr as int);
        }
        assert(ptr == off);
        assert(phdr_at(data@, off).p_type == ph.p_type && phdr_at(data@, off).p_memsz == ph.p_memsz);
        if ph.p_type == PT_LOAD && ph.p_memsz > 0xFFFF_FFFF_FFFF_EFFF {
            assert(!ph_ok(data@, *h, k as int));
            return false;
        }
        assert(ph_ok(data@, *h, k as int));
        k = k + 1;
    }
    true
}

/// The magic number of a PSF1 font.
pub const PSF1_MAGIC0: u8 = 0x36;

/// The second byte of the PSF1 magic number.
pub const PSF1_MAGIC1: u8 = 0x04;

/// The header of a PSF1 console font.
#[derive(Debug, Clone, Copy)]
pub struct PSF1FontHeader {
    pub magic: [u8; 2],
    pub mode: u8,
    pub charsize: u8,
}

/// A console font: its header and the glyph bitmaps (`charsize` bytes per
/// glyph, one byte per pixel row).
pub struct PSF1Font {
    pub psf1_header: PSF1FontHeader,
    pub glyph_buffer: Vec<u8>,
}

impl PSF1FontHeader {
    /// Reads the header from the first four bytes of a font file.
    pub fn from_bytes(b: &[u8]) -> (h: PSF1FontHeader)
        requires
            b@.len() >= 4,
        ensures
            h.magic[0] == b@[0],
            h.magic[1] == b@[1],
            h.mode == b@[2],
            h.charsize == b@[3],
    {
        PSF1FontHeader { magic: [b[0], b[1]], mode: b[2], charsize: b[3] }
    }

    /// Whether the header carries the PSF1 magic number.
    pub fn is_valid(&self) -> (ok: bool)
        ensures
            ok == (self.magic[0] == PSF1_MAGIC0 && self.magic[1] == PSF1_MAGIC1),
    {
        self.magic[0] == PSF1_MAGIC0 && self.magic[1] == PSF1_MAGIC1
    }

    /// Bytes of glyph data after the header: 256 glyphs of `charsize` bytes,
    /// or 512 in mode 1.
    pub fn glyph_buffer_size(&self) -> (n: usize)
        ensures
            n == (self.charsize as int) * 256 * (if self.mode == 1 { 2int } else { 1int }),
    {
        let mut glyph_buffer_size = (self.charsize as usize) * 256;
        if self.mode == 1 {
            glyph_buffer_size = glyph_buffer_size * 2;
        }
        glyph_buffer_size
    }
}

impl PSF1Font {
    /// A font from its header and glyph data.
    pub fn new(psf1_header: PSF1FontHeader, glyph_buffer: Vec<u8>) -> (f: PSF1Font)
        ensures
            f.psf1_header == psf1_header,
            f.glyph_buffer@ == glyph_buffer@,
    {
        PSF1Font { psf1_header, glyph_buffer }
    }

    /// The stand-in font used before a real one is set: valid magic, no
    /// glyph rows, a single zero byte of data.
    pub fn null_font() -> (f: PSF1Font)
        ensures
            f.psf1_header.magic[0] == PSF1_MAGIC0,
            f.psf1_header.magic[1] == PSF1_MAGIC1,
            f.psf1_header.mode == 0,
            f.psf1_header.charsize == 0,
            f.glyph_buffer@ == seq![0u8],
    {
        let mut glyph_buffer: Vec<u8> = Vec::new();
        glyph_buffer.push(0);
        PSF1Font {
            psf1_header: PSF1FontHeader { magic: [PSF1_MAGIC0, PSF1_MAGIC1], mode: 0, charsize: 0 },
            glyph_buffer,
        }
    }
}

/// The largest horizontal resolution the boot loader picks.
pub const MAX_X: usize = 1600;

/// The largest vertical resolution the boot loader picks.
pub const MAX_Y: usize = 1400;

/// A mode fits the size limits.
pub open spec fn mode_fits(r: (usize, usize)) -> bool {
    r.0 <= MAX_X && r.1 <= MAX_Y
}

/// Picks the graphics mode: the last one, in the firmware's order, whose
/// resolution is at most 1600 by 1400; `None` when none fits (the current
/// mode is kept).
pub fn select_mode(resolutions: &[(usize, usize)]) -> (r: Option<usize>)
    ensures
        match r {
            Some(i) => i < resolutions@.len() && mode_fits(resolutions@[i as int]) && forall|j: int|
                i < j < resolutions@.len() ==> !mode_fits(#[trigger] resolutions@[j]),
            None => forall|j: int| 0 <= j < resolutions@.len() ==> !mode_fits(#[trigger] resolutions@[j]),
        },
{
    let mut chosen: Option<usize> = None;
    let mut i: usize = 0;
    while i < resolutions.len()
        invariant
            i <= resolutions@.len(),
            match chosen {
                Some(c) => c < i && mode_fits(resolutions@[c as int]) && forall|j: int|
                    c < j < i ==> !mode_fits(#[trigger] resolutions@[j]),
                None => forall|j: int| 0 <= j < i ==> !mode_fits(#[trigger] resolutions@[j]),
            },
        decreases resolutions@.len() - i,
    {
        let (x, y) = resolutions[i];
        if x <= MAX_X && y <= MAX_Y {
            chosen = Some(i);
        }
        i = i + 1;
    }
    chosen
}

} // verus!

verus! {

/// The plan takes exactly the loadable program headers: going from the
/// first `n` headers to the first `n + 1`, the plan grows by the load of
/// header `n` when its type is 1 (`PT_LOAD`), and stays as it is for any
/// other type (a TLS, note or stack header is never loaded).
pub proof fn law_plan_takes_only_loadable_headers(b: Seq<u8>, h: Elf64Ehdr, n: int)
    requires
        0 <= n,
    ensures
        ({
            let ph = phdr_at(b, h.e_phoff + n * h.e_phentsize);
            &&& ph.p_type == 1u32 ==> load_plan(b, h, n + 1) == load_plan(b, h, n).push(segment_of(ph))
            &&& ph.p_type != 1u32 ==> load_plan(b, h, n + 1) == load_plan(b, h, n)
        }),
        load_plan(b, h, 0).len() == 0,
{
}

/// A list of program headers without a loadable one (type 1) gives an
/// empty plan.
pub proof fn law_plan_without_loadable_headers_is_empty(b: Seq<u8>, h: Elf64Ehdr, n: int)
    requires
        0 <= n,
        forall|k: int| 0 <= k < n ==> #[trigger] phdr_at(b, h.e_phoff + k * h.e_phentsize).p_type != 1u32,
    ensures
        load_plan(b, h, n).len() == 0,
    decreases n,
{
    if n > 0 {
        assert(phdr_at(b, h.e_phoff + (n - 1) * h.e_phentsize).p_type != 1u32);
        law_plan_without_loadable_headers_is_empty(b, h, n - 1);
    }
}

/// The load of a header covers its memory: whole pages starting at the
/// page that holds its physical address, enough of them for its memory
/// size and not one more, and the file part is taken as the header gives it.
pub proof fn law_segment_covers_memory(ph: Elf64Phdr)
    requires
        ph.p_memsz + 0x1000 <= u64::MAX,
    ensures
        ({
            let seg = segment_of(ph);
            &&& seg.addr % 0x1000 == 0
            &&& seg.addr <= ph.p_paddr < seg.addr + 0x1000
            &&& seg.pages * 0x1000 >= ph.p_memsz
            &&& ph.p_memsz > 0 ==> (seg.pages - 1) * 0x1000 < ph.p_memsz
            &&& ph.p_memsz == 0 ==> seg.pages == 0
            &&& seg.file_offset == ph.p_offset
            &&& seg.paddr == ph.p_paddr
            &&& seg.filesz == ph.p_filesz
        }),
{
    let m = ph.p_memsz as int;
    let q = (m + 0x1000 - 1) / 0x1000;
    vstd::arithmetic::div_mod::lemma_fundamental_div_mod(m + 0x1000 - 1, 0x1000);
    vstd::arithmetic::div_mod::lemma_mod_pos_bound(m + 0x1000 - 1, 0x1000);
    let a = ph.p_paddr as int;
    vstd::arithmetic::div_mod::lemma_fundamental_div_mod(a, 0x1000);
    vstd::arithmetic::div_mod::lemma_mod_pos_bound(a, 0x1000);
    vstd::arithmetic::div_mod::lemma_div_pos_is_pos(a, 0x1000);
    vstd::arithmetic::div_mod::lemma_mod_multiples_basic(a / 0x1000, 0x1000);
    assert((a / 0x1000) * 0x1000 == 0x1000 * (a / 0x1000)) by (nonlinear_arith);
    assert((a / 0x1000) * 0x1000 <= u64::MAX) by (nonlinear_arith)
        requires
            a == 0x1000 * (a / 0x1000) + a % 0x1000,
            a % 0x1000 >= 0,
            a <= u64::MAX,
    ;
    vstd::arithmetic::div_mod::lemma_div_pos_is_pos(m + 0x1000 - 1, 0x1000);
    assert(q <= u64::MAX) by (nonlinear_arith)
        requires
            m + 0x1000 - 1 == 0x1000 * q + (m + 0x1000 - 1) % 0x1000,
            (m + 0x1000 - 1) % 0x1000 >= 0,
            m + 0x1000 <= u64::MAX,
    ;
    assert(segment_of(ph).pages == q);
    assert(segment_of(ph).addr == (a / 0x1000) * 0x1000);
}

} // verus!
