//! The four ATA drives (primary/secondary channel, master/slave) and the
//! screen-sized transfers the console performs on them.

use vstd::prelude::*;
use crate::vga_buffer::colour::{Colour, ColourCode};
use crate::vga_buffer::writer::{ScreenState, Writer, st_first_line, st_ok};
use vstd::string::StringSliceAdditionalSpecFns;

pub mod ata;

verus! {

/// Base I/O port of the primary ATA channel (drives 0 and 1).
pub const PRIMARY_PORT_BASE: u16 = 0x1F0;

/// Base I/O port of the secondary ATA channel (drives 2 and 3).
pub const SECONDARY_PORT_BASE: u16 = 0x170;

/// A read of `count` bytes of `sector` on drive `drive` (0 to 3).
#[derive(Debug, Clone, Copy, PartialEq, Eq, Structural)]
pub struct DiskRead {
    pub drive: u8,
    pub sector: u32,
    pub count: usize,
}

/// A write of `data` to `sector` on drive `drive` (0 to 3), followed by a
/// cache flush.
pub struct DiskWrite {
    pub drive: u8,
    pub sector: u32,
    pub data: Vec<u8>,
}

/// The drive number names one of the four drives.
pub open spec fn valid_drive(drive: u8) -> bool {
    drive <= 3
}

/// The status line shown for a drive number that names no drive.
pub open spec fn invalid_drive_message() -> Seq<u8> {
    "Invalid drive number :(".spec_bytes()
}

proof fn lemma_invalid_drive_message()
    ensures
        invalid_drive_message().len() == 23,
{
    reveal_strlit("Invalid drive number :(");
    vstd::string::is_ascii_spec_bytes("Invalid drive number :(");
    assert(vstd::string::is_ascii("Invalid drive number :("));
}

/// The screen after the invalid-drive report was shown `n` times.
pub open spec fn reported_invalid(w: ScreenState, n: nat) -> ScreenState
    decreases n,
{
    if n == 0 {
        w
    } else {
        st_first_line(reported_invalid(w, (n - 1) as nat), invalid_drive_message(), ColourCode(12))
    }
}

/// Reads `count` bytes of `sector` from drive `drive`: for drives 0 to 3 the
/// read to perform is returned; for any other number the status line reports
/// an invalid drive and nothing is read.
pub fn read(drive: u8, sector: u32, count: usize, writer: &mut Writer) -> (r: Option<DiskRead>)
    requires
        old(writer).wf(),
        st_ok(old(writer)@),
    ensures
        final(writer).wf(),
        st_ok(final(writer)@),
        valid_drive(drive) ==> r == Some(DiskRead { drive, sector, count }) && final(writer)@ == old(writer)@,
        !valid_drive(drive) ==> r is None && final(writer)@ == st_first_line(
            old(writer)@,
            invalid_drive_message(),
            ColourCode(12),
        ),
{
    match drive {
        0 | 1 | 2 | 3 => Some(DiskRead { drive, sector, count }),
        _ => {
            proof {
                lemma_invalid_drive_message();
            }
            writer.write_first_line("Invalid drive number :(", ColourCode::from_fg(Colour::LightRed));
            None
        },
    }
}

/// The reads of a screen section: a section is the chunk of 8 sectors from
/// sector `8 * section`; sectors 0 to 6 of it are read in full (256 bytes
/// shown), then its last sector, 7, for 128 bytes.
pub open spec fn screen_reads(drive: u8, section: u32) -> Seq<DiskRead> {
    let sector = section * 8;
    Seq::new(8, |i: int| if i < 7 {
        DiskRead { drive, sector: (sector + i) as u32, count: 256 }
    } else {
        DiskRead { drive, sector: (sector + 7) as u32, count: 128 }
    })
}

/// Reads a screen section from drive `drive` (see `screen_reads`); an
/// invalid drive number is reported on the status line and nothing is read.
pub fn read_screen(drive: u8, section: u32, writer: &mut Writer) -> (reads: Vec<DiskRead>)
    requires
        old(writer).wf(),
        st_ok(old(writer)@),
        section * 8 + 7 <= u32::MAX,
    ensures
        final(writer).wf(),
        st_ok(final(writer)@),
        valid_drive(drive) ==> reads@ == screen_reads(drive, section) && final(writer)@ == old(writer)@,
        !valid_drive(drive) ==> reads@.len() == 0 && final(writer)@ == reported_invalid(old(writer)@, 8),
{
    let sector = section * 8;
    let mut reads: Vec<DiskRead> = Vec::new();
    let mut i: u32 = 0;
    while i < 7
        invariant
            i <= 7,
            sector == section * 8,
            section * 8 + 7 <= u32::MAX,
            writer.wf(),
            st_ok(writer@),
            valid_drive(drive) ==> writer@ == old(writer)@ && reads@ == screen_reads(drive, section).subrange(0, i as int),
            !valid_drive(drive) ==> reads@.len() == 0 && writer@ == reported_invalid(old(writer)@, i as nat),
        decreases 7 - i,
    {
        match read(drive, sector + i, 256, writer) {
            Some(r) => reads.push(r),
            None => {},
        }
        i = i + 1;
        assert(valid_drive(drive) ==> reads@ =~= screen_reads(drive, section).subrange(0, i as int));
    }
    match read(drive, sector + 7, 128, writer) {
        Some(r) => reads.push(r),
        None => {},
    }
    assert(valid_drive(drive) ==> reads@ =~= screen_reads(drive, section));
    reads
}

/// Writes `data` to `sector` of drive `drive` and flushes it: for drives 0
/// to 3 the write to perform is returned; for any other number the status
/// line reports an invalid drive.
pub fn write(drive: u8, sector: u32, data: &[u8], writer: &mut Writer) -> (r: Option<DiskWrite>)
    requires
        old(writer).wf(),
        st_ok(old(writer)@),
    ensures
        final(writer).wf(),
        st_ok(final(writer)@),
        valid_drive(drive) ==> (r matches Some(w) && w.drive == drive && w.sector == sector && w.data@ == data@
            && final(writer)@ == old(writer)@),
        !valid_drive(drive) ==> r is None && final(writer)@ == st_first_line(
            old(writer)@,
            invalid_drive_message(),
            ColourCode(12),
        ),
{
    match drive {
        0 | 1 | 2 | 3 => {
            let mut v: Vec<u8> = Vec::new();
            let mut i: usize = 0;
            while i < data.len()
                invariant
                    i <= data@.len(),
                    v@ == data@.subrange(0, i as int),
                decreases data@.len() - i,
            {
                v.push(data[i]);
                i = i + 1;
                assert(v@ =~= data@.subrange(0, i as int));
            }
            assert(v@ =~= data@);
            Some(DiskWrite { drive, sector, data: v })
        },
        _ => {
            proof {
                lemma_invalid_drive_message();
            }
            writer.write_first_line("Invalid drive number :(", ColourCode::from_fg(Colour::LightRed));
            None
        },
    }
}

/// Writes a screen's bytes to a section of drive `drive`: the first 7
/// chunks of 256 bytes go to sectors 0 to 6 of the section (the chunk of 8
/// sectors from `8 * section`), the rest of the data to its last sector, 7.
pub fn write_screen(drive: u8, section: u32, data: Vec<u8>, writer: &mut Writer) -> (writes: Vec<DiskWrite>)
    requires
        old(writer).wf(),
        st_ok(old(writer)@),
        section * 8 + 7 <= u32::MAX,
        data@.len() >= 7 * 256,
    ensures
        final(writer).wf(),
        st_ok(final(writer)@),
        valid_drive(drive) ==> {
            &&& writes@.len() == 8
            &&& final(writer)@ == old(writer)@
            &&& forall|i: int|
                0 <= i < 7 ==> (#[trigger] writes@[i]).drive == drive && writes@[i].sector == section * 8 + i
                    && writes@[i].data@ == data@.subrange(i * 256, i * 256 + 256)
            &&& writes@[7].drive == drive && writes@[7].sector == section * 8 + 7 && writes@[7].data@
                == data@.subrange(7 * 256 as int, data@.len() as int)
            &&& forall|i: int|
                0 <= i < 8 ==> (#[trigger] writes@[i]).sector == section * 8 + i && writes@[i].data@ == screen_chunk(
                    data@,
                    i,
                )
        },
        !valid_drive(drive) ==> writes@.len() == 0 && final(writer)@ == reported_invalid(old(writer)@, 8),
{
    let sector = section * 8;
    let mut writes: Vec<DiskWrite> = Vec::new();
    let mut i: usize = 0;
    while i < 7
        invariant
            i <= 7,
            sector == section * 8,
            section * 8 + 7 <= u32::MAX,
            data@.len() >= 7 * 256,
            writer.wf(),
            st_ok(writer@),
            valid_drive(drive) ==> {
                &&& writer@ == old(writer)@
                &&& writes@.len() == i
                &&& forall|k: int|
                    0 <= k < i ==> (#[trigger] writes@[k]).drive == drive && writes@[k].sector == section * 8 + k
                        && writes@[k].data@ == data@.subrange(k * 256, k * 256 + 256)
            },
            !valid_drive(drive) ==> writes@.len() == 0 && writer@ == reported_invalid(old(writer)@, i as nat),
        decreases 7 - i,
    {
        let small_data = slice_range(&data, i * 256, i * 256 + 256);
        match write(drive, sector + i as u32, small_data.as_slice(), writer) {
            Some(w) => writes.push(w),
            None => {},
        }
        i = i + 1;
    }
    let rest = slice_range(&data, 7 * 256, data.len());
    match write(drive, sector + 7, rest.as_slice(), writer) {
        Some(w) => writes.push(w),
        None => {},
    }
    proof {
        if valid_drive(drive) {
            assert forall|i: int| 0 <= i < 8 implies (#[trigger] writes@[i]).sector == section * 8 + i
                && writes@[i].data@ == screen_chunk(data@, i) by {
                if i == 7 {
                    assert(writes@[7].data@ == data@.subrange(7 * 256 as int, data@.len() as int));
                }
            }
        }
    }
    writes
}

/// The bytes of `data` from `from` up to `to`.
fn slice_range(data: &Vec<u8>, from: usize, to: usize) -> (r: Vec<u8>)
    requires
        from <= to <= data@.len(),
    ensures
        r@ == data@.subrange(from as int, to as int),
{
    let mut r: Vec<u8> = Vec::new();
    let mut i = from;
    while i < to
        invariant
            from <= i <= to,
            to <= data@.len(),
            r@ == data@.subrange(from as int, i as int),
        decreases to - i,
    {
        r.push(data[i]);
        i = i + 1;
        assert(r@ =~= data@.subrange(from as int, i as int));
    }
    r
}

/// The bytes `write_screen` sends in its `i`-th write: 256-byte chunks for
/// the first 7, the rest of the data for the last.
pub open spec fn screen_chunk(data: Seq<u8>, i: int) -> Seq<u8> {
    if i < 7 {
        data.subrange(i * 256, i * 256 + 256)
    } else {
        data.subrange(7 * 256 as int, data.len() as int)
    }
}

/// What is written to a section is what is read back from it: for a screen
/// dump of 1920 bytes, byte `k` goes out in write `k / 256` (see
/// `write_screen`) at position `k % 256` of its chunk, and read `k / 256`
/// of `read_screen` asks for the same sector and shows at least that many
/// bytes of it; the reads and the writes of a section use the same 8
/// sectors, in the same order.
pub proof fn law_screen_read_back_matches_write(drive: u8, section: u32, data: Seq<u8>)
    requires
        data.len() == 1920,
        section * 8 + 7 <= u32::MAX,
    ensures
        forall|k: int|
            0 <= k < 1920 ==> {
                let i = k / 256;
                let j = k % 256;
                &&& 0 <= i < 8
                &&& screen_reads(drive, section)[i].sector == section * 8 + i
                &&& j < screen_reads(drive, section)[i].count
                &&& j < screen_chunk(data, i).len()
                &&& #[trigger] data[k] == screen_chunk(data, i)[j]
            },
        forall|i: int|
            0 <= i < 8 ==> (#[trigger] screen_reads(drive, section)[i]).sector == section * 8 + i
                && screen_reads(drive, section)[i].drive == drive,
{
    assert forall|k: int| 0 <= k < 1920 implies {
        let i = k / 256;
        let j = k % 256;
        &&& 0 <= i < 8
        &&& screen_reads(drive, section)[i].sector == section * 8 + i
        &&& j < screen_reads(drive, section)[i].count
        &&& j < screen_chunk(data, i).len()
        &&& #[trigger] data[k] == screen_chunk(data, i)[j]
    } by {
        let i = k / 256;
        let j = k % 256;
        vstd::arithmetic::div_mod::lemma_fundamental_div_mod(k, 256);
        vstd::arithmetic::div_mod::lemma_mod_pos_bound(k, 256);
        vstd::arithmetic::div_mod::lemma_div_pos_is_pos(k, 256);
        assert(k == 256 * i + j);
        assert(i < 8) by (nonlinear_arith)
            requires
                k == 256 * i + j,
                0 <= j,
                k < 1920,
        ;
        assert(i == 7 ==> j < 128);
    }
}

} // verus!
