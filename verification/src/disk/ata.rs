use vstd::prelude::*;

verus! {

/// An ATA drive on a channel: the channel's base I/O port, master or slave,
/// and the sector size.
#[derive(Debug, Clone, Copy, PartialEq, Eq, Structural)]
pub struct ATA {
    pub port_base: u16,
    pub master: bool,
    pub bytes_per_sector: u16,
}

/// The register values of a 28-bit LBA command and how many data words move
/// after it: `data_words` carry the requested bytes, `padding_words` fill the
/// rest of the sector.
#[derive(Debug, Clone, Copy, PartialEq, Eq, Structural)]
pub struct AtaCommand {
    pub device: u8,
    pub sector_count: u8,
    pub lba_low: u8,
    pub lba_mid: u8,
    pub lba_hi: u8,
    pub command: u8,
    pub data_words: usize,
    pub padding_words: usize,
}

/// The device register for LBA addressing: 0xE0 for the master, 0xF0 for
/// the slave, with bits 24 to 27 of the sector number in the low nibble.
pub open spec fn lba_device(master: bool, sector: u32) -> u8 {
    ((if master { 0xE0u32 } else { 0xF0u32 }) | ((sector & 0x0F00_0000) >> 24u32)) as u8
}

/// Number of 16-bit words that carry `count` bytes.
pub open spec fn words_for(count: int) -> int {
    (count + count % 2) / 2
}

impl ATA {
    /// The drive on the channel at `port_base`; sectors are 512 bytes.
    pub fn new(port_base: u16, master: bool) -> (a: ATA)
        requires
            port_base + 0x206 <= u16::MAX,
        ensures
            a == (ATA { port_base, master, bytes_per_sector: 512 }),
    {
        ATA { port_base, master, bytes_per_sector: 512 }
    }

    /// The data port.
    pub fn data_port(&self) -> (p: u16)
        ensures
            p == self.port_base,
    {
        self.port_base
    }

    /// The port of register `offset` (1 error, 2 sector count, 3 to 5 LBA
    /// bytes, 6 device, 7 command/status).
    pub fn register_port(&self, offset: u16) -> (p: u16)
        requires
            offset <= 7,
            self.port_base + 0x206 <= u16::MAX,
        ensures
            p == self.port_base + offset,
    {
        self.port_base + offset
    }

    /// The device-control port.
    pub fn control_port(&self) -> (p: u16)
        requires
            self.port_base + 0x206 <= u16::MAX,
        ensures
            p == self.port_base + 0x206,
    {
        self.port_base + 0x206
    }

    /// The device register that selects this drive for IDENTIFY: 0xA0 for
    /// the master, 0xB0 for the slave.
    pub fn select_byte(&self) -> (b: u8)
        ensures
            b == (if self.master { 0xA0u8 } else { 0xB0u8 }),
    {
        if self.master {
            0xA0
        } else {
            0xB0
        }
    }

    /// The device register for LBA commands (see `lba_device`).
    pub fn device_byte(&self, sector: u32) -> (b: u8)
        ensures
            b == lba_device(self.master, sector),
    {
        let device_num: u32 = if self.master {
            0xE0
        } else {
            0xF0
        };
        let v = device_num | (sector & 0x0F00_0000) >> 24;
        assert(v <= 0xFF) by (bit_vector)
            requires
                device_num == 0xE0u32 || device_num == 0xF0u32,
                v == device_num | (sector & 0x0F00_0000u32) >> 24u32,
        ;
        v as u8
    }

    /// The command registers of a transfer of `count` bytes at `sector` with
    /// command byte `command`, or `None` when more than a sector is asked for.
    fn transfer(&self, sector: u32, count: usize, command: u8) -> (r: Option<AtaCommand>)
        requires
            self.bytes_per_sector == 512,
        ensures
            count > 512 ==> r is None,
            count <= 512 ==> r == Some(AtaCommand {
                device: lba_device(self.master, sector),
                sector_count: 1,
                lba_low: (sector & 0xFF) as u8,
                lba_mid: ((sector & 0xFF00) >> 8u32) as u8,
                lba_hi: ((sector & 0xFF_0000) >> 16u32) as u8,
                command,
                data_words: words_for(count as int) as usize,
                padding_words: (256 - words_for(count as int)) as usize,
            }),
    {
        assert(sector & 0xF000_0000u32 != 1) by (bit_vector);
        if sector & 0xF000_0000 == 1 || count > self.bytes_per_sector as usize {
            return None;
        }
        let device = self.device_byte(sector);
        assert((sector & 0xFFu32) <= 0xFF) by (bit_vector);
        assert(((sector & 0xFF00u32) >> 8u32) <= 0xFF) by (bit_vector);
        assert(((sector & 0xFF_0000u32) >> 16u32) <= 0xFF) by (bit_vector);
        let lba_low = (sector & 0x0000_00FF) as u8;
        let lba_mid = ((sector & 0x0000_FF00) >> 8) as u8;
        let lba_hi = ((sector & 0x00FF_0000) >> 16) as u8;
        let data_words = (count + count % 2) / 2;
        let padding_words = (self.bytes_per_sector as usize - (count + count % 2)) / 2;
        Some(AtaCommand {
            device,
            sector_count: 1,
            lba_low,
            lba_mid,
            lba_hi,
            command,
            data_words,
            padding_words,
        })
    }

    /// The READ SECTORS command for `count` bytes of `sector`; `None` (the
    /// read is skipped) when more than a sector is asked for. After the
    /// command, `data_words` words are shown as text and `padding_words` more
    /// are read and dropped.
    pub fn read_28(&self, sector: u32, count: usize) -> (r: Option<AtaCommand>)
        requires
            self.bytes_per_sector == 512,
        ensures
            r == (if count > 512 { None } else { Some(read_write_command(self.master, sector, count, 0x20)) }),
    {
        self.transfer(sector, count, 0x20)
    }

    /// The WRITE SECTORS command for `count` bytes at `sector`; `None` (the
    /// write is skipped) when more than a sector is offered.
    pub fn write_28(&self, sector: u32, count: usize) -> (r: Option<AtaCommand>)
        requires
            self.bytes_per_sector == 512,
        ensures
            r == (if count > 512 { None } else { Some(read_write_command(self.master, sector, count, 0x30)) }),
    {
        self.transfer(sector, count, 0x30)
    }

    /// The device register and command byte of CACHE FLUSH.
    pub fn flush(&self) -> (r: (u8, u8))
        ensures
            r == (if self.master { 0xE0u8 } else { 0xF0u8 }, 0xE7u8),
    {
        let device_num: u8 = if self.master {
            0xE0
        } else {
            0xF0
        };
        (device_num, 0xE7)
    }
}

/// The command `read_28`/`write_28` issue.
pub open spec fn read_write_command(master: bool, sector: u32, count: usize, command: u8) -> AtaCommand {
    AtaCommand {
        device: lba_device(master, sector),
        sector_count: 1,
        lba_low: (sector & 0xFF) as u8,
        lba_mid: ((sector & 0xFF00) >> 8u32) as u8,
        lba_hi: ((sector & 0xFF_0000) >> 16u32) as u8,
        command,
        data_words: words_for(count as int) as usize,
        padding_words: (256 - words_for(count as int)) as usize,
    }
}

/// The drive is still working: busy bit set and no error bit.
pub open spec fn busy(status: u8) -> bool {
    status & 0x80 == 0x80 && status & 0x01 != 0x01
}

/// Whether the status register says to keep waiting.
pub fn status_busy(status: u8) -> (b: bool)
    ensures
        b == busy(status),
{
    (status & 0x80) == 0x80 && (status & 0x01) != 0x01
}

/// Whether the status register reports an error.
pub fn status_error(status: u8) -> (b: bool)
    ensures
        b == (status & 0x01 == 1),
{
    status & 0x01 == 1
}

/// Which status-register read of the identify sequence a value comes from:
/// the presence check after selecting the drive, the first read after the
/// identify command, or a read while waiting for the drive.
#[derive(Debug, Clone, Copy, PartialEq, Eq, Structural)]
pub enum IdentifyStage {
    Presence,
    Command,
    Polling,
}

/// What the identify sequence does after a status read.
#[derive(Debug, Clone, Copy, PartialEq, Eq, Structural)]
pub enum IdentifyNext {
    /// No drive answers: identify gives nothing.
    NoDevice,
    /// A drive is there: send it the identify command.
    SendCommand,
    /// The drive is busy: read the status again.
    ReadStatus,
    /// The drive reports an error: identify gives nothing.
    Failed,
    /// The drive is ready: read the 256 identify words.
    ReadData,
}

/// The identify sequence's decision on a status read: a status of 0xFF at
/// the presence check, or 0x00 right after the command, means no drive;
/// after the command the drive is waited for while busy (see `busy`), then
/// an error bit ends the sequence and otherwise the data is read.
pub open spec fn identify_next_spec(stage: IdentifyStage, status: u8) -> IdentifyNext {
    match stage {
        IdentifyStage::Presence => if status == 0xFF {
            IdentifyNext::NoDevice
        } else {
            IdentifyNext::SendCommand
        },
        _ => if stage == IdentifyStage::Command && status == 0x00 {
            IdentifyNext::NoDevice
        } else if busy(status) {
            IdentifyNext::ReadStatus
        } else if status & 0x01 == 1 {
            IdentifyNext::Failed
        } else {
            IdentifyNext::ReadData
        },
    }
}

/// The identify sequence's decision on a status read (see
/// `identify_next_spec`).
pub fn identify_next(stage: IdentifyStage, status: u8) -> (n: IdentifyNext)
    ensures
        n == identify_next_spec(stage, status),
{
    match stage {
        IdentifyStage::Presence => {
            if status == 0xFF {
                IdentifyNext::NoDevice
            } else {
                IdentifyNext::SendCommand
            }
        },
        _ => {
            if stage == IdentifyStage::Command && status == 0x00 {
                IdentifyNext::NoDevice
            } else if status_busy(status) {
                IdentifyNext::ReadStatus
            } else if status_error(status) {
                IdentifyNext::Failed
            } else {
                IdentifyNext::ReadData
            }
        },
    }
}

/// The word sent for bytes `i` and `i + 1` of the first `count` bytes of
/// `data`: the first byte low, the second high (0 past the end).
pub open spec fn data_word(data: Seq<u8>, count: int, i: int) -> u16 {
    (data[i] as int + if i + 1 < count { data[i + 1] as int * 256 } else { 0 }) as u16
}

/// The 256 words written for a sector: the first `count` bytes of `data`
/// two by two, then zeros.
pub open spec fn sector_words(data: Seq<u8>, count: int) -> Seq<u16> {
    Seq::new(256, |k: int| if 2 * k < count { data_word(data, count, 2 * k) } else { 0u16 })
}

/// The words `write_28` sends for the first `count` bytes of `data`.
pub fn write_words(data: &[u8], count: usize) -> (words: Vec<u16>)
    requires
        count <= 512,
        count <= data@.len(),
    ensures
        words@ == sector_words(data@, count as int),
{
    let mut words: Vec<u16> = Vec::new();
    let mut i: usize = 0;
    while i < count
        invariant
            count <= 512,
            count <= data@.len(),
            i % 2 == 0,
            i <= count + 1,
            words@.len() == i / 2,
            forall|k: int| 0 <= k < words@.len() ==> words@[k] == sector_words(data@, count as int)[k],
        decreases count + 1 - i,
    {
        let lo: u8 = data[i];
        let mut wdata: u16 = lo as u16;
        if i + 1 < count {
            let hi: u8 = data[i + 1];
            wdata = wdata | ((hi as u16) << 8);
            assert(wdata == lo as int + hi as int * 256) by (bit_vector)
                requires
                    wdata == (lo as u16) | ((hi as u16) << 8u16),
            ;
        }
        words.push(wdata);
        i = i + 2;
    }
    while words.len() < 256
        invariant
            count <= 512,
            words@.len() <= 256,
            words@.len() >= (count + count % 2) / 2,
            forall|k: int| 0 <= k < words@.len() ==> words@[k] == sector_words(data@, count as int)[k],
        decreases 256 - words@.len(),
    {
        words.push(0);
    }
    assert(words@ =~= sector_words(data@, count as int));
    words
}

/// The bytes of a data word as the drive delivers text: high byte first.
pub open spec fn identify_bytes_spec(words: Seq<u16>) -> Seq<u8> {
    Seq::new(words.len() * 2, |i: int| if i % 2 == 0 { (words[i / 2] / 256) as u8 } else { (words[i / 2] % 256) as u8 })
}

/// Turns the 256 words of an IDENTIFY answer into bytes, high byte of each
/// word first.
pub fn identify_bytes(words: &[u16]) -> (bytes: Vec<u8>)
    requires
        words@.len() * 2 <= usize::MAX,
    ensures
        bytes@ == identify_bytes_spec(words@),
{
    let mut bytes: Vec<u8> = Vec::new();
    let mut k: usize = 0;
    while k < words.len()
        invariant
            k <= words@.len(),
            words@.len() * 2 <= usize::MAX,
            bytes@.len() == 2 * k,
            forall|i: int| 0 <= i < bytes@.len() ==> bytes@[i] == identify_bytes_spec(words@)[i],
        decreases words@.len() - k,
    {
        let data = words[k];
        let hi = ((data >> 8) & 0x00FF) as u8;
        let lo = (data & 0x00FF) as u8;
        assert(hi == data / 256 && lo == data % 256) by (bit_vector)
            requires
                hi == ((data >> 8u16) & 0x00FFu16) as u8,
                lo == (data & 0x00FFu16) as u8,
        ;
        bytes.push(hi);
        bytes.push(lo);
        k = k + 1;
    }
    assert(bytes@ =~= identify_bytes_spec(words@));
    bytes
}

/// The serial number (bytes 20 to 39) of an IDENTIFY answer.
pub fn serial(info: &[u8]) -> (s: Vec<u8>)
    requires
        info@.len() >= 512,
    ensures
        s@ == info@.subrange(20, 40),
{
    copy_range(info, 20, 40)
}

/// The model name (bytes 54 to 93) of an IDENTIFY answer.
pub fn model(info: &[u8]) -> (m: Vec<u8>)
    requires
        info@.len() >= 512,
    ensures
        m@ == info@.subrange(54, 94),
{
    copy_range(info, 54, 94)
}

fn copy_range(data: &[u8], from: usize, to: usize) -> (r: Vec<u8>)
    requires
        from <= to <= data@.len(),
    ensures
        r@ == data@.subrange(from as int, to as int),
{
    let mut r: Vec<u8> = Vec::new();
    let mut i = from;
    while i < to
        invariant
            from <= i <= to,
            to <= data@.len(),
            r@ == data@.subrange(from as int, i as int),
        decreases to - i,
    {
        r.push(data[i]);
        i = i + 1;
        assert(r@ =~= data@.subrange(from as int, i as int));
    }
    r
}


/// Reads the little-endian 16-bit value at `off`.
pub open spec fn le16(b: Seq<u8>, off: int) -> u16 {
    (b[off] as int + b[off + 1] as int * 256) as u16
}

/// Reads the little-endian 32-bit value at `off`.
pub open spec fn le32(b: Seq<u8>, off: int) -> u32 {
    (le16(b, off) as int + le16(b, off + 2) as int * 65536) as u32
}

fn read_le16(b: &[u8], off: usize) -> (v: u16)
    requires
        off + 2 <= b@.len(),
    ensures
        v == le16(b@, off as int),
{
    b[off] as u16 + (b[off + 1] as u16) * 256
}

fn read_le32(b: &[u8], off: usize) -> (v: u32)
    requires
        off + 4 <= b@.len(),
    ensures
        v == le32(b@, off as int),
{
    let len = b.len();
    assert(off + 4 <= len);
    read_le16(b, off) as u32 + (read_le16(b, off + 2) as u32) * 65536
}

fn read_byte_array<const N: usize>(b: &[u8], off: usize) -> (a: [u8; N])
    requires
        off + N <= b@.len(),
    ensures
        forall|i: int| 0 <= i < N ==> a[i] == b@[off + i],
{
    let mut a: [u8; N] = vstd::array::array_fill_for_copy_types::<u8, N>(0);
    let n = b.len();
    let mut i: usize = 0;
    while i < N
        invariant
            i <= N,
            off + N <= b@.len(),
            n == b@.len(),
            forall|k: int| 0 <= k < i ==> a[k] == b@[off + k],
        decreases N - i,
    {
        a[i] = b[off + i];
        i = i + 1;
    }
    a
}

fn read_word_array<const N: usize>(b: &[u8], off: usize) -> (a: [u16; N])
    requires
        off + 2 * N <= b@.len(),
    ensures
        forall|i: int| 0 <= i < N ==> a[i] == le16(b@, off + 2 * i),
{
    let mut a: [u16; N] = vstd::array::array_fill_for_copy_types::<u16, N>(0);
    let n = b.len();
    let mut i: usize = 0;
    while i < N
        invariant
            i <= N,
            off + 2 * N <= b@.len(),
            n == b@.len(),
            forall|k: int| 0 <= k < i ==> a[k] == le16(b@, off + 2 * k),
        decreases N - i,
    {
        a[i] = read_le16(b, off + 2 * i);
        i = i + 1;
    }
    a
}

/// The IDENTIFY DEVICE answer of an ATA drive, laid out as the drive
/// sends it (the bytes of `identify_bytes`).
#[derive(Debug, Clone, Copy)]
pub struct ATADiskIdentify {
    pub config: u16,
    pub cylinders: u16,
    pub specconf: u16,
    pub heads: u16,
    pub _obsolete2: [u16; 2],
    pub sectors: u16,
    pub vendor: [u16; 3],
    pub serial: [u8; 20],
    pub _retired20: [u16; 2],
    pub _obsolete22: u16,
    pub firmware_revision: [u8; 8],
    pub model: [u8; 40],
    pub sectors_per_interrupt: u16,
    pub tcg: u16,
    pub capabilities1: u16,
    pub capabilities2: u16,
    pub _retired_piomode: u16,
    pub _retired_dmamode: u16,
    pub ata_valid: u16,
    pub current_cylinders: u16,
    pub current_heads: u16,
    pub current_sectors: u16,
    pub current_size_1: u16,
    pub current_size_2: u16,
    pub multi: u16,
    pub lba_size_1: u16,
    pub lba_size_2: u16,
    pub _obsolete62: u16,
    pub multiword_dma_modes: u16,
    pub apio_modes: u16,
    pub mwdmamin: u16,
    pub mwdmarec: u16,
    pub pioblind: u16,
    pub pioiordy: u16,
    pub support3: u16,
    pub _reserved70: u16,
    pub rlsovlap: u16,
    pub rlsservice: u16,
    pub _reserved73: u16,
    pub _reserved74: u16,
    pub queue: u16,
    pub sata_capabilities: u16,
    pub sata_capabilities2: u16,
    pub sata_support: u16,
    pub sata_enabled: u16,
    pub version_major: u16,
    pub version_minor: u16,
    pub command_1: u16,
    pub command2: u16,
    pub extension: u16,
    pub ultra_dma_modes: u16,
    pub erase_time: u16,
    pub enhanced_erase_time: u16,
    pub apm_value: u16,
    pub master_passwd_revision: u16,
    pub hwres: u16,
    pub acoustic: u16,
    pub stream_min_req_size: u16,
    pub stream_transfer_time: u16,
    pub stream_access_latency: u16,
    pub stream_granularity: u32,
    pub lba_size48_1: u16,
    pub lba_size48_2: u16,
    pub lba_size48_3: u16,
    pub lba_size48_4: u16,
    pub _reserved104: u16,
    pub max_dsm_blocks: u16,
    pub pss: u16,
    pub isd: u16,
    pub wwm: [u16; 4],
    pub _reserved112: [u16; 5],
    pub lss_1: u16,
    pub lss_2: u16,
    pub support2: u16,
    pub enabled2: u16,
    pub _reserved121: [u16; 6],
    pub removable_status: u16,
    pub security_status: u16,
    pub _reserved129: [u16; 31],
    pub cfa_powermode1: u16,
    pub _reserved161: u16,
    pub cfa_kms_support: u16,
    pub cfa_trueide_modes: u16,
    pub cfa_memory_modes: u16,
    pub _reserved165: [u16; 3],
    pub form_factor: u16,
    pub support_dsm: u16,
    pub product_id: [u8; 8],
    pub _reserved174: [u16; 2],
    pub media_serial: [u8; 60],
    pub sct: u16,
    pub _reserved207: [u16; 2],
    pub lsalign: u16,
    pub wrv_sectors_m3_1: u16,
    pub wrv_sectors_m3_2: u16,
    pub wrv_sectors_m2_1: u16,
    pub wrv_sectors_m2_2: u16,
    pub nv_cache_caps: u16,
    pub nv_cache_size_1: u16,
    pub nv_cache_size_2: u16,
    pub media_rotation_rate: u16,
    pub _reserved218: u16,
    pub nv_cache_opt: u16,
    pub wrv_mode: u16,
    pub _reserved221: u16,
    pub transport_major: u16,
    pub transport_minor: u16,
    pub _reserved224: [u16; 31],
    pub integrity: u16,
}

impl ATADiskIdentify {
    /// Every field holds the bytes at its offset (16- and 32-bit values little
    /// endian).
    pub open spec fn decoded_from(&self, b: Seq<u8>) -> bool {
        &&& self.config == le16(b, 0)
        &&& self.cylinders == le16(b, 2)
        &&& self.specconf == le16(b, 4)
        &&& self.heads == le16(b, 6)
        &&& forall|i: int| 0 <= i < 2 ==> self._obsolete2[i] == le16(b, 8 + 2 * i)
        &&& self.sectors == le16(b, 12)
        &&& forall|i: int| 0 <= i < 3 ==> self.vendor[i] == le16(b, 14 + 2 * i)
        &&& forall|i: int| 0 <= i < 20 ==> self.serial[i] == b[20 + i]
        &&& forall|i: int| 0 <= i < 2 ==> self._retired20[i] == le16(b, 40 + 2 * i)
        &&& self._obsolete22 == le16(b, 44)
        &&& forall|i: int| 0 <= i < 8 ==> self.firmware_revision[i] == b[46 + i]
        &&& forall|i: int| 0 <= i < 40 ==> self.model[i] == b[54 + i]
        &&& self.sectors_per_interrupt == le16(b, 94)
        &&& self.tcg == le16(b, 96)
        &&& self.capabilities1 == le16(b, 98)
        &&& self.capabilities2 == le16(b, 100)
        &&& self._retired_piomode == le16(b, 102)
        &&& self._retired_dmamode == le16(b, 104)
        &&& self.ata_valid == le16(b, 106)
        &&& self.current_cylinders == le16(b, 108)
        &&& self.current_heads == le16(b, 110)
        &&& self.current_sectors == le16(b, 112)
        &&& self.current_size_1 == le16(b, 114)
        &&& self.current_size_2 == le16(b, 116)
        &&& self.multi == le16(b, 118)
        &&& self.lba_size_1 == le16(b, 120)
        &&& self.lba_size_2 == le16(b, 122)
        &&& self._obsolete62 == le16(b, 124)
        &&& self.multiword_dma_modes == le16(b, 126)
        &&& self.apio_modes == le16(b, 128)
        &&& self.mwdmamin == le16(b, 130)
        &&& self.mwdmarec == le16(b, 132)
        &&& self.pioblind == le16(b, 134)
        &&& self.pioiordy == le16(b, 136)
        &&& self.support3 == le16(b, 138)
        &&& self._reserved70 == le16(b, 140)
        &&& self.rlsovlap == le16(b, 142)
        &&& self.rlsservice == le16(b, 144)
        &&& self._reserved73 == le16(b, 146)
        &&& self._reserved74 == le16(b, 148)
        &&& self.queue == le16(b, 150)
        &&& self.sata_capabilities == le16(b, 152)
        &&& self.sata_capabilities2 == le16(b, 154)
        &&& self.sata_support == le16(b, 156)
        &&& self.sata_enabled == le16(b, 158)
        &&& self.version_major == le16(b, 160)
        &&& self.version_minor == le16(b, 162)
        &&& self.command_1 == le16(b, 164)
        &&& self.command2 == le16(b, 166)
        &&& self.extension == le16(b, 168)
        &&& self.ultra_dma_modes == le16(b, 170)
        &&& self.erase_time == le16(b, 172)
        &&& self.enhanced_erase_time == le16(b, 174)
        &&& self.apm_value == le16(b, 176)
        &&& self.master_passwd_revision == le16(b, 178)
        &&& self.hwres == le16(b, 180)
        &&& self.acoustic == le16(b, 182)
        &&& self.stream_min_req_size == le16(b, 184)
        &&& self.stream_transfer_time == le16(b, 186)
        &&& self.stream_access_latency == le16(b, 188)
        &&& self.stream_granularity == le32(b, 192)
        &&& self.lba_size48_1 == le16(b, 196)
        &&& self.lba_size48_2 == le16(b, 198)
        &&& self.lba_size48_3 == le16(b, 200)
        &&& self.lba_size48_4 == le16(b, 202)
        &&& self._reserved104 == le16(b, 204)
        &&& self.max_dsm_blocks == le16(b, 206)
        &&& self.pss == le16(b, 208)
        &&& self.isd == le16(b, 210)
        &&& forall|i: int| 0 <= i < 4 ==> self.wwm[i] == le16(b, 212 + 2 * i)
        &&& forall|i: int| 0 <= i < 5 ==> self._reserved112[i] == le16(b, 220 + 2 * i)
        &&& self.lss_1 == le16(b, 230)
        &&& self.lss_2 == le16(b, 232)
        &&& self.support2 == le16(b, 234)
        &&& self.enabled2 == le16(b, 236)
        &&& forall|i: int| 0 <= i < 6 ==> self._reserved121[i] == le16(b, 238 + 2 * i)
        &&& self.removable_status == le16(b, 250)
        &&& self.security_status == le16(b, 252)
        &&& forall|i: int| 0 <= i < 31 ==> self._reserved129[i] == le16(b, 254 + 2 * i)
        &&& self.cfa_powermode1 == le16(b, 316)
        &&& self._reserved161 == le16(b, 318)
        &&& self.cfa_kms_support == le16(b, 320)
        &&& self.cfa_trueide_modes == le16(b, 322)
        &&& self.cfa_memory_modes == le16(b, 324)
        &&& forall|i: int| 0 <= i < 3 ==> self._reserved165[i] == le16(b, 326 + 2 * i)
        &&& self.form_factor == le16(b, 332)
        &&& self.support_dsm == le16(b, 334)
        &&& forall|i: int| 0 <= i < 8 ==> self.product_id[i] == b[336 + i]
        &&& forall|i: int| 0 <= i < 2 ==> self._reserved174[i] == le16(b, 344 + 2 * i)
        &&& forall|i: int| 0 <= i < 60 ==> self.media_serial[i] == b[348 + i]
        &&& self.sct == le16(b, 408)
        &&& forall|i: int| 0 <= i < 2 ==> self._reserved207[i] == le16(b, 410 + 2 * i)
        &&& self.lsalign == le16(b, 414)
        &&& self.wrv_sectors_m3_1 == le16(b, 416)
        &&& self.wrv_sectors_m3_2 == le16(b, 418)
        &&& self.wrv_sectors_m2_1 == le16(b, 420)
        &&& self.wrv_sectors_m2_2 == le16(b, 422)
        &&& self.nv_cache_caps == le16(b, 424)
        &&& self.nv_cache_size_1 == le16(b, 426)
        &&& self.nv_cache_size_2 == le16(b, 428)
        &&& self.media_rotation_rate == le16(b, 430)
        &&& self._reserved218 == le16(b, 432)
        &&& self.nv_cache_opt == le16(b, 434)
        &&& self.wrv_mode == le16(b, 436)
        &&& self._reserved221 == le16(b, 438)
        &&& self.transport_major == le16(b, 440)
        &&& self.transport_minor == le16(b, 442)
        &&& forall|i: int| 0 <= i < 31 ==> self._reserved224[i] == le16(b, 444 + 2 * i)
        &&& self.integrity == le16(b, 506)
    }

    /// Decodes an IDENTIFY answer.
    #[verifier::rlimit(60)]
    pub fn from_bytes(b: &[u8]) -> (info: ATADiskIdentify)
        requires
            b@.len() >= 508,
        ensures
            info.decoded_from(b@),
    {
        ATADiskIdentify {
            config: read_le16(b, 0),
            cylinders: read_le16(b, 2),
            specconf: read_le16(b, 4),
            heads: read_le16(b, 6),
            _obsolete2: read_word_array::<2>(b, 8),
            sectors: read_le16(b, 12),
            vendor: read_word_array::<3>(b, 14),
            serial: read_byte_array::<20>(b, 20),
            _retired20: read_word_array::<2>(b, 40),
            _obsolete22: read_le16(b, 44),
            firmware_revision: read_byte_array::<8>(b, 46),
            model: read_byte_array::<40>(b, 54),
            sectors_per_interrupt: read_le16(b, 94),
            tcg: read_le16(b, 96),
            capabilities1: read_le16(b, 98),
            capabilities2: read_le16(b, 100),
            _retired_piomode: read_le16(b, 102),
            _retired_dmamode: read_le16(b, 104),
            ata_valid: read_le16(b, 106),
            current_cylinders: read_le16(b, 108),
            current_heads: read_le16(b, 110),
            current_sectors: read_le16(b, 112),
            current_size_1: read_le16(b, 114),
            current_size_2: read_le16(b, 116),
            multi: read_le16(b, 118),
            lba_size_1: read_le16(b, 120),
            lba_size_2: read_le16(b, 122),
            _obsolete62: read_le16(b, 124),
            multiword_dma_modes: read_le16(b, 126),
            apio_modes: read_le16(b, 128),
            mwdmamin: read_le16(b, 130),
            mwdmarec: read_le16(b, 132),
            pioblind: read_le16(b, 134),
            pioiordy: read_le16(b, 136),
            support3: read_le16(b, 138),
            _reserved70: read_le16(b, 140),
            rlsovlap: read_le16(b, 142),
            rlsservice: read_le16(b, 144),
            _reserved73: read_le16(b, 146),
            _reserved74: read_le16(b, 148),
            queue: read_le16(b, 150),
            sata_capabilities: read_le16(b, 152),
            sata_capabilities2: read_le16(b, 154),
            sata_support: read_le16(b, 156),
            sata_enabled: read_le16(b, 158),
            version_major: read_le16(b, 160),
            version_minor: read_le16(b, 162),
            command_1: read_le16(b, 164),
            command2: read_le16(b, 166),
            extension: read_le16(b, 168),
            ultra_dma_modes: read_le16(b, 170),
            erase_time: read_le16(b, 172),
            enhanced_erase_time: read_le16(b, 174),
            apm_value: read_le16(b, 176),
            master_passwd_revision: read_le16(b, 178),
            hwres: read_le16(b, 180),
            acoustic: read_le16(b, 182),
            stream_min_req_size: read_le16(b, 184),
            stream_transfer_time: read_le16(b, 186),
            stream_access_latency: read_le16(b, 188),
            stream_granularity: read_le32(b, 192),
            lba_size48_1: read_le16(b, 196),
            lba_size48_2: read_le16(b, 198),
            lba_size48_3: read_le16(b, 200),
            lba_size48_4: read_le16(b, 202),
            _reserved104: read_le16(b, 204),
            max_dsm_blocks: read_le16(b, 206),
            pss: read_le16(b, 208),
            isd: read_le16(b, 210),
            wwm: read_word_array::<4>(b, 212),
            _reserved112: read_word_array::<5>(b, 220),
            lss_1: read_le16(b, 230),
            lss_2: read_le16(b, 232),
            support2: read_le16(b, 234),
            enabled2: read_le16(b, 236),
            _reserved121: read_word_array::<6>(b, 238),
            removable_status: read_le16(b, 250),
            security_status: read_le16(b, 252),
            _reserved129: read_word_array::<31>(b, 254),
            cfa_powermode1: read_le16(b, 316),
            _reserved161: read_le16(b, 318),
            cfa_kms_support: read_le16(b, 320),
            cfa_trueide_modes: read_le16(b, 322),
            cfa_memory_modes: read_le16(b, 324),
            _reserved165: read_word_array::<3>(b, 326),
            form_factor: read_le16(b, 332),
            support_dsm: read_le16(b, 334),
            product_id: read_byte_array::<8>(b, 336),
            _reserved174: read_word_array::<2>(b, 344),
            media_serial: read_byte_array::<60>(b, 348),
            sct: read_le16(b, 408),
            _reserved207: read_word_array::<2>(b, 410),
            lsalign: read_le16(b, 414),
            wrv_sectors_m3_1: read_le16(b, 416),
            wrv_sectors_m3_2: read_le16(b, 418),
            wrv_sectors_m2_1: read_le16(b, 420),
            wrv_sectors_m2_2: read_le16(b, 422),
            nv_cache_caps: read_le16(b, 424),
            nv_cache_size_1: read_le16(b, 426),
            nv_cache_size_2: read_le16(b, 428),
            media_rotation_rate: read_le16(b, 430),
            _reserved218: read_le16(b, 432),
            nv_cache_opt: read_le16(b, 434),
            wrv_mode: read_le16(b, 436),
            _reserved221: read_le16(b, 438),
            transport_major: read_le16(b, 440),
            transport_minor: read_le16(b, 442),
            _reserved224: read_word_array::<31>(b, 444),
            integrity: read_le16(b, 506),
        }
    }
}

} // verus!
