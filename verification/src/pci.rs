//! PCI configuration space: addressing a register, decoding device
//! descriptors and base address registers, and naming known devices.

use vstd::prelude::*;

verus! {

/// I/O port that takes a configuration address.
pub const COMMAND_PORT: u16 = 0xCF8;

/// I/O port that carries the addressed configuration register.
pub const DATA_PORT: u16 = 0xCFC;

/// Whether a base address register maps memory or I/O ports.
#[derive(Debug, Clone, Copy, PartialEq, Eq, Structural)]
pub enum BaseAddressRegisterType {
    MemoryMapping,
    InputOutput,
}

/// A decoded base address register.
#[derive(Debug, Clone, Copy, PartialEq, Eq, Structural)]
pub struct BaseAddressRegister {
    pub prefetchable: bool,
    pub address: u8,
    pub size: u32,
    pub register_type: BaseAddressRegisterType,
}

/// What the configuration space says about one device function.
#[derive(Debug, Clone, Copy, PartialEq, Eq, Structural)]
pub struct PCIDevice {
    pub port_base: u32,
    pub interrupt: u32,
    pub bus: u16,
    pub device: u16,
    pub function: u16,
    pub vendor_id: u16,
    pub device_id: u16,
    pub class_id: u8,
    pub subclass_id: u8,
    pub interface_id: u8,
    pub revision: u8,
}

/// The configuration address of a register: the enable bit, the bus,
/// device and function numbers, and the register offset rounded down to a
/// multiple of 4.
pub open spec fn config_address(bus: u16, device: u16, function: u16, register_offset: u32) -> u32 {
    0x8000_0000u32 | ((bus as u32) << 16u32) | ((device as u32) << 11u32) | ((function as u32) << 8u32) | (
    register_offset & 0xFC)
}

/// The configuration address of a register (see `config_address`).
pub fn make_id(bus: u16, device: u16, function: u16, register_offset: u32) -> (id: u32)
    ensures
        id == config_address(bus, device, function, register_offset),
{
    let id: u32 = 0x1 << 31u32 | (bus as u32) << 16u32 | (device as u32) << 11u32 | (function as u32) << 8u32
        | (register_offset & 0xFC);
    assert(0x1u32 << 31u32 == 0x8000_0000u32) by (bit_vector);
    id
}

/// The register value as `read` returns it: the 32-bit word read from the
/// data port shifted right by the register's byte position in that word.
pub fn register_value(result: u32, register_offset: u32) -> (v: u32)
    ensures
        v == result >> (8 * (register_offset % 4)) as u32,
{
    result >> (8 * (register_offset % 4))
}

/// Whether a device has several functions, from its header-type register
/// (offset 0x0E): bit 7 set.
pub fn get_device_functions(header_register: u32) -> (multi: bool)
    ensures
        multi == (header_register & 0x80 != 0),
{
    let function0 = header_register & (1 << 7);
    assert(1u32 << 7u32 == 0x80u32) by (bit_vector);
    if function0 >= 1 {
        return true;
    } else {
        return false;
    }
}

/// Builds the descriptor of a device function from its registers (as
/// `read` returns them): vendor (0x00), device (0x02), class (0x0B),
/// subclass (0x0A), interface (0x09), revision (0x08) and interrupt (0x3C).
pub fn get_device_descriptor(
    bus: u16,
    device: u16,
    function: u16,
    r00: u32,
    r02: u32,
    r0b: u32,
    r0a: u32,
    r09: u32,
    r08: u32,
    r3c: u32,
) -> (d: PCIDevice)
    ensures
        d == (PCIDevice {
            port_base: 0,
            bus,
            device,
            function,
            vendor_id: (r00 & 0xFFFF) as u16,
            device_id: (r02 & 0xFFFF) as u16,
            class_id: (r0b & 0xFF) as u8,
            subclass_id: (r0a & 0xFF) as u8,
            interface_id: (r09 & 0xFF) as u8,
            revision: (r08 & 0xFF) as u8,
            interrupt: r3c,
        }),
{
    PCIDevice {
        port_base: 0,
        bus,
        device,
        function,
        vendor_id: (r00 & 0xFFFF) as u16,
        device_id: (r02 & 0xFFFF) as u16,
        class_id: (r0b & 0xFF) as u8,
        subclass_id: (r0a & 0xFF) as u8,
        interface_id: (r09 & 0xFF) as u8,
        revision: (r08 & 0xFF) as u8,
        interrupt: r3c,
    }
}

/// A vendor ID that means no device answered.
pub open spec fn absent_vendor(vendor_id: u16) -> bool {
    vendor_id == 0x0000 || vendor_id == 0xFFFF
}

/// Whether a device function is absent (vendor 0x0000 or 0xFFFF).
pub fn device_absent(dev: &PCIDevice) -> (b: bool)
    ensures
        b == absent_vendor(dev.vendor_id),
{
    dev.vendor_id == 0x0000 || dev.vendor_id == 0xFFFF
}

/// How many base address registers a header type has: 6 for a general
/// device (type 0), 2 for a bridge (type 1).
pub fn max_bars(header_register: u32) -> (n: u32)
    requires
        header_register & 0x7F <= 1,
    ensures
        n == 6 - 4 * (header_register & 0x7F),
{
    let header_type = header_register & 0x7F;
    6 - (4 * header_type)
}

/// The configuration offset of base address register `bar_num`.
pub fn bar_offset(bar_num: u16) -> (o: u32)
    ensures
        o == 0x10 + 4 * bar_num,
{
    0x10 + 4 * bar_num as u32
}

/// Decodes a base address register value: bit 0 set means I/O ports, whose
/// address is the low byte with the two flag bits cleared; otherwise memory,
/// prefetchable when bit 3 is set, with address 0.
pub fn decode_bar(bar_value: u32) -> (bar: BaseAddressRegister)
    ensures
        bar.size == 0,
        bar_value & 0x1 == 1 ==> bar.register_type == BaseAddressRegisterType::InputOutput && !bar.prefetchable
            && bar.address == ((bar_value & !0x3u32) & 0xFF) as u8,
        bar_value & 0x1 != 1 ==> bar.register_type == BaseAddressRegisterType::MemoryMapping && bar.address == 0
            && bar.prefetchable == (((bar_value >> 3u32) & 0x1) == 0x1),
{
    let register_type = if bar_value & 0x1 == 1 {
        BaseAddressRegisterType::InputOutput
    } else {
        BaseAddressRegisterType::MemoryMapping
    };
    let address;
    let prefetchable;
    if register_type == BaseAddressRegisterType::MemoryMapping {
        prefetchable = ((bar_value >> 3) & 0x1) == 0x1;
        address = 0;
    } else {
        assert(((bar_value & !0x3u32) & 0xFF) <= 0xFF) by (bit_vector);
        address = ((bar_value & !0x3) & 0xFF) as u8;
        prefetchable = false;
    }
    BaseAddressRegister { prefetchable, address, size: 0, register_type }
}

/// Base address register `bar_num` of a function, from its header-type
/// register and (when the header type has that many) the register's value;
/// `None` past the last register.
pub fn get_base_address_register(header_register: u32, bar_num: u16, bar_value: u32) -> (r: Option<BaseAddressRegister>)
    requires
        header_register & 0x7F <= 1,
    ensures
        bar_num >= 6 - 4 * (header_register & 0x7F) ==> r is None,
        bar_num < 6 - 4 * (header_register & 0x7F) ==> r == Some(decode_bar_spec(bar_value)),
{
    let max = max_bars(header_register);
    if bar_num as u32 >= max {
        return None;
    }
    let bar = decode_bar(bar_value);
    Some(bar)
}

/// The register `decode_bar` produces.
pub open spec fn decode_bar_spec(bar_value: u32) -> BaseAddressRegister {
    if bar_value & 0x1 == 1 {
        BaseAddressRegister {
            prefetchable: false,
            address: ((bar_value & !0x3u32) & 0xFF) as u8,
            size: 0,
            register_type: BaseAddressRegisterType::InputOutput,
        }
    } else {
        BaseAddressRegister {
            prefetchable: ((bar_value >> 3u32) & 0x1) == 0x1,
            address: 0,
            size: 0,
            register_type: BaseAddressRegisterType::MemoryMapping,
        }
    }
}

/// The line naming the vendor/model of a device.
pub open spec fn vendor_line(vendor_id: u16, device_id: u16) -> &'static str {
    if vendor_id == 0x1022 {
        if device_id == 0x2000 { "Device: AM79C973" } else { "Device: Other AMD" }
    } else if vendor_id == 0x8086 {
        "Device: Other Intel"
    } else {
        "Device: Unknown"
    }
}

/// The line naming the class of a device.
pub open spec fn class_line(class_id: u8, subclass_id: u8) -> &'static str {
    if class_id == 0x03 {
        if subclass_id == 0x00 { "Device: VGA" } else { "Other Graphics" }
    } else {
        "Device: Unknown"
    }
}

/// Picks a driver for a device: no driver is known yet (0); the two lines to
/// print name the vendor/model and the device class.
pub fn get_driver(dev: &PCIDevice) -> (r: (u8, &'static str, &'static str))
    ensures
        r.0 == 0,
        r.1 == vendor_line(dev.vendor_id, dev.device_id),
        r.2 == class_line(dev.class_id, dev.subclass_id),
{
    let vendor = match dev.vendor_id {
        0x1022 => match dev.device_id {
            0x2000 => "Device: AM79C973",
            _ => "Device: Other AMD",
        },
        0x8086 => "Device: Other Intel",
        _ => "Device: Unknown",
    };
    let class = match dev.class_id {
        0x03 => match dev.subclass_id {
            0x00 => "Device: VGA",
            _ => "Other Graphics",
        },
        _ => "Device: Unknown",
    };
    (0, vendor, class)
}

/// The port base a base address register gives a device: the I/O address
/// when the register maps ports at a non-zero address, else the device's
/// current one.
pub fn port_base_from_bar(dev: &PCIDevice, bar: &BaseAddressRegister) -> (p: u32)
    ensures
        p == (if bar.address != 0 && bar.register_type == BaseAddressRegisterType::InputOutput {
            bar.address as u32
        } else {
            dev.port_base
        }),
{
    if bar.address != 0 && bar.register_type == BaseAddressRegisterType::InputOutput {
        bar.address as u32
    } else {
        dev.port_base
    }
}

/// Function numbers to scan on a device: 8 when it has several functions,
/// else 1.
pub fn num_functions(multi: bool) -> (n: u16)
    ensures
        n == (if multi { 8u16 } else { 1u16 }),
{
    if multi {
        8
    } else {
        1
    }
}

/// The configuration address keeps its fields apart: with a bus below 256,
/// a device below 32 and a function below 8, each can be read back from
/// the address, with the enable bit set and the register offset rounded
/// down to a multiple of 4; so different functions never share an address.
pub proof fn law_config_address_fields(bus: u16, device: u16, function: u16, register_offset: u32)
    requires
        bus < 256,
        device < 32,
        function < 8,
    ensures
        ({
            let a = config_address(bus, device, function, register_offset);
            &&& a & 0x8000_0000 != 0
            &&& (a >> 16u32) & 0xFF == bus
            &&& (a >> 11u32) & 0x1F == device
            &&& (a >> 8u32) & 0x7 == function
            &&& a & 0xFF == register_offset & 0xFC
        }),
{
    let b = bus as u32;
    let d = device as u32;
    let f = function as u32;
    let a = config_address(bus, device, function, register_offset);
    assert(a == 0x8000_0000u32 | (b << 16u32) | (d << 11u32) | (f << 8u32) | (register_offset & 0xFC));
    assert({
        let a = 0x8000_0000u32 | (b << 16u32) | (d << 11u32) | (f << 8u32) | (register_offset & 0xFC);
        &&& a & 0x8000_0000 != 0
        &&& (a >> 16u32) & 0xFF == b
        &&& (a >> 11u32) & 0x1F == d
        &&& (a >> 8u32) & 0x7 == f
        &&& a & 0xFF == register_offset & 0xFC
    }) by (bit_vector)
        requires
            b < 256,
            d < 32,
            f < 8,
    ;
}

/// Where a bus scan stands, and what the answer to its last request is for.
#[derive(Debug, Clone, Copy, PartialEq, Eq, Structural)]
pub enum ScanPhase {
    /// Nothing asked yet.
    Start,
    /// The answer is the header-type register of function 0 of the device.
    Functions,
    /// The answer is descriptor register `reg` of the function.
    Descriptor,
    /// The answer is the header-type register, read for base address
    /// register `bar`.
    BarHeader,
    /// The answer is the value of base address register `bar`.
    BarValue,
    /// The driver lines of base address register `bar` were reported.
    AfterBar,
    /// The function was reported.
    AfterFunction,
    /// Control was passed on after the device.
    AfterDevice,
    /// The scan is over.
    Finished,
}

/// What a bus scan asks of its caller next.
#[derive(Debug, Clone, Copy, PartialEq, Eq)]
pub enum PciProbe {
    /// Read this configuration register and hand its value (as `read`
    /// returns it) to the next step.
    Read { bus: u16, device: u16, function: u16, offset: u32 },
    /// Print the two driver lines (vendor/model, then class).
    Lines { vendor: &'static str, class: &'static str },
    /// Print the line that lists this device function.
    Found { dev: PCIDevice },
    /// Pass control on to other tasks.
    Yield,
    /// A header type with no count of base address registers (above 1):
    /// the scan cannot go on.
    Fault,
    /// The scan is over.
    Done,
}

/// A scan of buses 0 to 7 and devices 0 to 31: the device function being
/// looked at, how many functions the device has, the descriptor being
/// built, which descriptor register or base address register is next, and
/// the phase.
#[derive(Debug, Clone, Copy, PartialEq, Eq, Structural)]
pub struct PciScan {
    pub bus: u16,
    pub device: u16,
    pub function: u16,
    pub functions: u16,
    pub reg: u16,
    pub bar: u16,
    pub dev: PCIDevice,
    pub phase: ScanPhase,
}

/// The descriptor registers, in the order they are read: vendor, device,
/// class, subclass, interface, revision, interrupt.
pub open spec fn descriptor_offset(k: int) -> u32 {
    if k == 0 {
        0x00
    } else if k == 1 {
        0x02
    } else if k == 2 {
        0x0B
    } else if k == 3 {
        0x0A
    } else if k == 4 {
        0x09
    } else if k == 5 {
        0x08
    } else {
        0x3C
    }
}

/// The descriptor with descriptor register `k` (see `descriptor_offset`)
/// taken from `v`, as `get_device_descriptor` takes it.
pub open spec fn with_register(dev: PCIDevice, k: int, v: u32) -> PCIDevice {
    if k == 0 {
        PCIDevice { vendor_id: (v & 0xFFFF) as u16, ..dev }
    } else if k == 1 {
        PCIDevice { device_id: (v & 0xFFFF) as u16, ..dev }
    } else if k == 2 {
        PCIDevice { class_id: (v & 0xFF) as u8, ..dev }
    } else if k == 3 {
        PCIDevice { subclass_id: (v & 0xFF) as u8, ..dev }
    } else if k == 4 {
        PCIDevice { interface_id: (v & 0xFF) as u8, ..dev }
    } else if k == 5 {
        PCIDevice { revision: (v & 0xFF) as u8, ..dev }
    } else {
        PCIDevice { interrupt: v, ..dev }
    }
}

/// The descriptor a function starts from, before its registers are read.
pub open spec fn blank_device(bus: u16, device: u16, function: u16) -> PCIDevice {
    PCIDevice {
        port_base: 0,
        interrupt: 0,
        bus,
        device,
        function,
        vendor_id: 0,
        device_id: 0,
        class_id: 0,
        subclass_id: 0,
        interface_id: 0,
        revision: 0,
    }
}

/// Starts on function `function` of the device: its vendor register is
/// read first.
pub open spec fn start_function(s: PciScan, function: u16) -> (PciScan, PciProbe) {
    (
        PciScan {
            function,
            reg: 0,
            bar: 0,
            dev: blank_device(s.bus, s.device, function),
            phase: ScanPhase::Descriptor,
            ..s
        },
        PciProbe::Read { bus: s.bus, device: s.device, function, offset: 0x00 },
    )
}

/// Moves past the current function: on to the next one of the device, or,
/// after its last, control is passed on.
pub open spec fn next_function(s: PciScan) -> (PciScan, PciProbe) {
    if s.function + 1 < s.functions {
        start_function(s, (s.function + 1) as u16)
    } else {
        (PciScan { phase: ScanPhase::AfterDevice, ..s }, PciProbe::Yield)
    }
}

/// Asks for the header-type register of function 0 of a device.
pub open spec fn start_device(s: PciScan, bus: u16, device: u16) -> (PciScan, PciProbe) {
    (
        PciScan { bus, device, function: 0, phase: ScanPhase::Functions, ..s },
        PciProbe::Read { bus, device, function: 0, offset: 0x0E },
    )
}

/// Moves past the current base address register: on to the next, or,
/// after the sixth, the function is reported.
pub open spec fn next_bar(s: PciScan) -> (PciScan, PciProbe) {
    if s.bar + 1 < 6 {
        (
            PciScan { bar: (s.bar + 1) as u16, phase: ScanPhase::BarHeader, ..s },
            PciProbe::Read { bus: s.bus, device: s.device, function: s.function, offset: 0x0E },
        )
    } else {
        (PciScan { phase: ScanPhase::AfterFunction, ..s }, PciProbe::Found { dev: s.dev })
    }
}

/// One step of the scan, given the answer `value` to the last read (and
/// ignoring it after any other request). Per device: its header-type
/// register decides whether 8 functions or 1 are looked at; per function,
/// the descriptor registers are read, a function whose vendor is 0x0000 or
/// 0xFFFF is passed over, and otherwise each of base address registers 0
/// to 5 is looked at (the header-type register is read again, and the
/// register itself only when the header type has that many), giving the
/// device its I/O port base and reporting the driver lines; then the
/// function is reported. After each device control is passed on.
pub open spec fn scan_spec(s: PciScan, value: u32) -> (PciScan, PciProbe) {
    match s.phase {
        ScanPhase::Start => start_device(s, s.bus, s.device),
        ScanPhase::Functions => {
            let functions: u16 = if value & 0x80 != 0 { 8 } else { 1 };
            start_function(PciScan { functions, ..s }, 0)
        },
        ScanPhase::Descriptor => {
            let dev = with_register(s.dev, s.reg as int, value);
            if s.reg + 1 < 7 {
                (
                    PciScan { dev, reg: (s.reg + 1) as u16, ..s },
                    PciProbe::Read {
                        bus: s.bus,
                        device: s.device,
                        function: s.function,
                        offset: descriptor_offset(s.reg + 1),
                    },
                )
            } else if absent_vendor(dev.vendor_id) {
                next_function(PciScan { dev, ..s })
            } else {
                (
                    PciScan { dev, bar: 0, phase: ScanPhase::BarHeader, ..s },
                    PciProbe::Read { bus: s.bus, device: s.device, function: s.function, offset: 0x0E },
                )
            }
        },
        ScanPhase::BarHeader => {
            if value & 0x7F > 1 {
                (PciScan { phase: ScanPhase::Finished, ..s }, PciProbe::Fault)
            } else if s.bar < 6 - 4 * (value & 0x7F) {
                (
                    PciScan { phase: ScanPhase::BarValue, ..s },
                    PciProbe::Read { bus: s.bus, device: s.device, function: s.function, offset: (0x10 + 4 * s.bar) as u32 },
                )
            } else {
                next_bar(s)
            }
        },
        ScanPhase::BarValue => {
            let bar = decode_bar_spec(value);
            let port_base = if bar.address != 0 && bar.register_type == BaseAddressRegisterType::InputOutput {
                bar.address as u32
            } else {
                s.dev.port_base
            };
            let dev = PCIDevice { port_base, ..s.dev };
            (
                PciScan { dev, phase: ScanPhase::AfterBar, ..s },
                PciProbe::Lines {
                    vendor: vendor_line(dev.vendor_id, dev.device_id),
                    class: class_line(dev.class_id, dev.subclass_id),
                },
            )
        },
        ScanPhase::AfterBar => next_bar(s),
        ScanPhase::AfterFunction => next_function(s),
        ScanPhase::AfterDevice => {
            if s.device + 1 < 32 {
                start_device(s, s.bus, (s.device + 1) as u16)
            } else if s.bus + 1 < 8 {
                start_device(s, (s.bus + 1) as u16, 0)
            } else {
                (PciScan { phase: ScanPhase::Finished, ..s }, PciProbe::Done)
            }
        },
        ScanPhase::Finished => (s, PciProbe::Done),
    }
}

impl PciScan {
    /// The scan looks at a bus below 8, a device below 32, one of the 1 or
    /// 8 functions of the device, one of the 7 descriptor registers and
    /// one of the 6 base address registers.
    pub open spec fn wf(&self) -> bool {
        &&& self.bus < 8
        &&& self.device < 32
        &&& self.functions == 1 || self.functions == 8
        &&& self.function < self.functions
        &&& self.reg < 7
        &&& self.bar < 6
    }

    /// A scan that starts at bus 0, device 0.
    pub fn new() -> (s: PciScan)
        ensures
            s.wf(),
            s.phase == ScanPhase::Start,
            s.bus == 0,
            s.device == 0,
    {
        PciScan {
            bus: 0,
            device: 0,
            function: 0,
            functions: 1,
            reg: 0,
            bar: 0,
            dev: PCIDevice {
                port_base: 0,
                interrupt: 0,
                bus: 0,
                device: 0,
                function: 0,
                vendor_id: 0,
                device_id: 0,
                class_id: 0,
                subclass_id: 0,
                interface_id: 0,
                revision: 0,
            },
            phase: ScanPhase::Start,
        }
    }

    fn start_function(&mut self, function: u16) -> (p: PciProbe)
        requires
            old(self).wf(),
            function < old(self).functions,
        ensures
            final(self).wf(),
            (*final(self), p) == start_function(*old(self), function),
    {
        self.function = function;
        self.reg = 0;
        self.bar = 0;
        self.dev = PCIDevice {
            port_base: 0,
            interrupt: 0,
            bus: self.bus,
            device: self.device,
            function,
            vendor_id: 0,
            device_id: 0,
            class_id: 0,
            subclass_id: 0,
            interface_id: 0,
            revision: 0,
        };
        self.phase = ScanPhase::Descriptor;
        PciProbe::Read { bus: self.bus, device: self.device, function, offset: 0x00 }
    }

    fn next_function(&mut self) -> (p: PciProbe)
        requires
            old(self).wf(),
        ensures
            final(self).wf(),
            (*final(self), p) == next_function(*old(self)),
    {
        if self.function + 1 < self.functions {
            self.start_function(self.function + 1)
        } else {
            self.phase = ScanPhase::AfterDevice;
            PciProbe::Yield
        }
    }

    fn start_device(&mut self, bus: u16, device: u16) -> (p: PciProbe)
        requires
            old(self).wf(),
            bus < 8,
            device < 32,
        ensures
            final(self).wf(),
            (*final(self), p) == start_device(*old(self), bus, device),
    {
        self.bus = bus;
        self.device = device;
        self.function = 0;
        self.phase = ScanPhase::Functions;
        PciProbe::Read { bus, device, function: 0, offset: 0x0E }
    }

    fn next_bar(&mut self) -> (p: PciProbe)
        requires
            old(self).wf(),
        ensures
            final(self).wf(),
            (*final(self), p) == next_bar(*old(self)),
    {
        if self.bar + 1 < 6 {
            self.bar = self.bar + 1;
            self.phase = ScanPhase::BarHeader;
            PciProbe::Read { bus: self.bus, device: self.device, function: self.function, offset: 0x0E }
        } else {
            self.phase = ScanPhase::AfterFunction;
            PciProbe::Found { dev: self.dev }
        }
    }

    /// The offset of descriptor register `k` (see `descriptor_offset`).
    fn descriptor_offset(k: u16) -> (o: u32)
        requires
            k < 7,
        ensures
            o == descriptor_offset(k as int),
    {
        match k {
            0 => 0x00,
            1 => 0x02,
            2 => 0x0B,
            3 => 0x0A,
            4 => 0x09,
            5 => 0x08,
            _ => 0x3C,
        }
    }

    /// Takes descriptor register `reg` from `value` (see `with_register`).
    fn take_register(&mut self, value: u32)
        requires
            old(self).reg < 7,
        ensures
            *final(self) == (PciScan { dev: with_register(old(self).dev, old(self).reg as int, value), ..*old(self) }),
    {
        let v16 = (value & 0xFFFF) as u16;
        let v8 = (value & 0xFF) as u8;
        match self.reg {
            0 => self.dev.vendor_id = v16,
            1 => self.dev.device_id = v16,
            2 => self.dev.class_id = v8,
            3 => self.dev.subclass_id = v8,
            4 => self.dev.interface_id = v8,
            5 => self.dev.revision = v8,
            _ => self.dev.interrupt = value,
        }
    }

    /// One step of the scan (see `scan_spec`): `value` is the answer to the
    /// last `Read` request, and is ignored after any other.
    pub fn scan_step(&mut self, value: u32) -> (p: PciProbe)
        requires
            old(self).wf(),
        ensures
            final(self).wf(),
            (*final(self), p) == scan_spec(*old(self), value),
    {
        match self.phase {
            ScanPhase::Start => self.start_device(self.bus, self.device),
            ScanPhase::Functions => {
                self.function = 0;
                self.functions = num_functions(get_device_functions(value));
                self.start_function(0)
            },
            ScanPhase::Descriptor => {
                self.take_register(value);
                if self.reg + 1 < 7 {
                    self.reg = self.reg + 1;
                    PciProbe::Read {
                        bus: self.bus,
                        device: self.device,
                        function: self.function,
                        offset: Self::descriptor_offset(self.reg),
                    }
                } else if device_absent(&self.dev) {
                    self.next_function()
                } else {
                    self.bar = 0;
                    self.phase = ScanPhase::BarHeader;
                    PciProbe::Read { bus: self.bus, device: self.device, function: self.function, offset: 0x0E }
                }
            },
            ScanPhase::BarHeader => {
                if value & 0x7F > 1 {
                    self.phase = ScanPhase::Finished;
                    PciProbe::Fault
                } else if (self.bar as u32) < max_bars(value) {
                    self.phase = ScanPhase::BarValue;
                    PciProbe::Read {
                        bus: self.bus,
                        device: self.device,
                        function: self.function,
                        offset: bar_offset(self.bar),
                    }
                } else {
                    self.next_bar()
                }
            },
            ScanPhase::BarValue => {
                let bar = decode_bar(value);
                self.dev.port_base = port_base_from_bar(&self.dev, &bar);
                self.phase = ScanPhase::AfterBar;
                let (_driver, vendor, class) = get_driver(&self.dev);
                PciProbe::Lines { vendor, class }
            },
            ScanPhase::AfterBar => self.next_bar(),
            ScanPhase::AfterFunction => self.next_function(),
            ScanPhase::AfterDevice => {
                if self.device + 1 < 32 {
                    self.start_device(self.bus, self.device + 1)
                } else if self.bus + 1 < 8 {
                    self.start_device(self.bus + 1, 0)
                } else {
                    self.phase = ScanPhase::Finished;
                    PciProbe::Done
                }
            },
            ScanPhase::Finished => PciProbe::Done,
        }
    }
}

/// How much of the scan is left, counted in steps: a measure that every
/// step short of the end brings down.
pub open spec fn scan_rank(s: PciScan) -> int {
    let devices_left = 255 - (s.bus * 32 + s.device);
    let functions_left = s.functions - 1 - s.function;
    let in_function: int = match s.phase {
        ScanPhase::Descriptor => 33 - s.reg,
        ScanPhase::BarHeader => 4 * (6 - s.bar) + 1,
        ScanPhase::BarValue => 4 * (6 - s.bar),
        ScanPhase::AfterBar => 4 * (6 - s.bar) - 1,
        ScanPhase::AfterFunction => 1,
        _ => 0,
    };
    let in_device: int = match s.phase {
        ScanPhase::Start => 355,
        ScanPhase::Functions => 354,
        ScanPhase::AfterDevice => 0,
        ScanPhase::Finished => 0,
        _ => functions_left * 40 + in_function,
    };
    devices_left * 400 + in_device
}

/// The scan stays on its buses and ends: from a well-formed state, a step
/// gives a well-formed state, every register it asks for is on a bus below
/// 8, a device below 32 and a function below 8, and every step that does
/// not finish the scan brings `scan_rank` (never negative) down, so `Done`
/// comes after finitely many steps whatever the registers hold.
pub proof fn law_scan_stays_on_bus_and_ends(s: PciScan, value: u32)
    requires
        s.wf(),
    ensures
        scan_spec(s, value).0.wf(),
        scan_spec(s, value).1 matches PciProbe::Read { bus, device, function, offset } ==> bus < 8 && device
            < 32 && function < 8,
        scan_rank(s) >= 0,
        scan_spec(s, value).0.phase == ScanPhase::Finished || scan_rank(scan_spec(s, value).0) < scan_rank(s),
{
    let functions: u16 = if value & 0x80 != 0 { 8 } else { 1 };
    assert(functions == 1 || functions == 8);
}

/// Control is passed on once per device: a `Yield` comes exactly when the
/// last function of a device is done with, and the step after it moves on
/// to the next device (the next bus after device 31) or ends the scan.
pub proof fn law_scan_yields_after_each_device(s: PciScan, value: u32, next_value: u32)
    requires
        s.wf(),
        scan_spec(s, value).1 is Yield,
    ensures
        ({
            let t = scan_spec(s, value).0;
            let (u, p) = scan_spec(t, next_value);
            &&& t.bus == s.bus && t.device == s.device
            &&& s.device + 1 < 32 ==> u.bus == s.bus && u.device == s.device + 1 && p == (PciProbe::Read {
                bus: s.bus,
                device: (s.device + 1) as u16,
                function: 0,
                offset: 0x0E,
            })
            &&& s.device == 31 && s.bus + 1 < 8 ==> u.bus == s.bus + 1 && u.device == 0
            &&& s.device == 31 && s.bus == 7 ==> p is Done
        }),
{
}

} // verus!

verus! {

/// The vendor line names the vendor: every AMD device (vendor 0x1022) is
/// named as AMD, the AM79C973 (device 0x2000) by its model and any other as
/// another AMD device; every Intel device (0x8086) as another Intel device;
/// and only other vendors are unknown.
pub proof fn law_vendor_line_names_vendor(vendor_id: u16, device_id: u16)
    ensures
        vendor_id == 0x1022 && device_id == 0x2000 ==> vendor_line(vendor_id, device_id) == "Device: AM79C973",
        vendor_id == 0x1022 && device_id != 0x2000 ==> vendor_line(vendor_id, device_id) == "Device: Other AMD",
        vendor_id == 0x8086 ==> vendor_line(vendor_id, device_id) == "Device: Other Intel",
        vendor_id != 0x1022 && vendor_id != 0x8086 ==> vendor_line(vendor_id, device_id) == "Device: Unknown",
        vendor_id == 0x1022 || vendor_id == 0x8086 ==> vendor_line(vendor_id, device_id) != "Device: Unknown",
{
    reveal_strlit("Device: Unknown");
    reveal_strlit("Device: AM79C973");
    reveal_strlit("Device: Other AMD");
    reveal_strlit("Device: Other Intel");
}

/// The class line names the class: a VGA card (class 0x03, subclass 0x00)
/// as VGA, any other display device (class 0x03) as other graphics, and
/// only other classes are unknown.
pub proof fn law_class_line_names_class(class_id: u8, subclass_id: u8)
    ensures
        class_id == 0x03 && subclass_id == 0x00 ==> class_line(class_id, subclass_id) == "Device: VGA",
        class_id == 0x03 && subclass_id != 0x00 ==> class_line(class_id, subclass_id) == "Other Graphics",
        class_id != 0x03 ==> class_line(class_id, subclass_id) == "Device: Unknown",
        class_id == 0x03 ==> class_line(class_id, subclass_id) != "Device: Unknown",
{
    reveal_strlit("Device: Unknown");
    reveal_strlit("Device: VGA");
    reveal_strlit("Other Graphics");
}

} // verus!
