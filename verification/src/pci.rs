//! PCI devices: locations, configuration space addresses and the values
//! read from configuration registers.

use vstd::prelude::*;

verus! {

pub const CONFIG_ADDR: u16 = 0xCF8;
pub const CONFIG_DATA: u16 = 0xCFC;

/// Bus, device, function
#[derive(Debug, Clone, Copy, PartialEq, Eq, Structural)]
pub struct DeviceLocation(pub u8, pub u8, pub u8);

#[derive(Debug, Clone, Copy, PartialEq, Eq, Structural)]
pub struct DeviceClass(pub u8, pub u8, pub u8);

#[derive(Debug, Clone, Copy, PartialEq, Eq, Structural)]
pub struct Device {
    pub id: u16,
    pub vendor: u16,
    pub location: DeviceLocation,
    pub class: DeviceClass,
}

/// The configuration address of register `offset` of function `func` of
/// device `slot` on `bus`, with the enable bit set.
pub open spec fn config_address(bus: u8, slot: u8, func: u8, offset: u8) -> int {
    0x8000_0000 + bus * 0x1_0000 + (slot % 32) * 0x800 + (func % 8) * 0x100 + offset
}

/// The value written to the address port to select a configuration
/// register. The offset must be 4-byte aligned.
pub fn pci_config_address(bus: u8, slot: u8, func: u8, offset: u8) -> (r: u32)
    requires
        offset % 4 == 0,
        slot < 32,
        func < 8,
    ensures
        r == config_address(bus, slot, func, offset),
{
    let address: u32 = ((bus as u32) << 16) | ((slot as u32) << 11) | ((func as u32) << 8) | (
    offset as u32) | (0x80000000u32);
    assert(((bus as u32) << 16) | ((slot as u32) << 11) | ((func as u32) << 8) | (offset as u32)
        | 0x80000000u32 == 0x8000_0000 + (bus as u32) * 0x1_0000 + (slot as u32) * 0x800 + (
    func as u32) * 0x100 + (offset as u32)) by (bit_vector)
        requires
            slot < 32,
            func < 8,
    ;
    address
}

impl Device {
    pub fn new(id: u16, vendor: u16, location: DeviceLocation, class: DeviceClass) -> (r: Device)
        ensures
            r == (Device { id, vendor, location, class }),
    {
        Device { id, vendor, location, class }
    }

    /// The aligned register that holds byte `offset`.
    pub fn dword_offset(offset: u8) -> (r: u8)
        ensures
            r == offset - offset % 4,
    {
        let r = offset & !0b11u8;
        assert(offset & !0b11u8 == offset - offset % 4) by (bit_vector);
        r
    }

    /// Byte `offset` of configuration space, from the aligned register
    /// `data` that holds it.
    pub fn read_u8(data: u32, offset: u8) -> (r: u8)
        ensures
            r == (data as int / pow8((offset % 4) as int)) % 256,
    {
        let k = offset & 0b11;
        assert(offset & 0b11u8 == offset % 4) by (bit_vector);
        let p: u32 = if k == 0 {
            1
        } else if k == 1 {
            0x100
        } else if k == 2 {
            0x1_0000
        } else {
            0x100_0000
        };
        ((data / p) % 256) as u8
    }

    /// The 16-bit register at an even `offset`, from the aligned register
    /// `data`: the data shifted by the offset's lowest bit, which is zero,
    /// so its low half.
    pub fn read_u16(data: u32, offset: u8) -> (r: u16)
        requires
            offset % 2 == 0,
        ensures
            r == data % 0x1_0000,
    {
        assert(offset & 1u8 == 0) by (bit_vector)
            requires
                offset % 2 == 0,
        ;
        let shifted = data >> ((offset as u32) & 0b1);
        assert(data >> 0u32 == data) by (bit_vector);
        let r = (shifted & 0xffff) as u16;
        assert(data & 0xffff == data % 0x1_0000) by (bit_vector);
        r
    }

    /// Status register: the upper half of register 0x04.
    pub fn status(reg4: u32) -> (r: u16)
        ensures
            r == reg4 / 0x1_0000,
    {
        (reg4 / 0x1_0000) as u16
    }

    /// Subsystem id: the upper half of register 0x2c.
    pub fn subsystem_id(reg2c: u32) -> (r: u16)
        ensures
            r == reg2c / 0x1_0000,
    {
        (reg2c / 0x1_0000) as u16
    }

    /// Offset of base address register `i`.
    pub fn get_bar(i: u8) -> (r: u8)
        requires
            i < 6,
        ensures
            r == 0x10 + 4 * i,
    {
        0x10 + 4 * i
    }

    /// The interrupt line, unless it reads 0xff: not connected.
    pub fn get_interrupt_line(line: u8) -> (r: Option<u8>)
        ensures
            r == (if line == 0xff {
                None::<u8>
            } else {
                Some(line)
            }),
    {
        if line == 0xff {
            None
        } else {
            Some(line)
        }
    }

    /// Whether the status register announces a capability list (bit 4).
    pub fn has_capabilities(status: u16) -> (r: bool)
        ensures
            r == (status & 0x10 != 0),
    {
        status & 0x10 != 0
    }

    /// The first capability's address, from register 0x34.
    pub fn first_capability(reg34: u32) -> (r: u8)
        ensures
            r == reg34 % 256 - reg34 % 4,
    {
        let r = (reg34 & 0b1111_1100) as u8;
        assert(reg34 & 0b1111_1100u32 == reg34 % 256 - reg34 % 4) by (bit_vector);
        r
    }

    /// Register 0x04 with bus mastering (bit 2) enabled.
    pub fn enable_bus_mastering(reg4: u32) -> (r: u32)
        ensures
            r == reg4 | 4,
    {
        reg4 | 4
    }
}

/// 256 to the power `i`, for `i` below 4.
pub open spec fn pow8(i: int) -> int {
    if i == 0 {
        1
    } else if i == 1 {
        0x100
    } else if i == 2 {
        0x1_0000
    } else {
        0x100_0000
    }
}

/// The devices found on the buses.
pub struct PCIController {
    devices: Option<Vec<Device>>,
}

impl PCIController {
    pub closed spec fn spec_devices(&self) -> Option<Seq<Device>> {
        match self.devices {
            Some(v) => Some(v@),
            None => None,
        }
    }

    /// No scan made yet.
    pub fn new() -> (r: PCIController)
        ensures
            r.spec_devices() is None,
    {
        PCIController { devices: None }
    }

    /// Records the devices a bus scan found.
    pub fn init(&mut self, devices: Vec<Device>)
        ensures
            final(self).spec_devices() == Some(devices@),
    {
        self.devices = Some(devices);
    }

    /// The devices, for listing them.
    pub fn print(&self) -> (r: &Vec<Device>)
        requires
            self.spec_devices() is Some,
        ensures
            Some(r@) == self.spec_devices(),
    {
        self.devices.as_ref().unwrap()
    }

    /// The first device, in scan order, that `pred` accepts.
    pub fn find<P: Fn(Device) -> bool>(&self, pred: P) -> (r: Option<Device>)
        requires
            self.spec_devices() is Some,
            forall|d: Device| pred.requires((d,)),
        ensures
            match r {
                Some(d) => exists|i: int|
                    #![trigger self.spec_devices()->0[i]]
                    0 <= i < self.spec_devices()->0.len() && self.spec_devices()->0[i] == d
                        && pred.ensures((d,), true) && forall|j: int|
                        0 <= j < i ==> pred.ensures((self.spec_devices()->0[j],), false),
                None => forall|i: int|
                    0 <= i < self.spec_devices()->0.len() ==> pred.ensures(
                        (self.spec_devices()->0[i],),
                        false,
                    ),
            },
    {
        let devices = self.print();
        let mut i: usize = 0;
        while i < devices.len()
            invariant
                i <= devices@.len(),
                Some(devices@) == self.spec_devices(),
                forall|d: Device| pred.requires((d,)),
                forall|j: int| 0 <= j < i ==> pred.ensures((devices@[j],), false),
            decreases devices@.len() - i,
        {
            let dev = devices[i];
            if pred(dev) {
                assert(self.spec_devices()->0[i as int] == dev);
                return Some(dev);
            }
            i = i + 1;
        }
        None
    }
}

} // verus!
