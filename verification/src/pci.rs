//! The scan of the PCI buses, as a machine of steps.
//!
//! The scan reads configuration registers and decides, from each value,
//! which register to read next. Reading a register is port I/O and is the
//! caller's part: the caller performs each [`ScanStep::Read`] and hands the
//! value to [`PciScan::step`], until the step is [`ScanStep::Done`].

use vstd::prelude::*;

verus! {

/// The port that takes the address of a configuration register.
pub const CONFIG_ADDRESS: u16 = 0xCF8;

/// The port that gives the value of the register addressed.
pub const CONFIG_DATA: u16 = 0xCFC;

/// The register with the vendor and the device number.
pub const REGISTER_ID: u8 = 0x00;

/// The register with the header type.
pub const REGISTER_HEADER: u8 = 0x0C;

/// The register with the first base address.
pub const REGISTER_BAR0: u8 = 0x10;

/// The vendor number of an empty slot.
pub const NO_VENDOR: u16 = 0xFFFF;

/// The slots of a bus.
pub const SLOTS: u8 = 32;

/// A function of a device that the scan found.
#[derive(Debug, Clone, Copy, PartialEq, Eq, Structural)]
pub struct PciDevice {
    pub bus: u8,
    pub device: u8,
    pub function: u8,
    pub vendor_id: u16,
    pub device_id: u16,
    pub bar0: u32,
}

/// The address of a configuration register: the enable bit, the bus, the
/// slot, the function, and the offset of the register cut to a multiple of
/// four.
pub open spec fn config_address_of(bus: u8, slot: u8, func: u8, offset: u8) -> u32 {
    ((bus as u32) << 16) | ((slot as u32) << 11) | ((func as u32) << 8) | (offset as u32 & 0xFC)
        | 0x8000_0000u32
}

/// The word to write to [`CONFIG_ADDRESS`] to address a register.
pub fn config_address(bus: u8, slot: u8, func: u8, offset: u8) -> (address: u32)
    ensures
        address == config_address_of(bus, slot, func, offset),
{
    ((bus as u32) << 16) | ((slot as u32) << 11) | ((func as u32) << 8) | (offset as u32 & 0xFC)
        | 0x8000_0000u32
}

/// The vendor number in the value of the ID register: its low half.
pub open spec fn vendor_of(id: u32) -> u16 {
    (id & 0xFFFF) as u16
}

/// The device number in the value of the ID register: its high half.
pub open spec fn device_of(id: u32) -> u16 {
    (id >> 16) as u16
}

/// How many functions a slot has, by the value of its header register:
/// eight where bit 7 of the header type is set, and else one.
pub open spec fn functions_of(header: u32) -> u8 {
    if ((header >> 16) & 0xFF) & 0x80 != 0 {
        8
    } else {
        1
    }
}

/// What the scan waits for.
#[derive(Debug, Clone, Copy, PartialEq, Eq, Structural)]
pub enum Stage {
    /// The ID register of function 0, to see whether the slot is empty.
    Vendor,
    /// The header register of function 0.
    Header,
    /// The ID register of the function under the cursor.
    Identity,
    /// The first base address of the function under the cursor.
    Bar,
    /// Nothing: the scan is over.
    Finished,
}

/// What the caller is to do.
#[derive(Debug, Clone, Copy, PartialEq, Eq, Structural)]
pub enum ScanStep {
    /// Read this register and hand its value to the next step.
    Read { bus: u8, slot: u8, func: u8, offset: u8 },
    /// The scan is over.
    Done,
}

/// A scan, as mathematics.
pub struct ScanModel {
    pub bus: u8,
    pub slot: u8,
    pub function: u8,
    pub functions: u8,
    pub stage: Stage,
    /// The value of the ID register of the function under the cursor.
    pub id: u32,
    pub devices: Seq<PciDevice>,
}

impl ScanModel {
    /// The cursor stands on a slot and a function that exist.
    pub open spec fn wf(self) -> bool {
        &&& self.slot < SLOTS
        &&& 1 <= self.functions <= 8
        &&& self.function < self.functions
    }

    /// The register that the scan waits for.
    pub open spec fn pending(self) -> ScanStep {
        match self.stage {
            Stage::Vendor => ScanStep::Read {
                bus: self.bus,
                slot: self.slot,
                func: 0,
                offset: REGISTER_ID,
            },
            Stage::Header => ScanStep::Read {
                bus: self.bus,
                slot: self.slot,
                func: 0,
                offset: REGISTER_HEADER,
            },
            Stage::Identity => ScanStep::Read {
                bus: self.bus,
                slot: self.slot,
                func: self.function,
                offset: REGISTER_ID,
            },
            Stage::Bar => ScanStep::Read {
                bus: self.bus,
                slot: self.slot,
                func: self.function,
                offset: REGISTER_BAR0,
            },
            Stage::Finished => ScanStep::Done,
        }
    }

    /// The scan, moved on to the next slot: the next of the bus, the
    /// first of the next bus, or the end.
    pub open spec fn next_slot(self) -> ScanModel {
        if self.slot + 1 < SLOTS {
            ScanModel {
                slot: (self.slot + 1) as u8,
                function: 0,
                functions: 1,
                stage: Stage::Vendor,
                ..self
            }
        } else if self.bus < 255 {
            ScanModel {
                bus: (self.bus + 1) as u8,
                slot: 0,
                function: 0,
                functions: 1,
                stage: Stage::Vendor,
                ..self
            }
        } else {
            ScanModel { function: 0, functions: 1, stage: Stage::Finished, ..self }
        }
    }

    /// The scan, moved on to the next function of the slot, or to the
    /// next slot behind the last function.
    pub open spec fn next_function(self) -> ScanModel {
        if self.function + 1 < self.functions {
            ScanModel { function: (self.function + 1) as u8, stage: Stage::Identity, ..self }
        } else {
            self.next_slot()
        }
    }

    /// The device under the cursor, with `bar0` as its first base
    /// address.
    pub open spec fn device(self, bar0: u32) -> PciDevice {
        PciDevice {
            bus: self.bus,
            device: self.slot,
            function: self.function,
            vendor_id: vendor_of(self.id),
            device_id: device_of(self.id),
            bar0,
        }
    }

    /// The scan after the register that it waited for gave `value`.
    ///
    /// An empty slot is passed over. A slot that is not empty has its
    /// header read for the number of its functions, and then each function
    /// its ID; a function with a vendor has its first base address read and
    /// is added to the devices found.
    pub open spec fn after(self, value: u32) -> ScanModel {
        match self.stage {
            Stage::Vendor => if vendor_of(value) == NO_VENDOR {
                self.next_slot()
            } else {
                ScanModel { stage: Stage::Header, ..self }
            },
            Stage::Header => ScanModel {
                function: 0,
                functions: functions_of(value),
                stage: Stage::Identity,
                ..self
            },
            Stage::Identity => if vendor_of(value) != NO_VENDOR {
                ScanModel { id: value, stage: Stage::Bar, ..self }
            } else {
                self.next_function()
            },
            Stage::Bar => ScanModel {
                devices: self.devices.push(self.device(value)),
                ..self
            }.next_function(),
            Stage::Finished => self,
        }
    }
}

/// A scan under way.
pub struct PciScan {
    bus: u8,
    slot: u8,
    function: u8,
    functions: u8,
    stage: Stage,
    id: u32,
    devices: Vec<PciDevice>,
}

impl View for PciScan {
    type V = ScanModel;

    closed spec fn view(&self) -> ScanModel {
        ScanModel {
            bus: self.bus,
            slot: self.slot,
            function: self.function,
            functions: self.functions,
            stage: self.stage,
            id: self.id,
            devices: self.devices@,
        }
    }
}

/// Begins a scan of all buses: the cursor stands on slot 0 of bus 0, and
/// nothing is found yet.
pub fn scan_buses() -> (scan: PciScan)
    ensures
        scan@.wf(),
        scan@.bus == 0,
        scan@.slot == 0,
        scan@.stage == Stage::Vendor,
        scan@.devices == Seq::<PciDevice>::empty(),
{
    PciScan {
        bus: 0,
        slot: 0,
        function: 0,
        functions: 1,
        stage: Stage::Vendor,
        id: 0,
        devices: Vec::new(),
    }
}

impl PciScan {
    /// What the caller is to do now.
    pub fn pending(&self) -> (step: ScanStep)
        ensures
            step == self@.pending(),
    {
        match self.stage {
            Stage::Vendor => ScanStep::Read {
                bus: self.bus,
                slot: self.slot,
                func: 0,
                offset: REGISTER_ID,
            },
            Stage::Header => ScanStep::Read {
                bus: self.bus,
                slot: self.slot,
                func: 0,
                offset: REGISTER_HEADER,
            },
            Stage::Identity => ScanStep::Read {
                bus: self.bus,
                slot: self.slot,
                func: self.function,
                offset: REGISTER_ID,
            },
            Stage::Bar => ScanStep::Read {
                bus: self.bus,
                slot: self.slot,
                func: self.function,
                offset: REGISTER_BAR0,
            },
            Stage::Finished => ScanStep::Done,
        }
    }

    fn to_next_slot(&mut self)
        ensures
            final(self)@ == old(self)@.next_slot(),
            old(self)@.wf() ==> final(self)@.wf(),
    {
        self.function = 0;
        self.functions = 1;
        if self.slot < SLOTS - 1 {
            self.slot = self.slot + 1;
            self.stage = Stage::Vendor;
        } else if self.bus < 255 {
            self.bus = self.bus + 1;
            self.slot = 0;
            self.stage = Stage::Vendor;
        } else {
            self.stage = Stage::Finished;
        }
    }

    fn to_next_function(&mut self)
        ensures
            final(self)@ == old(self)@.next_function(),
            old(self)@.wf() ==> final(self)@.wf(),
    {
        if self.functions > 0 && self.function < self.functions - 1 {
            self.function = self.function + 1;
            self.stage = Stage::Identity;
        } else {
            self.to_next_slot();
        }
    }

    /// Takes the value of the register that the scan waited for, and
    /// returns what the caller is to do next. A scan that is over stays
    /// over.
    pub fn step(&mut self, value: u32) -> (step: ScanStep)
        ensures
            final(self)@ == old(self)@.after(value),
            old(self)@.wf() ==> final(self)@.wf(),
            step == final(self)@.pending(),
    {
        match self.stage {
            Stage::Vendor => {
                if (value & 0xFFFF) as u16 == NO_VENDOR {
                    self.to_next_slot();
                } else {
                    self.stage = Stage::Header;
                }
            },
            Stage::Header => {
                let header: u32 = (value >> 16) & 0xFF;
                self.function = 0;
                self.functions = if header & 0x80 != 0 {
                    8
                } else {
                    1
                };
                self.stage = Stage::Identity;
            },
            Stage::Identity => {
                if (value & 0xFFFF) as u16 != NO_VENDOR {
                    self.id = value;
                    self.stage = Stage::Bar;
                } else {
                    self.to_next_function();
                }
            },
            Stage::Bar => {
                let id: u32 = self.id;
                assert(id & 0xFFFF <= 0xFFFF && id >> 16 <= 0xFFFF) by (bit_vector);
                self.devices.push(
                    PciDevice {
                        bus: self.bus,
                        device: self.slot,
                        function: self.function,
                        vendor_id: (id & 0xFFFF) as u16,
                        device_id: (id >> 16) as u16,
                        bar0: value,
                    },
                );
                self.to_next_function();
            },
            Stage::Finished => {},
        }
        self.pending()
    }

    /// The devices found so far, in the order of the scan: by bus, then
    /// slot, then function.
    pub fn devices(&self) -> (found: &Vec<PciDevice>)
        ensures
            found@ == self@.devices,
    {
        &self.devices
    }
}

/// Every device that a step adds has a vendor, and a step never takes a
/// device away.
pub proof fn lemma_step_keeps_devices(scan: ScanModel, value: u32)
    requires
        scan.wf(),
        forall|i: int| 0 <= i < scan.devices.len() ==> scan.devices[i].vendor_id != NO_VENDOR,
        scan.stage == Stage::Bar ==> vendor_of(scan.id) != NO_VENDOR,
    ensures
        scan.after(value).wf(),
        scan.devices.is_prefix_of(scan.after(value).devices),
        forall|i: int|
            0 <= i < scan.after(value).devices.len() ==> scan.after(value).devices[i].vendor_id
                != NO_VENDOR,
        scan.after(value).stage == Stage::Bar ==> vendor_of(scan.after(value).id) != NO_VENDOR,
{
}

/// The functions of one slot that have a vendor, from the function `from`
/// up to the last of `functions`, as devices.
pub open spec fn function_devices(
    config: spec_fn(u8, u8, u8, u8) -> u32,
    bus: u8,
    slot: u8,
    from: int,
    functions: int,
) -> Seq<PciDevice>
    decreases functions - from,
{
    if from < 0 || from >= functions || from > 255 {
        Seq::empty()
    } else {
        let id = config(bus, slot, from as u8, REGISTER_ID);
        let found = if vendor_of(id) != NO_VENDOR {
            seq![
                PciDevice {
                    bus,
                    device: slot,
                    function: from as u8,
                    vendor_id: vendor_of(id),
                    device_id: device_of(id),
                    bar0: config(bus, slot, from as u8, REGISTER_BAR0),
                },
            ]
        } else {
            Seq::empty()
        };
        found + function_devices(config, bus, slot, from + 1, functions)
    }
}

/// The devices of one slot: none where function 0 has no vendor, and else
/// the functions, as many as the header says, that have one.
pub open spec fn slot_devices(config: spec_fn(u8, u8, u8, u8) -> u32, bus: u8, slot: u8) -> Seq<
    PciDevice,
> {
    if vendor_of(config(bus, slot, 0, REGISTER_ID)) == NO_VENDOR {
        Seq::empty()
    } else {
        function_devices(
            config,
            bus,
            slot,
            0,
            functions_of(config(bus, slot, 0, REGISTER_HEADER)) as int,
        )
    }
}

/// The devices of all slots from the slot number `position` on, where the
/// slots are numbered through the buses, 32 to a bus.
pub open spec fn devices_from(config: spec_fn(u8, u8, u8, u8) -> u32, position: int) -> Seq<
    PciDevice,
>
    decreases 8192 - position,
{
    if position < 0 || position >= 8192 {
        Seq::empty()
    } else {
        slot_devices(config, (position / 32) as u8, (position % 32) as u8) + devices_from(
            config,
            position + 1,
        )
    }
}

impl ScanModel {
    /// The value that the register which the scan waits for has in the
    /// configuration space `config`.
    pub open spec fn awaited(self, config: spec_fn(u8, u8, u8, u8) -> u32) -> u32 {
        match self.pending() {
            ScanStep::Read { bus, slot, func, offset } => config(bus, slot, func, offset),
            ScanStep::Done => 0,
        }
    }

    /// The scan after `steps` steps, each fed from the configuration
    /// space `config`.
    pub open spec fn run(self, config: spec_fn(u8, u8, u8, u8) -> u32, steps: nat) -> ScanModel
        decreases steps,
    {
        if steps == 0 {
            self
        } else {
            self.after(self.awaited(config)).run(config, (steps - 1) as nat)
        }
    }

    /// Whether the scan stands at the start of the slot number
    /// `position`, or, for the number behind the last slot, at its end.
    pub open spec fn arrived(self, position: int) -> bool {
        if 0 <= position < 8192 {
            &&& self.wf()
            &&& self.stage == Stage::Vendor
            &&& self.bus == position / 32
            &&& self.slot == position % 32
        } else {
            self.stage == Stage::Finished
        }
    }
}

proof fn lemma_run_in_two(
    scan: ScanModel,
    config: spec_fn(u8, u8, u8, u8) -> u32,
    first: nat,
    second: nat,
)
    ensures
        scan.run(config, first + second) == scan.run(config, first).run(config, second),
    decreases first,
{
    if first > 0 {
        lemma_run_in_two(
            scan.after(scan.awaited(config)),
            config,
            (first - 1) as nat,
            second,
        );
    }
}

proof fn lemma_functions_scanned(
    scan: ScanModel,
    config: spec_fn(u8, u8, u8, u8) -> u32,
    position: int,
) -> (steps: nat)
    requires
        0 <= position < 8192,
        scan.wf(),
        scan.stage == Stage::Identity,
        scan.bus == position / 32,
        scan.slot == position % 32,
    ensures
        scan.run(config, steps).arrived(position + 1),
        scan.run(config, steps).devices == scan.devices + function_devices(
            config,
            scan.bus,
            scan.slot,
            scan.function as int,
            scan.functions as int,
        ),
    decreases scan.functions - scan.function,
{
    let id = config(scan.bus, scan.slot, scan.function, REGISTER_ID);
    assert(scan.awaited(config) == id);
    let rest = function_devices(
        config,
        scan.bus,
        scan.slot,
        scan.function + 1,
        scan.functions as int,
    );
    if vendor_of(id) != NO_VENDOR {
        let at_bar = scan.after(id);
        let bar0 = config(scan.bus, scan.slot, scan.function, REGISTER_BAR0);
        assert(at_bar.awaited(config) == bar0);
        let moved = at_bar.after(bar0);
        assert(scan.run(config, 2) == moved) by {
            reveal_with_fuel(ScanModel::run, 3);
        }
        assert(moved.devices == scan.devices.push(at_bar.device(bar0)));
        if scan.function + 1 < scan.functions {
            let more = lemma_functions_scanned(moved, config, position);
            lemma_run_in_two(scan, config, 2, more);
            assert(scan.run(config, 2 + more).devices =~= scan.devices + function_devices(
                config,
                scan.bus,
                scan.slot,
                scan.function as int,
                scan.functions as int,
            ));
            2 + more
        } else {
            assert(rest =~= Seq::<PciDevice>::empty());
            assert(moved.devices =~= scan.devices + function_devices(
                config,
                scan.bus,
                scan.slot,
                scan.function as int,
                scan.functions as int,
            ));
            2
        }
    } else {
        let moved = scan.after(id);
        assert(scan.run(config, 1) == moved) by {
            reveal_with_fuel(ScanModel::run, 2);
        }
        if scan.function + 1 < scan.functions {
            let more = lemma_functions_scanned(moved, config, position);
            lemma_run_in_two(scan, config, 1, more);
            assert(scan.run(config, 1 + more).devices =~= scan.devices + function_devices(
                config,
                scan.bus,
                scan.slot,
                scan.function as int,
                scan.functions as int,
            ));
            1 + more
        } else {
            assert(rest =~= Seq::<PciDevice>::empty());
            assert(moved.devices =~= scan.devices + function_devices(
                config,
                scan.bus,
                scan.slot,
                scan.function as int,
                scan.functions as int,
            ));
            1
        }
    }
}

proof fn lemma_slot_scanned(
    scan: ScanModel,
    config: spec_fn(u8, u8, u8, u8) -> u32,
    position: int,
) -> (steps: nat)
    requires
        0 <= position < 8192,
        scan.arrived(position),
    ensures
        scan.run(config, steps).arrived(position + 1),
        scan.run(config, steps).devices == scan.devices + slot_devices(
            config,
            scan.bus,
            scan.slot,
        ),
{
    let id = config(scan.bus, scan.slot, 0, REGISTER_ID);
    assert(scan.awaited(config) == id);
    if vendor_of(id) == NO_VENDOR {
        assert(scan.run(config, 1) == scan.after(id)) by {
            reveal_with_fuel(ScanModel::run, 2);
        }
        assert(scan.after(id).devices =~= scan.devices + slot_devices(
            config,
            scan.bus,
            scan.slot,
        ));
        1
    } else {
        let at_header = scan.after(id);
        let header = config(scan.bus, scan.slot, 0, REGISTER_HEADER);
        assert(at_header.awaited(config) == header);
        let at_identity = at_header.after(header);
        assert(scan.run(config, 2) == at_identity) by {
            reveal_with_fuel(ScanModel::run, 3);
        }
        let more = lemma_functions_scanned(at_identity, config, position);
        lemma_run_in_two(scan, config, 2, more);
        2 + more
    }
}

/// The scan finds what the buses hold. Fed from a configuration space,
/// a scan that stands at the start of a slot comes to its end after some
/// number of steps, and has by then added the devices of that slot and of
/// every slot behind it, in their order. From the start of the first slot
/// these are the devices of all buses.
pub proof fn lemma_scan_finds_all_devices(
    scan: ScanModel,
    config: spec_fn(u8, u8, u8, u8) -> u32,
    position: int,
) -> (steps: nat)
    requires
        0 <= position <= 8192,
        scan.arrived(position),
    ensures
        scan.run(config, steps).stage == Stage::Finished,
        scan.run(config, steps).devices == scan.devices + devices_from(config, position),
    decreases 8192 - position,
{
    if position == 8192 {
        assert(scan.devices + devices_from(config, position) =~= scan.devices);
        0
    } else {
        let first = lemma_slot_scanned(scan, config, position);
        let next = scan.run(config, first);
        let rest = lemma_scan_finds_all_devices(next, config, position + 1);
        lemma_run_in_two(scan, config, first, rest);
        assert(scan.run(config, first + rest).devices =~= scan.devices + devices_from(
            config,
            position,
        ));
        first + rest
    }
}

} // verus!
