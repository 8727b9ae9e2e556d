//! The data logger: the slots with their drivers, the arbitration of the
//! resources that the drivers share, and the cycle that measures and actuates.

use vstd::prelude::*;
use crate::board::{sensor_settings_of, RRIVBoard};
use crate::drivers::resources::gpio::GpioRequest;
use crate::drivers::types::{partition_of, SensorDriver, SensorDriverGeneralConfiguration};
use crate::drivers::codec::le_value;
use crate::drivers::timed_switch_2::TimedSwitch2SpecialConfiguration;
use crate::registry::{
    instantiate,
    is_known_type,
    Driver,
    BASIC_EVO_TYPE_ID,
    TIMED_SWITCH_2_TYPE_ID,
};

verus! {

/// Number of slots.
pub const SENSOR_SLOTS: usize = 12;

/// The resources that the drivers of all slots but `except` hold together.
pub open spec fn held_by_others(slots: Seq<Option<Driver>>, except: int) -> Set<int> {
    Set::new(
        |r: int|
            exists|i: int|
                0 <= i < slots.len() && i != except && (#[trigger] slots[i]) is Some
                    && slots[i]->0.requested().contains(r),
    )
}

/// The values of a driver, parameter by parameter.
pub open spec fn driver_values(driver: Driver) -> Seq<Option<i64>> {
    Seq::new(driver.parameter_count(), |i: int| driver.parameter_value(i))
}

/// The values of one slot in a cycle: those of its driver, where it has one
/// that is enabled.
pub open spec fn slot_values(slot: Option<Driver>) -> Seq<Option<i64>> {
    match slot {
        Some(driver) => if driver.general().enabled {
            driver_values(driver)
        } else {
            Seq::empty()
        },
        None => Seq::empty(),
    }
}

/// The values of all slots, in slot order.
pub open spec fn flattened(slots: Seq<Option<Driver>>) -> Seq<Option<i64>>
    decreases slots.len(),
{
    if slots.len() == 0 {
        Seq::empty()
    } else {
        flattened(slots.drop_last()) + slot_values(slots.last())
    }
}

/// Whether two states of a slot hold the same driver in the same
/// configuration.
pub open spec fn same_slot(before: Option<Driver>, after: Option<Driver>) -> bool {
    match (before, after) {
        (Some(a), Some(b)) => {
            &&& a.kind() == b.kind()
            &&& a.general() == b.general()
            &&& a.special_bytes() == b.special_bytes()
            &&& a.parameter_count() == b.parameter_count()
            &&& a.requested() == b.requested()
        },
        (None, None) => true,
        _ => false,
    }
}

/// Whether a cycle left every slot with its driver in its configuration.
pub open spec fn same_configuration(before: Seq<Option<Driver>>, after: Seq<Option<Driver>>) -> bool {
    &&& before.len() == after.len()
    &&& forall|i: int| 0 <= i < before.len() ==> same_slot(#[trigger] before[i], after[i])
}

/// The bytes of an erased slot.
pub open spec fn erased_slot() -> Seq<u8> {
    Seq::new(64, |i: int| 0xFFu8)
}

/// What is persisted for a slot: the slot as its driver writes it, the general
/// configuration in front of the special one, or an erased slot where it is
/// empty.
pub open spec fn persisted(slot: Option<Driver>) -> Seq<u8> {
    match slot {
        Some(driver) => driver.general().encoded() + driver.special_bytes(),
        None => erased_slot(),
    }
}

/// The type code that a persisted slot names.
pub open spec fn stored_kind(storage: Seq<u8>) -> u16 {
    le_value(storage.subrange(6, 8)) as u16
}

/// The resources that the driver of a persisted slot asks for: the serial line
/// for the gas sensor, its pin for the switch, and none for the other kinds.
pub open spec fn slot_request(storage: Seq<u8>) -> Set<int> {
    if stored_kind(storage) == BASIC_EVO_TYPE_ID {
        Set::<int>::empty().insert(5).insert(8)
    } else if stored_kind(storage) == TIMED_SWITCH_2_TYPE_ID {
        let pin = TimedSwitch2SpecialConfiguration::decoded(storage.subrange(32, 64)).gpio_pin;
        if 1 <= pin <= 8 {
            Set::<int>::empty().insert(pin - 1)
        } else {
            Set::<int>::empty()
        }
    } else {
        Set::<int>::empty()
    }
}

/// Whether `driver` is the driver that the persisted slot `storage` describes,
/// as it is made: of the kind that the slot names, with the two configurations
/// that the slot holds, and with the values that it starts from.
pub open spec fn made_from(driver: Driver, storage: Seq<u8>) -> bool {
    &&& driver.well_formed()
    &&& driver.kind() == stored_kind(storage)
    &&& driver.general().decodes(storage.subrange(0, 32))
    &&& driver.special_decodes(storage.subrange(32, 64))
    &&& driver.requested() == slot_request(storage)
    &&& driver.fresh()
}

/// The slots as slot `slot` finds them while the slots are restored in order:
/// those in front of it as they end up, the others as they were.
pub open spec fn slots_met(
    before: Seq<Option<Driver>>,
    after: Seq<Option<Driver>>,
    slot: int,
) -> Seq<Option<Driver>> {
    Seq::new(
        before.len(),
        |i: int|
            if i < slot {
                after[i]
            } else {
                before[i]
            },
    )
}

/// Whether `now` is what restoring leaves in slot `slot`, which held `was`,
/// among the slots `others`. Where the persisted slot `storage` names a driver
/// and no other slot holds a resource that the driver asks for, the slot holds
/// that driver, set up. Else the slot is as it was.
pub open spec fn slot_restored(
    others: Seq<Option<Driver>>,
    slot: int,
    storage: Seq<u8>,
    was: Option<Driver>,
    now: Option<Driver>,
) -> bool {
    if is_known_type(stored_kind(storage)) && slot_request(storage).disjoint(
        held_by_others(others, slot),
    ) {
        now matches Some(placed) && exists|made: Driver| #[trigger]
            made_from(made, storage) && placed.set_up_from(made)
    } else {
        now == was
    }
}

/// The bytes of slot `slot` among the persisted bytes of all slots.
pub open spec fn stored_slot(stored: Seq<u8>, slot: int) -> Seq<u8> {
    stored.subrange(64 * slot, 64 * slot + 64)
}

/// Whether `after` is what restoring from `stored` leaves of the slots
/// `before`: every slot is restored in its turn.
pub open spec fn restored_from(
    before: Seq<Option<Driver>>,
    stored: Seq<u8>,
    after: Seq<Option<Driver>>,
) -> bool {
    &&& after.len() == before.len()
    &&& forall|slot: int|
        0 <= slot < 12 ==> slot_restored(
            slots_met(before, after, slot),
            slot,
            stored_slot(stored, slot),
            before[slot],
            #[trigger] after[slot],
        )
}

/// Whether `measured` is what the measuring pass of a cycle leaves of the slot
/// `before`: a driver that is enabled has measured once, a driver that is
/// disabled is as it was, and an empty slot stays empty.
pub open spec fn slot_measured(before: Option<Driver>, measured: Option<Driver>) -> bool {
    match (before, measured) {
        (Some(b), Some(m)) => if b.general().enabled {
            m.measured_from(b)
        } else {
            m == b
        },
        (None, None) => true,
        _ => false,
    }
}

/// Whether the driver `before` has become `after` by way of `measured`: it has
/// measured where it is enabled, and has then updated what it actuates.
pub open spec fn passed_through(before: Driver, measured: Driver, after: Driver) -> bool {
    slot_measured(Some(before), Some(measured)) && after.actuated_from(measured)
}

/// Whether `after` is what a cycle leaves of the slot `before`: its driver has
/// measured, where it is enabled, and has then updated what it actuates,
/// whether it is enabled or not. An empty slot stays empty.
pub open spec fn slot_cycled(before: Option<Driver>, after: Option<Driver>) -> bool {
    match (before, after) {
        (Some(b), Some(a)) => exists|measured: Driver| #[trigger] passed_through(b, measured, a),
        (None, None) => true,
        _ => false,
    }
}

/// The data logger.
#[derive(Debug)]
pub struct DataLogger {
    /// The slots, each with its driver or empty.
    pub sensor_drivers: Vec<Option<Driver>>,
}

impl DataLogger {
    /// What holds of a data logger between calls: it has its slots, every
    /// driver is well formed, and no resource is held by two drivers.
    pub open spec fn well_formed(&self) -> bool {
        &&& self.sensor_drivers@.len() == SENSOR_SLOTS
        &&& forall|i: int|
            0 <= i < self.sensor_drivers@.len() && (#[trigger] self.sensor_drivers@[i]) is Some
                ==> self.sensor_drivers@[i]->0.well_formed()
        &&& forall|i: int|
            0 <= i < self.sensor_drivers@.len() && (#[trigger] self.sensor_drivers@[i]) is Some
                ==> self.sensor_drivers@[i]->0.requested().disjoint(
                held_by_others(self.sensor_drivers@, i),
            )
    }

    /// A data logger with empty slots.
    pub fn new() -> (logger: Self)
        ensures
            logger.well_formed(),
            forall|i: int| 0 <= i < 12 ==> (#[trigger] logger.sensor_drivers@[i]) is None,
    {
        let mut sensor_drivers: Vec<Option<Driver>> = Vec::new();
        let mut i: usize = 0;
        while i < SENSOR_SLOTS
            invariant
                i <= SENSOR_SLOTS,
                sensor_drivers@.len() == i,
                forall|j: int| 0 <= j < i ==> (#[trigger] sensor_drivers@[j]) is None,
            decreases SENSOR_SLOTS - i,
        {
            sensor_drivers.push(None);
            i += 1;
        }
        DataLogger { sensor_drivers }
    }

    /// The resources that the drivers of all slots but `except` hold.
    pub fn requests_of_others(&self, except: usize) -> (held: GpioRequest)
        requires
            self.well_formed(),
        ensures
            held@ == held_by_others(self.sensor_drivers@, except as int),
    {
        let mut held = GpioRequest::none();
        let mut i: usize = 0;
        while i < SENSOR_SLOTS
            invariant
                i <= SENSOR_SLOTS,
                self.well_formed(),
                held@ == held_by_others(self.sensor_drivers@.subrange(0, i as int), except as int),
            decreases SENSOR_SLOTS - i,
        {
            let ghost before = held@;
            let ghost head = self.sensor_drivers@.subrange(0, i as int);
            let ghost next = self.sensor_drivers@.subrange(0, i + 1);
            if i != except {
                match &self.sensor_drivers[i] {
                    Some(driver) => {
                        let request: GpioRequest = driver.get_requested_gpios();
                        let ghost wanted = request@;
                        assert(held@.disjoint(wanted)) by {
                            assert forall|r: int| held@.contains(r) implies !wanted.contains(r) by {
                                let j = choose|j: int|
                                    0 <= j < head.len() && j != except && (#[trigger] head[j])
                                        is Some && head[j]->0.requested().contains(r);
                                assert(head[j] == self.sensor_drivers@[j]);
                                if wanted.contains(r) {
                                    assert(held_by_others(self.sensor_drivers@, i as int).contains(
                                        r,
                                    ));
                                }
                            }
                        }
                        let granted = held.update_or_conflict(request);
                        assert(granted is Ok);
                    },
                    None => {},
                }
            }
            i += 1;
            proof {
                assert forall|r: int| held@.contains(r) == held_by_others(
                    next,
                    except as int,
                ).contains(r) by {
                    if held_by_others(next, except as int).contains(r) {
                        let j = choose|j: int|
                            0 <= j < next.len() && j != except && (#[trigger] next[j]) is Some
                                && next[j]->0.requested().contains(r);
                        if j < i - 1 {
                            assert(head[j] == next[j]);
                            assert(before.contains(r));
                        }
                    }
                    if before.contains(r) {
                        let j = choose|j: int|
                            0 <= j < head.len() && j != except && (#[trigger] head[j]) is Some
                                && head[j]->0.requested().contains(r);
                        assert(next[j] == head[j]);
                    }
                    if held@.contains(r) && !before.contains(r) {
                        assert(next[i - 1] == self.sensor_drivers@[i - 1]);
                    }
                }
                assert(held@ =~= held_by_others(next, except as int));
            }
        }
        assert(self.sensor_drivers@.subrange(0, SENSOR_SLOTS as int) =~= self.sensor_drivers@);
        held
    }

    /// Configures slot `slot` with `driver`, in place of what the slot held.
    ///
    /// The resources that the driver asks for are checked against those that
    /// the drivers of the other slots hold, before the driver touches the
    /// board. Where one of them is held already, or the slot does not exist,
    /// the driver is refused and nothing changes: every slot keeps its driver
    /// in the state it was in. Else the driver is set up and takes the slot.
    pub fn add_sensor<B: RRIVBoard>(&mut self, slot: usize, driver: Driver, board: &mut B) -> (r:
        Result<(), &'static str>)
        requires
            old(self).well_formed(),
            driver.well_formed(),
        ensures
            final(self).well_formed(),
            r is Ok == (slot < SENSOR_SLOTS && driver.requested().disjoint(
                held_by_others(old(self).sensor_drivers@, slot as int),
            )),
            r is Err ==> final(self).sensor_drivers@ == old(self).sensor_drivers@,
            r is Ok ==> {
                &&& final(self).sensor_drivers@.len() == old(self).sensor_drivers@.len()
                &&& forall|i: int|
                    0 <= i < 12 && i != slot ==> #[trigger] final(self).sensor_drivers@[i] == old(self).sensor_drivers@[i]
                &&& final(self).sensor_drivers@[slot as int] matches Some(placed)
                &&& placed.kind() == driver.kind()
                &&& placed.general() == driver.general()
                &&& placed.requested() == driver.requested()
                &&& placed.set_up_from(driver)
            },
    {
        if slot >= SENSOR_SLOTS {
            return Err("no such slot");
        }
        let held: GpioRequest = self.requests_of_others(slot);
        let wanted: GpioRequest = driver.get_requested_gpios();
        if held.conflicts_with(&wanted) {
            return Err("resource already in use");
        }
        let mut driver: Driver = driver;
        driver.setup(board);
        let ghost before = self.sensor_drivers@;
        let ghost placed = driver;
        self.sensor_drivers[slot] = Some(driver);
        proof {
            let after = self.sensor_drivers@;
            assert(after == before.update(slot as int, Some(placed)));
            assert forall|i: int| 0 <= i < after.len() && (#[trigger] after[i]) is Some implies after[i]->0.requested().disjoint(
                held_by_others(after, i),
            ) by {
                assert forall|r: int| after[i]->0.requested().contains(r) implies !held_by_others(
                    after,
                    i,
                ).contains(r) by {
                    if held_by_others(after, i).contains(r) {
                        let j = choose|j: int|
                            0 <= j < after.len() && j != i && (#[trigger] after[j]) is Some
                                && after[j]->0.requested().contains(r);
                        if i == slot {
                            assert(before[j] == after[j]);
                            assert(held_by_others(before, slot as int).contains(r));
                        } else if j == slot {
                            assert(before[i] == after[i]);
                            assert(held_by_others(before, slot as int).contains(r));
                        } else {
                            assert(before[i] == after[i]);
                            assert(before[j] == after[j]);
                            assert(held_by_others(before, i).contains(r));
                        }
                    }
                }
            }
        }
        Ok(())
    }

    /// The bytes that are persisted for slot `slot`.
    pub fn slot_bytes(&self, slot: usize) -> (bytes: [u8; 64])
        requires
            self.well_formed(),
            slot < SENSOR_SLOTS,
        ensures
            bytes@ == persisted(self.sensor_drivers@[slot as int]),
    {
        let mut storage: [u8; 64] = [0xFF; 64];
        match &self.sensor_drivers[slot] {
            Some(driver) => {
                driver.get_configuration_bytes(&mut storage);
            },
            None => {
                assert(storage@ =~= erased_slot());
            },
        }
        storage
    }

    /// Persists the configuration of slot `slot`: the slot as its driver writes
    /// it, or an erased slot where it is empty. A slot that does not exist is
    /// left alone.
    pub fn store_sensor<B: RRIVBoard>(&self, slot: usize, board: &mut B)
        requires
            self.well_formed(),
    {
        if slot >= SENSOR_SLOTS {
            return;
        }
        let storage: [u8; 64] = self.slot_bytes(slot);
        board.store_sensor_settings(slot as u8, &storage);
    }

    /// Brings back the drivers that `stored` describes, slot by slot. A slot
    /// whose type code names no driver is left as it is, and so is one whose
    /// driver asks for a resource that another slot holds at its turn. Every
    /// driver that takes its slot is set up.
    pub fn restore_from<B: RRIVBoard>(&mut self, stored: &[u8; 768], board: &mut B)
        requires
            old(self).well_formed(),
        ensures
            final(self).well_formed(),
            restored_from(old(self).sensor_drivers@, stored@, final(self).sensor_drivers@),
    {
        let mut slot: usize = 0;
        while slot < SENSOR_SLOTS
            invariant
                slot <= SENSOR_SLOTS,
                self.well_formed(),
                old(self).well_formed(),
                self.sensor_drivers@.len() == old(self).sensor_drivers@.len(),
                forall|i: int|
                    slot <= i < 12 ==> #[trigger] self.sensor_drivers@[i] == old(self).sensor_drivers@[i],
                forall|j: int|
                    0 <= j < slot ==> slot_restored(
                        slots_met(old(self).sensor_drivers@, self.sensor_drivers@, j),
                        j,
                        stored_slot(stored@, j),
                        old(self).sensor_drivers@[j],
                        #[trigger] self.sensor_drivers@[j],
                    ),
            decreases SENSOR_SLOTS - slot,
        {
            let ghost start = old(self).sensor_drivers@;
            let ghost before = self.sensor_drivers@;
            let storage: [u8; 64] = sensor_settings_of(stored, slot);
            let driver: Option<Driver> = driver_from_slot(&storage);
            proof {
                assert(slots_met(start, before, slot as int) =~= before);
            }
            match driver {
                Some(driver) => {
                    let _ = self.add_sensor(slot, driver, board);
                },
                None => {},
            }
            proof {
                let after = self.sensor_drivers@;
                assert(slots_met(start, after, slot as int) =~= before);
                assert forall|j: int| 0 <= j < slot + 1 implies slot_restored(
                    slots_met(start, after, j),
                    j,
                    stored_slot(stored@, j),
                    start[j],
                    #[trigger] after[j],
                ) by {
                    if j < slot {
                        assert(after[j] == before[j]);
                        assert(slots_met(start, after, j) =~= slots_met(start, before, j));
                    }
                }
            }
            slot += 1;
        }
    }

    /// Brings back the drivers that were persisted, slot by slot: reads what
    /// the board holds for the slots and restores from it.
    pub fn restore_sensors<B: RRIVBoard>(&mut self, board: &mut B)
        requires
            old(self).well_formed(),
        ensures
            final(self).well_formed(),
            exists|stored: [u8; 768]| #[trigger]
                restored_from(old(self).sensor_drivers@, stored@, final(self).sensor_drivers@),
    {
        let mut stored: [u8; 768] = [0xFF; 768];
        board.retrieve_sensor_settings(&mut stored);
        self.restore_from(&stored, board);
    }

    /// Empties slot `slot`. A slot that does not exist is left alone.
    pub fn remove_sensor(&mut self, slot: usize)
        requires
            old(self).well_formed(),
        ensures
            final(self).well_formed(),
            final(self).sensor_drivers@ == if slot < SENSOR_SLOTS {
                old(self).sensor_drivers@.update(slot as int, None)
            } else {
                old(self).sensor_drivers@
            },
    {
        if slot >= SENSOR_SLOTS {
            return;
        }
        let ghost before = self.sensor_drivers@;
        self.sensor_drivers[slot] = None;
        proof {
            let after = self.sensor_drivers@;
            assert forall|i: int| 0 <= i < after.len() && (#[trigger] after[i]) is Some implies after[i]->0.requested().disjoint(
                held_by_others(after, i),
            ) by {
                assert(before[i] == after[i]);
                assert forall|r: int| after[i]->0.requested().contains(r) implies !held_by_others(
                    after,
                    i,
                ).contains(r) by {
                    if held_by_others(after, i).contains(r) {
                        let j = choose|j: int|
                            0 <= j < after.len() && j != i && (#[trigger] after[j]) is Some
                                && after[j]->0.requested().contains(r);
                        assert(before[j] == after[j]);
                        assert(held_by_others(before, i).contains(r));
                    }
                }
            }
        }
    }

    /// The values of all enabled drivers, in slot order.
    pub fn collect_values(&self) -> (values: Vec<Option<i64>>)
        requires
            self.well_formed(),
        ensures
            values@ == flattened(self.sensor_drivers@),
    {
        let mut values: Vec<Option<i64>> = Vec::new();
        let mut i: usize = 0;
        proof {
            assert(self.sensor_drivers@.subrange(0, 0) =~= Seq::<Option<Driver>>::empty());
        }
        while i < SENSOR_SLOTS
            invariant
                i <= SENSOR_SLOTS,
                self.well_formed(),
                values@ == flattened(self.sensor_drivers@.subrange(0, i as int)),
            decreases SENSOR_SLOTS - i,
        {
            let ghost before = values@;
            proof {
                let next = self.sensor_drivers@.subrange(0, i + 1);
                assert(next.drop_last() =~= self.sensor_drivers@.subrange(0, i as int));
                assert(next.last() == self.sensor_drivers@[i as int]);
            }
            match &self.sensor_drivers[i] {
                Some(driver) => {
                    if driver.is_enabled() {
                        let count: usize = driver.get_measured_parameter_count();
                        let mut k: usize = 0;
                        while k < count
                            invariant
                                k <= count,
                                driver.well_formed(),
                                count == driver.parameter_count(),
                                values@ == before + driver_values(*driver).subrange(0, k as int),
                            decreases count - k,
                        {
                            let value: Option<i64> = match driver.get_measured_parameter_value(k) {
                                Ok(value) => Some(value),
                                Err(_) => None,
                            };
                            values.push(value);
                            k += 1;
                            assert(values@ =~= before + driver_values(*driver).subrange(
                                0,
                                k as int,
                            ));
                        }
                        assert(driver_values(*driver).subrange(0, count as int) =~= driver_values(
                            *driver,
                        ));
                    } else {
                        assert(values@ =~= before + slot_values(self.sensor_drivers@[i as int]));
                    }
                },
                None => {
                    assert(values@ =~= before + slot_values(self.sensor_drivers@[i as int]));
                },
            }
            i += 1;
        }
        assert(self.sensor_drivers@.subrange(0, SENSOR_SLOTS as int) =~= self.sensor_drivers@);
        values
    }

    /// One cycle: every enabled driver measures, in slot order; then every
    /// driver updates what it actuates, in slot order; then the values are
    /// collected. A driver that fails yields unavailable values and does not
    /// stop the cycle. The cycle leaves every slot with its driver in its
    /// configuration.
    pub fn run_cycle<B: RRIVBoard>(&mut self, board: &mut B) -> (values: Vec<Option<i64>>)
        requires
            old(self).well_formed(),
        ensures
            final(self).well_formed(),
            same_configuration(old(self).sensor_drivers@, final(self).sensor_drivers@),
            forall|i: int|
                0 <= i < 12 ==> slot_cycled(
                    old(self).sensor_drivers@[i],
                    #[trigger] final(self).sensor_drivers@[i],
                ),
            values@ == flattened(final(self).sensor_drivers@),
    {
        let mut i: usize = 0;
        while i < SENSOR_SLOTS
            invariant
                i <= SENSOR_SLOTS,
                self.sensor_drivers@.len() == SENSOR_SLOTS,
                old(self).sensor_drivers@.len() == SENSOR_SLOTS,
                same_configuration(old(self).sensor_drivers@, self.sensor_drivers@),
                forall|j: int|
                    0 <= j < self.sensor_drivers@.len() && (#[trigger] self.sensor_drivers@[j])
                        is Some ==> self.sensor_drivers@[j]->0.well_formed(),
                forall|j: int|
                    0 <= j < i ==> slot_measured(
                        old(self).sensor_drivers@[j],
                        #[trigger] self.sensor_drivers@[j],
                    ),
                forall|j: int|
                    i <= j < 12 ==> #[trigger] self.sensor_drivers@[j] == old(self).sensor_drivers@[j],
            decreases SENSOR_SLOTS - i,
        {
            let ghost before = self.sensor_drivers@;
            match &mut self.sensor_drivers[i] {
                Some(driver) => {
                    if driver.is_enabled() {
                        driver.take_measurement(board);
                    }
                },
                None => {},
            }
            proof {
                let after = self.sensor_drivers@;
                assert forall|j: int| 0 <= j < 12 implies same_slot(
                    #[trigger] old(self).sensor_drivers@[j],
                    after[j],
                ) by {
                    assert(same_slot(old(self).sensor_drivers@[j], before[j]));
                }
                assert forall|j: int| 0 <= j < i + 1 implies slot_measured(
                    old(self).sensor_drivers@[j],
                    #[trigger] after[j],
                ) by {
                    if j < i {
                        assert(after[j] == before[j]);
                    } else {
                        assert(before[j] == old(self).sensor_drivers@[j]);
                    }
                }
            }
            i += 1;
        }
        let ghost middle = self.sensor_drivers@;
        let mut k: usize = 0;
        while k < SENSOR_SLOTS
            invariant
                k <= SENSOR_SLOTS,
                self.sensor_drivers@.len() == SENSOR_SLOTS,
                old(self).sensor_drivers@.len() == SENSOR_SLOTS,
                middle.len() == SENSOR_SLOTS,
                same_configuration(old(self).sensor_drivers@, self.sensor_drivers@),
                forall|j: int|
                    0 <= j < self.sensor_drivers@.len() && (#[trigger] self.sensor_drivers@[j])
                        is Some ==> self.sensor_drivers@[j]->0.well_formed(),
                forall|j: int|
                    0 <= j < 12 ==> slot_measured(old(self).sensor_drivers@[j], #[trigger] middle[j]),
                forall|j: int|
                    0 <= j < k ==> slot_cycled(
                        old(self).sensor_drivers@[j],
                        #[trigger] self.sensor_drivers@[j],
                    ),
                forall|j: int| k <= j < 12 ==> #[trigger] self.sensor_drivers@[j] == middle[j],
            decreases SENSOR_SLOTS - k,
        {
            let ghost before = self.sensor_drivers@;
            match &mut self.sensor_drivers[k] {
                Some(driver) => {
                    driver.update_actuators(board);
                },
                None => {},
            }
            proof {
                let after = self.sensor_drivers@;
                assert forall|j: int| 0 <= j < 12 implies same_slot(
                    #[trigger] old(self).sensor_drivers@[j],
                    after[j],
                ) by {
                    assert(same_slot(old(self).sensor_drivers@[j], before[j]));
                }
                assert forall|j: int| 0 <= j < k + 1 implies slot_cycled(
                    old(self).sensor_drivers@[j],
                    #[trigger] after[j],
                ) by {
                    if j < k {
                        assert(after[j] == before[j]);
                    } else {
                        assert(before[j] == middle[j]);
                        assert(slot_measured(old(self).sensor_drivers@[j], middle[j]));
                        match (old(self).sensor_drivers@[j], middle[j], after[j]) {
                            (Some(b), Some(m), Some(a)) => {
                                assert(passed_through(b, m, a));
                            },
                            _ => {},
                        }
                    }
                }
            }
            k += 1;
        }
        proof {
            lemma_configuration_keeps_arbitration(old(self).sensor_drivers@, self.sensor_drivers@);
        }
        self.collect_values()
    }
}

/// The driver that a persisted slot describes: the general configuration in its
/// first partition names the kind, the second partition holds the special
/// configuration. A slot whose type code names no driver describes none.
pub fn driver_from_slot(storage: &[u8; 64]) -> (driver: Option<Driver>)
    ensures
        driver is Some == is_known_type(
            crate::drivers::codec::le_value(storage@.subrange(6, 8)) as u16,
        ),
        driver matches Some(d) ==> d.well_formed() && d.general().decodes(
            storage@.subrange(0, 32),
        ) && d.kind() == d.general().sensor_type_id && d.special_decodes(
            storage@.subrange(32, 64),
        ),
        driver is Some == is_known_type(stored_kind(storage@)),
        driver matches Some(d) ==> made_from(d, storage@),
{
    let general: SensorDriverGeneralConfiguration = SensorDriverGeneralConfiguration::new_from_bytes(
        partition_of(storage, 0),
    );
    proof {
        assert(storage@.subrange(0, 32).subrange(6, 8) =~= storage@.subrange(6, 8));
    }
    instantiate(general.sensor_type_id, general, partition_of(storage, 1))
}

/// Slots that hold the same drivers in the same configurations hold the same
/// resources, so that none is held twice after a cycle if none was before.
pub proof fn lemma_configuration_keeps_arbitration(
    before: Seq<Option<Driver>>,
    after: Seq<Option<Driver>>,
)
    requires
        same_configuration(before, after),
        forall|i: int|
            0 <= i < before.len() && (#[trigger] before[i]) is Some
                ==> before[i]->0.requested().disjoint(held_by_others(before, i)),
    ensures
        forall|i: int|
            0 <= i < after.len() && (#[trigger] after[i]) is Some
                ==> after[i]->0.requested().disjoint(held_by_others(after, i)),
{
    assert forall|i: int| 0 <= i < after.len() && (#[trigger] after[i]) is Some implies after[i]->0.requested().disjoint(
        held_by_others(after, i),
    ) by {
        assert(same_slot(before[i], after[i]));
        assert forall|r: int| after[i]->0.requested().contains(r) implies !held_by_others(
            after,
            i,
        ).contains(r) by {
            if held_by_others(after, i).contains(r) {
                let j = choose|j: int|
                    0 <= j < after.len() && j != i && (#[trigger] after[j]) is Some
                        && after[j]->0.requested().contains(r);
                assert(same_slot(before[j], after[j]));
                assert(held_by_others(before, i).contains(r));
            }
        }
    }
}

/// Two drivers that ask for the same resource cannot hold two slots: while the
/// first holds its slot, the second is refused for any other.
pub proof fn lemma_shared_resource_is_refused(
    slots: Seq<Option<Driver>>,
    first: int,
    second: int,
    driver: Driver,
    resource: int,
)
    requires
        0 <= first < slots.len(),
        first != second,
        slots[first] is Some,
        slots[first]->0.requested().contains(resource),
        driver.requested().contains(resource),
    ensures
        !driver.requested().disjoint(held_by_others(slots, second)),
{
    assert(held_by_others(slots, second).contains(resource));
}

} // verus!
