//! Which pins and lines a driver needs, and the bookkeeping that keeps two
//! drivers from claiming the same one. The I2C and one-wire buses are shared by
//! address and are not arbitrated.

use vstd::prelude::*;

verus! {

/// Number of general-purpose pins, numbered from 1.
pub const GPIO_PIN_COUNT: u8 = 8;

/// Number of resources that are arbitrated: the pins, the serial line and the
/// RS-485 transceiver.
pub const RESOURCE_COUNT: usize = 10;

/// Index of the shared serial line among the resources.
pub const USART_RESOURCE: usize = 8;

/// Index of the RS-485 transceiver, with its direction-control pin, among the
/// resources.
pub const RS485_RESOURCE: usize = 9;

/// A set of exclusive resources: what one driver asks for, or what all drivers
/// together hold. Entry `p - 1` stands for pin `p`.
#[derive(Clone, Copy, Debug)]
pub struct GpioRequest {
    pub claimed: [bool; 10],
}

impl View for GpioRequest {
    type V = Set<int>;

    /// The indices of the resources in the set.
    open spec fn view(&self) -> Set<int> {
        Set::new(|r: int| 0 <= r < 10 && self.claimed@[r])
    }
}

impl GpioRequest {
    /// The empty request.
    pub fn none() -> (request: Self)
        ensures
            request@ == Set::<int>::empty(),
    {
        let request = GpioRequest { claimed: [false, false, false, false, false, false, false, false, false, false] };
        assert(request@ =~= Set::<int>::empty());
        request
    }

    /// Adds general-purpose pin `pin`. A number that names no pin adds
    /// nothing.
    pub fn use_pin(&mut self, pin: u8)
        ensures
            final(self)@ == if 1 <= pin <= 8 {
                old(self)@.insert(pin - 1)
            } else {
                old(self)@
            },
    {
        if 1 <= pin && pin <= GPIO_PIN_COUNT {
            self.claimed[(pin - 1) as usize] = true;
            assert(self@ =~= old(self)@.insert(pin - 1));
        } else {
            assert(self@ =~= old(self)@);
        }
    }

    /// Adds the shared serial line.
    pub fn use_usart(&mut self)
        ensures
            final(self)@ == old(self)@.insert(8),
    {
        self.claimed[USART_RESOURCE] = true;
        assert(self@ =~= old(self)@.insert(8));
    }

    /// Adds the RS-485 transceiver.
    pub fn use_rs485(&mut self)
        ensures
            final(self)@ == old(self)@.insert(9),
    {
        self.claimed[RS485_RESOURCE] = true;
        assert(self@ =~= old(self)@.insert(9));
    }

    /// Whether pin `pin` is in the set.
    pub fn uses_pin(&self, pin: u8) -> (r: bool)
        ensures
            r == (1 <= pin <= 8 && self@.contains(pin - 1)),
    {
        1 <= pin && pin <= GPIO_PIN_COUNT && self.claimed[(pin - 1) as usize]
    }

    /// Whether some resource is in both sets.
    pub fn conflicts_with(&self, other: &GpioRequest) -> (r: bool)
        ensures
            r == !self@.disjoint(other@),
    {
        let mut i: usize = 0;
        while i < 10
            invariant
                i <= 10,
                forall|j: int| 0 <= j < i ==> !(self.claimed@[j] && other.claimed@[j]),
            decreases 10 - i,
        {
            if self.claimed[i] && other.claimed[i] {
                assert(self@.contains(i as int) && other@.contains(i as int));
                return true;
            }
            i += 1;
        }
        assert(self@.disjoint(other@));
        false
    }

    /// Grants `request` on top of what is held, or refuses it as a whole: where
    /// any resource asked for is held already, nothing changes.
    pub fn update_or_conflict(&mut self, request: GpioRequest) -> (r: Result<(), &'static str>)
        ensures
            r is Ok == old(self)@.disjoint(request@),
            r is Ok ==> final(self)@ == old(self)@.union(request@),
            r is Err ==> *final(self) == *old(self),
    {
        if self.conflicts_with(&request) {
            return Err("resource already in use");
        }
        let mut i: usize = 0;
        while i < 10
            invariant
                i <= 10,
                forall|j: int|
                    0 <= j < i ==> #[trigger] self.claimed@[j] == (old(self).claimed@[j]
                        || request.claimed@[j]),
                forall|j: int| i <= j < 10 ==> #[trigger] self.claimed@[j] == old(self).claimed@[j],
            decreases 10 - i,
        {
            if request.claimed[i] {
                self.claimed[i] = true;
            }
            i += 1;
        }
        assert(self@ =~= old(self)@.union(request@));
        Ok(())
    }

    /// Gives back what `request` holds.
    pub fn release(&mut self, request: GpioRequest)
        ensures
            final(self)@ == old(self)@.difference(request@),
    {
        let mut i: usize = 0;
        while i < 10
            invariant
                i <= 10,
                forall|j: int|
                    0 <= j < i ==> #[trigger] self.claimed@[j] == (old(self).claimed@[j]
                        && !request.claimed@[j]),
                forall|j: int| i <= j < 10 ==> #[trigger] self.claimed@[j] == old(self).claimed@[j],
            decreases 10 - i,
        {
            if request.claimed[i] {
                self.claimed[i] = false;
            }
            i += 1;
        }
        assert(self@ =~= old(self)@.difference(request@));
    }
}

/// A request that is granted and then released leaves what was held before.
pub proof fn lemma_grant_then_release(held: Set<int>, request: Set<int>)
    requires
        held.disjoint(request),
    ensures
        held.union(request).difference(request) == held,
{
    assert(held.union(request).difference(request) =~= held);
}

} // verus!
