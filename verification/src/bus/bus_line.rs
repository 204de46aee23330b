use vstd::prelude::*;

use super::identifiable::Identifier;

verus! {

/// Signal bus line: at most one device drives it at a time
pub struct BusLine<T> {

    /// Line name
    name: &'static str,

    /// Line owner and state
    state: Option<(Identifier, T)>,

}

impl<T> View for BusLine<T> {
    type V = Option<(Identifier, T)>;

    closed spec fn view(&self) -> Option<(Identifier, T)> {
        self.state
    }
}

impl<T: Copy> BusLine<T> {

    pub closed spec fn spec_name(&self) -> Seq<char> {
        self.name@
    }

    /// The line can be driven by `device`: nobody drives it, or `device` does
    pub open spec fn can_drive(&self, device: Identifier) -> bool {
        match self@ {
            None => true,
            Some((owner, _)) => owner == device,
        }
    }

    /// Create new bus line
    pub fn new(name: &'static str) -> (r: Self)
        ensures
            r@ is None,
            r.spec_name() == name@,
    {
        Self { name, state: None }
    }

    /// Bus line name
    pub fn name(&self) -> (r: &str)
        ensures
            r@ == self.spec_name(),
    {
        self.name
    }

    /// Get line state (owner and value)
    pub fn state(&self) -> (r: Option<(Identifier, T)>)
        ensures
            r == self@,
    {
        self.state
    }

    /// Get line owner (if any)
    pub fn owner(&self) -> (r: Option<Identifier>)
        ensures
            r == match self@ { Some((owner, _)) => Some(owner), None => None },
    {
        match self.state {
            Some((owner, _)) => Some(owner),
            None => None,
        }
    }

    /// Probe signal line
    pub fn probe(&self) -> (r: Option<T>)
        ensures
            r == match self@ { Some((_, value)) => Some(value), None => None },
    {
        match self.state {
            Some((_, value)) => Some(value),
            None => None,
        }
    }

    /// Expect signal on the line
    pub fn expect(&self) -> (r: T)
        requires
            self@ is Some,
        ensures
            r == self@.unwrap().1,
    {
        match self.state {
            Some((_, value)) => value,
            None => self.state.unwrap().1,
        }
    }

    /// Drive signal line; only the device that drives it (or anyone, when it is free) may
    pub fn drive(&mut self, device: Identifier, value: T)
        requires
            old(self).can_drive(device),
        ensures
            final(self)@ == Some((device, value)),
            final(self).spec_name() == old(self).spec_name(),
    {
        self.state = Some((device, value));
    }

    /// Drive signal line if `device` may; returns whether it did
    pub fn try_drive(&mut self, device: Identifier, value: T) -> (ok: bool)
        ensures
            ok == old(self).can_drive(device),
            ok ==> final(self)@ == Some((device, value)),
            !ok ==> final(self)@ == old(self)@,
            final(self).spec_name() == old(self).spec_name(),
    {
        let ok = match self.state {
            Some((owner, _)) => owner == device,
            None => true,
        };
        if ok {
            self.state = Some((device, value));
        }
        ok
    }

    /// A line driven by another device than `device` is the same in `next`
    pub open spec fn kept_for_others(&self, next: &Self, device: Identifier) -> bool {
        (self@ matches Some((owner, _)) && owner != device) ==> next@ == self@
    }

    /// Release signal line; a line that `device` does not drive stays as it is
    pub fn release(&mut self, device: Identifier)
        ensures
            old(self).owner_is(device) ==> final(self)@ is None,
            !old(self).owner_is(device) ==> final(self)@ == old(self)@,
            final(self).spec_name() == old(self).spec_name(),
    {
        match self.state {
            Some((owner, _)) => if owner == device { self.state = None; },
            None => {},
        }
    }

    pub open spec fn owner_is(&self, device: Identifier) -> bool {
        self@ matches Some((owner, _)) && owner == device
    }

}

/// Law: a line driven by a device reads back the value driven, until that device releases it,
/// after which the line is free for any other device
pub proof fn lemma_drive_probe_release<T: Copy>(line: BusLine<T>, driven: BusLine<T>, released: BusLine<T>, device: Identifier, value: T, other: Identifier)
    requires
        line.can_drive(device),
        driven@ == Some((device, value)),
        driven.owner_is(device) ==> released@ is None,
    ensures
        driven@.unwrap().1 == value,
        released.can_drive(other),
        !driven.can_drive(other) <== other != device,
{
}

} // verus!
