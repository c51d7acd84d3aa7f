//! Addresses whose traffic is dropped before it reaches the address table.
use vstd::prelude::*;
use crate::arp_table::ADDRESS_SPACE;

verus! {

/// Set of blacklisted addresses, one flag per address, so that a lookup
/// takes constant time.
pub struct BlackList {
    blacklist: Vec<bool>,
}

impl View for BlackList {
    type V = Set<u8>;

    closed spec fn view(&self) -> Set<u8> {
        Set::new(|a: u8| (a as int) < self.blacklist@.len() && self.blacklist@[a as int])
    }
}

impl BlackList {
    /// One flag per address.
    pub closed spec fn wf(&self) -> bool {
        self.blacklist@.len() == ADDRESS_SPACE
    }

    /// An empty blacklist.
    pub fn new() -> (r: Self)
        ensures
            r.wf(),
            r@ == Set::<u8>::empty(),
    {
        let mut blacklist: Vec<bool> = Vec::new();
        let mut i: usize = 0;
        while i < ADDRESS_SPACE
            invariant
                0 <= i <= ADDRESS_SPACE,
                blacklist@.len() == i,
                forall|k: int| 0 <= k < i ==> !blacklist@[k],
            decreases ADDRESS_SPACE - i,
        {
            blacklist.push(false);
            i = i + 1;
        }
        let r = BlackList { blacklist };
        assert(r@ =~= Set::<u8>::empty());
        r
    }

    pub fn add_to_blacklist(&mut self, address: u8)
        requires
            old(self).wf(),
        ensures
            final(self).wf(),
            final(self)@ == old(self)@.insert(address),
    {
        self.blacklist.set(address as usize, true);
        assert(self@ =~= old(self)@.insert(address));
    }

    pub fn remove_from_blacklist(&mut self, address: u8)
        requires
            old(self).wf(),
        ensures
            final(self).wf(),
            final(self)@ == old(self)@.remove(address),
    {
        self.blacklist.set(address as usize, false);
        assert(self@ =~= old(self)@.remove(address));
    }

    pub fn is_blacklisted(&self, address: u8) -> (r: bool)
        requires
            self.wf(),
        ensures
            r == self@.contains(address),
    {
        self.blacklist[address as usize]
    }
}

} // verus!
