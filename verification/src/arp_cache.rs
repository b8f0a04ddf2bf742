//! Bounded tables from IPv4 addresses to hardware addresses.
//!
//! The relay keeps two of them: the addresses it has resolved, and the
//! requests it has forwarded and still owes an answer to. Like the table of
//! bindings, such a table has a capacity fixed when it is made and holds at
//! most one entry for an address; nothing is ever evicted.

use vstd::prelude::*;
use crate::bindings::TableError;

verus! {

/// An entry: the hardware address that goes with an IPv4 address.
#[derive(Clone, Copy, Debug, PartialEq, Eq)]
pub struct IpMacMap {
    /// The IPv4 address, as a number in host order.
    pub ip: u32,
    /// The hardware address.
    pub mac: [u8; 6],
}

/// Whether no IPv4 address occurs twice in `log`.
pub open spec fn distinct_ips(log: Seq<IpMacMap>) -> bool {
    forall|i: int, j: int| 0 <= i < j < log.len() ==> (#[trigger] log[i]).ip != (#[trigger] log[j]).ip
}

/// Whether `log` is a valid content for a table of capacity `capacity`.
pub open spec fn arp_well_formed(log: Seq<IpMacMap>, capacity: nat) -> bool {
    log.len() <= capacity && distinct_ips(log)
}

/// Whether `log` holds an entry for `ip`.
pub open spec fn arp_is_cached(log: Seq<IpMacMap>, ip: u32) -> bool {
    exists|i: int| 0 <= i < log.len() && (#[trigger] log[i]).ip == ip
}

/// A slot of `log` that holds an entry for `ip`; the only one where `log` is
/// well formed.
pub open spec fn arp_slot_of(log: Seq<IpMacMap>, ip: u32) -> int {
    choose|i: int| 0 <= i < log.len() && (#[trigger] log[i]).ip == ip
}

/// The hardware address that `log` holds for `ip`, if any.
pub open spec fn arp_lookup(log: Seq<IpMacMap>, ip: u32) -> Option<[u8; 6]> {
    if arp_is_cached(log, ip) {
        Some(log[arp_slot_of(log, ip)].mac)
    } else {
        None
    }
}

/// Whether a table of capacity `capacity` that holds `log` takes an entry
/// for `ip`: it has one already, or it has room.
pub open spec fn arp_takes(log: Seq<IpMacMap>, capacity: nat, ip: u32) -> bool {
    arp_is_cached(log, ip) || log.len() < capacity
}

/// What a log of capacity `capacity` becomes when the entry of `ip` with
/// `mac` is handed to it.
pub open spec fn arp_insert(log: Seq<IpMacMap>, capacity: nat, ip: u32, mac: [u8; 6]) -> Seq<
    IpMacMap,
> {
    if arp_is_cached(log, ip) {
        log.update(arp_slot_of(log, ip), IpMacMap { ip, mac })
    } else if log.len() < capacity {
        log.push(IpMacMap { ip, mac })
    } else {
        log
    }
}

/// A bounded table from IPv4 addresses to hardware addresses.
pub struct ArpCache {
    entries: Vec<IpMacMap>,
    capacity: usize,
}

impl View for ArpCache {
    type V = Seq<IpMacMap>;

    /// The entries held, in the order in which they were made.
    closed spec fn view(&self) -> Seq<IpMacMap> {
        self.entries@
    }
}

impl ArpCache {
    #[verifier::type_invariant]
    spec fn inv(&self) -> bool {
        arp_well_formed(self.entries@, self.capacity as nat)
    }

    /// The number of entries that the table was made for.
    pub closed spec fn cap(&self) -> nat {
        self.capacity as nat
    }

    /// An empty table for at most `capacity` entries.
    pub fn new(capacity: usize) -> (table: ArpCache)
        ensures
            table@ == Seq::<IpMacMap>::empty(),
            table.cap() == capacity,
    {
        ArpCache { entries: Vec::new(), capacity }
    }

    /// The number of entries held.
    pub fn len(&self) -> (n: usize)
        ensures
            n == self@.len(),
            n <= self.cap(),
            arp_well_formed(self@, self.cap()),
    {
        proof {
            use_type_invariant(self);
        }
        self.entries.len()
    }

    /// The number of entries that the table was made for.
    pub fn capacity(&self) -> (n: usize)
        ensures
            n == self.cap(),
    {
        self.capacity
    }

    /// The slot that holds the entry of `ip`, if there is one.
    fn find(&self, ip: u32) -> (r: Option<usize>)
        ensures
            arp_well_formed(self@, self.cap()),
            r is Some <==> arp_is_cached(self@, ip),
            r matches Some(i) ==> i == arp_slot_of(self@, ip) && i < self@.len() && self@[i as int].ip
                == ip,
    {
        proof {
            use_type_invariant(self);
        }
        let n = self.entries.len();
        let mut i: usize = 0;
        while i < n
            invariant
                n == self.entries@.len(),
                i <= n,
                arp_well_formed(self@, self.cap()),
                forall|k: int| 0 <= k < i ==> (#[trigger] self.entries@[k]).ip != ip,
            decreases n - i,
        {
            if self.entries[i].ip == ip {
                proof {
                    lemma_arp_slot_unique(self.entries@, ip, i as int);
                }
                return Some(i);
            }
            i += 1;
        }
        None
    }

    /// The hardware address held for `ip`, if there is an entry for it.
    pub fn get(&self, ip: u32) -> (mac: Option<[u8; 6]>)
        ensures
            mac == arp_lookup(self@, ip),
            arp_well_formed(self@, self.cap()),
    {
        match self.find(ip) {
            Some(i) => Some(self.entries[i].mac),
            None => None,
        }
    }

    /// Hands the entry of `ip` with `mac` to the table.
    ///
    /// An entry for an address that has one replaces it in its slot; an entry
    /// for a new address is appended if there is room. Otherwise the table is
    /// left as it is and `TableFull` is returned.
    pub fn insert(&mut self, ip: u32, mac: [u8; 6]) -> (r: Result<(), TableError>)
        ensures
            final(self)@ == arp_insert(old(self)@, old(self).cap(), ip, mac),
            final(self).cap() == old(self).cap(),
            arp_well_formed(final(self)@, final(self).cap()),
            r is Ok <==> arp_takes(old(self)@, old(self).cap(), ip),
            r is Err ==> r == Err::<(), TableError>(TableError::TableFull),
    {
        proof {
            use_type_invariant(&*self);
            lemma_arp_insert_well_formed(self@, self.cap(), ip, mac);
        }
        // The log is taken out while it is changed, so that the table is
        // valid at every step.
        match self.find(ip) {
            Some(i) => {
                let mut entries: Vec<IpMacMap> = Vec::new();
                core::mem::swap(&mut self.entries, &mut entries);
                entries[i] = IpMacMap { ip, mac };
                core::mem::swap(&mut self.entries, &mut entries);
                Ok(())
            },
            None => {
                if self.entries.len() < self.capacity {
                    let mut entries: Vec<IpMacMap> = Vec::new();
                    core::mem::swap(&mut self.entries, &mut entries);
                    entries.push(IpMacMap { ip, mac });
                    core::mem::swap(&mut self.entries, &mut entries);
                    Ok(())
                } else {
                    Err(TableError::TableFull)
                }
            },
        }
    }
}

/// In a log without repeated addresses, the slot that holds the entry of
/// `ip` is the one `arp_slot_of` names.
pub proof fn lemma_arp_slot_unique(log: Seq<IpMacMap>, ip: u32, i: int)
    requires
        distinct_ips(log),
        0 <= i < log.len(),
        log[i].ip == ip,
    ensures
        arp_is_cached(log, ip),
        arp_slot_of(log, ip) == i,
        arp_lookup(log, ip) == Some(log[i].mac),
{
    let j = arp_slot_of(log, ip);
    assert(0 <= j < log.len() && log[j].ip == ip);
    if j < i {
        assert(log[j].ip != log[i].ip);
    }
    if i < j {
        assert(log[i].ip != log[j].ip);
    }
}

/// Handing an entry to a well-formed log leaves it well formed; the log then
/// holds the entry unless it was turned away, and what it holds for every
/// other address is as before.
pub proof fn lemma_arp_insert_well_formed(log: Seq<IpMacMap>, capacity: nat, ip: u32, mac: [u8; 6])
    requires
        arp_well_formed(log, capacity),
    ensures
        arp_well_formed(arp_insert(log, capacity, ip, mac), capacity),
        arp_takes(log, capacity, ip) ==> arp_lookup(arp_insert(log, capacity, ip, mac), ip) == Some(
            mac,
        ),
        !arp_takes(log, capacity, ip) ==> arp_insert(log, capacity, ip, mac) == log,
        forall|other: u32|
            other != ip ==> arp_lookup(arp_insert(log, capacity, ip, mac), other) == arp_lookup(
                log,
                other,
            ),
{
    let after = arp_insert(log, capacity, ip, mac);
    if arp_is_cached(log, ip) {
        let s = arp_slot_of(log, ip);
        assert forall|i: int, j: int| 0 <= i < j < after.len() implies (#[trigger] after[i]).ip != (
        #[trigger] after[j]).ip by {
            assert(log[i].ip != log[j].ip);
        }
        lemma_arp_slot_unique(after, ip, s);
    } else if log.len() < capacity {
        assert forall|i: int, j: int| 0 <= i < j < after.len() implies (#[trigger] after[i]).ip != (
        #[trigger] after[j]).ip by {
            if j < log.len() {
                assert(log[i].ip != log[j].ip);
            } else {
                assert(log[i].ip != ip);
            }
        }
        lemma_arp_slot_unique(after, ip, log.len() as int);
    }
    assert forall|other: u32| other != ip implies arp_lookup(after, other) == arp_lookup(
        log,
        other,
    ) by {
        if arp_is_cached(log, other) {
            let s = arp_slot_of(log, other);
            assert(log[s].ip == other);
            assert(after[s] == log[s]);
            lemma_arp_slot_unique(after, other, s);
        } else if arp_is_cached(after, other) {
            let s = arp_slot_of(after, other);
            assert(after[s].ip == other);
            if s < log.len() {
                assert(log[s].ip == other);
            }
        }
    }
}

} // verus!
