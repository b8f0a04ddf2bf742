//! The table of trusted bindings between hardware and IPv4 addresses.
//!
//! The table is a log of bindings in the order in which they were learned,
//! with a capacity fixed when it is made. It holds at most one binding for a
//! hardware address: a new binding for an address that is already bound takes
//! the place of the old one, in the old one's slot. A binding for a new
//! address is appended while there is room; once the table is full it is
//! turned away and every slot keeps what it holds.

use vstd::prelude::*;
use crate::packet::mac_eq;

verus! {

/// A binding: this hardware address was seen to lease this IPv4 address.
#[derive(Clone, Copy, Debug, PartialEq, Eq)]
pub struct IpMac {
    /// Hardware address of the client.
    pub mac: [u8; 6],
    /// The address leased, as a number in host order.
    pub ip: u32,
}

/// The notice of a newly learned binding, as handed to whoever listens.
#[derive(Clone, Copy, Debug, PartialEq, Eq)]
pub struct KeyValue {
    /// Hardware address of the client.
    pub key: [u8; 6],
    /// The address leased, as a number in host order.
    pub value: u32,
}

/// Why a binding was not recorded.
#[derive(Clone, Copy, Debug, PartialEq, Eq, Structural)]
pub enum TableError {
    /// The table holds as many bindings as it was made for, none of them for
    /// this hardware address.
    TableFull,
}

/// Whether no hardware address occurs twice in `log`.
pub open spec fn distinct_macs(log: Seq<IpMac>) -> bool {
    forall|i: int, j: int| 0 <= i < j < log.len() ==> (#[trigger] log[i]).mac != (#[trigger] log[j]).mac
}

/// Whether `log` is a valid content for a table of capacity `capacity`.
pub open spec fn well_formed(log: Seq<IpMac>, capacity: nat) -> bool {
    log.len() <= capacity && distinct_macs(log)
}

/// Whether `log` holds a binding for `mac`.
pub open spec fn is_bound(log: Seq<IpMac>, mac: [u8; 6]) -> bool {
    exists|i: int| 0 <= i < log.len() && (#[trigger] log[i]).mac == mac
}

/// A slot of `log` that holds a binding for `mac`; the only one where `log`
/// is well formed.
pub open spec fn slot_of(log: Seq<IpMac>, mac: [u8; 6]) -> int {
    choose|i: int| 0 <= i < log.len() && (#[trigger] log[i]).mac == mac
}

/// The address that `log` binds to `mac`, if any.
pub open spec fn lookup(log: Seq<IpMac>, mac: [u8; 6]) -> Option<u32> {
    if is_bound(log, mac) {
        Some(log[slot_of(log, mac)].ip)
    } else {
        None
    }
}

/// What a log of capacity `capacity` becomes when the binding of `mac` to
/// `ip` is handed to it.
pub open spec fn insert(log: Seq<IpMac>, capacity: nat, mac: [u8; 6], ip: u32) -> Seq<IpMac> {
    if is_bound(log, mac) {
        log.update(slot_of(log, mac), IpMac { mac, ip })
    } else if log.len() < capacity {
        log.push(IpMac { mac, ip })
    } else {
        log
    }
}

/// The table of bindings.
pub struct BindingTable {
    entries: Vec<IpMac>,
    capacity: usize,
}

impl View for BindingTable {
    type V = Seq<IpMac>;

    /// The bindings held, in the order in which they were learned.
    closed spec fn view(&self) -> Seq<IpMac> {
        self.entries@
    }
}

impl BindingTable {
    #[verifier::type_invariant]
    spec fn inv(&self) -> bool {
        well_formed(self.entries@, self.capacity as nat)
    }

    /// The number of bindings that the table was made for.
    pub closed spec fn cap(&self) -> nat {
        self.capacity as nat
    }

    /// An empty table for at most `capacity` bindings.
    pub fn new(capacity: usize) -> (table: BindingTable)
        ensures
            table@ == Seq::<IpMac>::empty(),
            table.cap() == capacity,
    {
        BindingTable { entries: Vec::new(), capacity }
    }

    /// The number of bindings held.
    pub fn len(&self) -> (n: usize)
        ensures
            n == self@.len(),
            n <= self.cap(),
            well_formed(self@, self.cap()),
    {
        proof {
            use_type_invariant(self);
        }
        self.entries.len()
    }

    /// The number of bindings that the table was made for.
    pub fn capacity(&self) -> (n: usize)
        ensures
            n == self.cap(),
    {
        self.capacity
    }

    /// The binding in slot `index`, if the log reaches that far.
    pub fn entry(&self, index: usize) -> (e: Option<IpMac>)
        ensures
            e == if index < self@.len() {
                Some(self@[index as int])
            } else {
                None
            },
    {
        if index < self.entries.len() {
            Some(self.entries[index])
        } else {
            None
        }
    }

    /// The slot that holds the binding of `mac`, if there is one.
    fn find(&self, mac: &[u8; 6]) -> (r: Option<usize>)
        ensures
            well_formed(self@, self.cap()),
            r is Some <==> is_bound(self@, *mac),
            r matches Some(i) ==> i == slot_of(self@, *mac) && i < self@.len() && self@[i as int].mac
                == *mac,
    {
        proof {
            use_type_invariant(self);
        }
        let n = self.entries.len();
        let mut i: usize = 0;
        while i < n
            invariant
                n == self.entries@.len(),
                i <= n,
                well_formed(self@, self.cap()),
                forall|k: int| 0 <= k < i ==> (#[trigger] self.entries@[k]).mac != *mac,
            decreases n - i,
        {
            if mac_eq(&self.entries[i].mac, mac) {
                proof {
                    lemma_slot_unique(self.entries@, *mac, i as int);
                }
                return Some(i);
            }
            i += 1;
        }
        None
    }
}

/// In a log without repeated hardware addresses, the slot that holds the
/// binding of `mac` is the one `slot_of` names.
pub proof fn lemma_slot_unique(log: Seq<IpMac>, mac: [u8; 6], i: int)
    requires
        distinct_macs(log),
        0 <= i < log.len(),
        log[i].mac == mac,
    ensures
        is_bound(log, mac),
        slot_of(log, mac) == i,
        lookup(log, mac) == Some(log[i].ip),
{
    let j = slot_of(log, mac);
    assert(0 <= j < log.len() && log[j].mac == mac);
    if j < i {
        assert(log[j].mac != log[i].mac);
    }
    if i < j {
        assert(log[i].mac != log[j].mac);
    }
}

/// Whether the table holds a binding for `mac`.
pub fn ipmac_exists(table: &BindingTable, mac: [u8; 6]) -> (found: bool)
    ensures
        found == is_bound(table@, mac),
{
    table.find(&mac).is_some()
}

/// The address bound to `mac`, if the table holds a binding for it.
pub fn ipmac_get(table: &BindingTable, mac: [u8; 6]) -> (ip: Option<u32>)
    ensures
        ip == lookup(table@, mac),
{
    match table.find(&mac) {
        Some(i) => Some(table.entries[i].ip),
        None => None,
    }
}

/// Hands the binding of `mac` to `ip` to the table.
///
/// A binding for an address already bound replaces the old one in its slot;
/// a binding for a new address is appended if there is room. Otherwise the
/// table is left as it is and `TableFull` is returned.
pub fn ipmac_insert(table: &mut BindingTable, mac: [u8; 6], ip: u32) -> (r: Result<(), TableError>)
    ensures
        final(table)@ == insert(old(table)@, old(table).cap(), mac, ip),
        final(table).cap() == old(table).cap(),
        well_formed(final(table)@, final(table).cap()),
        r is Ok <==> is_bound(old(table)@, mac) || old(table)@.len() < old(table).cap(),
        r is Err ==> r == Err::<(), TableError>(TableError::TableFull),
{
    proof {
        use_type_invariant(&*table);
        lemma_insert_well_formed(table@, table.cap(), mac, ip);
    }
    // The log is taken out while it is changed, so that the table is valid
    // at every step.
    match table.find(&mac) {
        Some(i) => {
            let mut entries: Vec<IpMac> = Vec::new();
            core::mem::swap(&mut table.entries, &mut entries);
            entries[i] = IpMac { mac, ip };
            core::mem::swap(&mut table.entries, &mut entries);
            Ok(())
        },
        None => {
            if table.entries.len() < table.capacity {
                let mut entries: Vec<IpMac> = Vec::new();
                core::mem::swap(&mut table.entries, &mut entries);
                entries.push(IpMac { mac, ip });
                core::mem::swap(&mut table.entries, &mut entries);
                Ok(())
            } else {
                Err(TableError::TableFull)
            }
        },
    }
}

/// Handing a binding to a well-formed log leaves it well formed, and the log
/// then binds the address unless the binding was turned away.
pub proof fn lemma_insert_well_formed(log: Seq<IpMac>, capacity: nat, mac: [u8; 6], ip: u32)
    requires
        well_formed(log, capacity),
    ensures
        well_formed(insert(log, capacity, mac, ip), capacity),
        is_bound(log, mac) || log.len() < capacity ==> lookup(insert(log, capacity, mac, ip), mac)
            == Some(ip),
        !is_bound(log, mac) && log.len() >= capacity ==> insert(log, capacity, mac, ip) == log,
{
    let after = insert(log, capacity, mac, ip);
    if is_bound(log, mac) {
        let s = slot_of(log, mac);
        assert forall|i: int, j: int| 0 <= i < j < after.len() implies (#[trigger] after[i]).mac != (
        #[trigger] after[j]).mac by {
            assert(log[i].mac != log[j].mac);
        }
        lemma_slot_unique(after, mac, s);
    } else if log.len() < capacity {
        assert forall|i: int, j: int| 0 <= i < j < after.len() implies (#[trigger] after[i]).mac != (
        #[trigger] after[j]).mac by {
            if j < log.len() {
                assert(log[i].mac != log[j].mac);
            } else {
                assert(log[i].mac != mac);
            }
        }
        lemma_slot_unique(after, mac, log.len() as int);
    }
}

/// Handing the same binding to the table twice changes nothing the second
/// time: the table keeps its size and the address stored for the hardware
/// address stays the same.
pub proof fn lemma_insert_idempotent(log: Seq<IpMac>, capacity: nat, mac: [u8; 6], ip: u32)
    requires
        well_formed(log, capacity),
    ensures
        ({
            let once = insert(log, capacity, mac, ip);
            let twice = insert(once, capacity, mac, ip);
            &&& twice == once
            &&& twice.len() == once.len()
            &&& lookup(twice, mac) == lookup(once, mac)
        }),
{
    let once = insert(log, capacity, mac, ip);
    lemma_insert_well_formed(log, capacity, mac, ip);
    if is_bound(log, mac) || log.len() < capacity {
        assert(lookup(once, mac) == Some(ip));
        assert(is_bound(once, mac));
        let s = slot_of(once, mac);
        assert(once[s].mac == mac);
        assert(once[s].ip == ip);
        assert(once.update(s, IpMac { mac, ip }) =~= once);
    } else {
        assert(once == log);
    }
}

/// Whatever is handed to the table, it never grows beyond its capacity and
/// no binding of another hardware address is touched: every slot keeps its
/// binding unless that binding was for `mac`, in which case the slot now
/// holds the new binding. A full table turns a new hardware address away and
/// stays exactly as it was.
pub proof fn lemma_insert_keeps_prior_entries(
    log: Seq<IpMac>,
    capacity: nat,
    mac: [u8; 6],
    ip: u32,
)
    requires
        well_formed(log, capacity),
    ensures
        ({
            let after = insert(log, capacity, mac, ip);
            &&& log.len() <= after.len() <= capacity
            &&& forall|k: int|
                0 <= k < log.len() ==> #[trigger] after[k] == log[k] || (log[k].mac == mac
                    && after[k] == IpMac { mac, ip })
            &&& forall|other: [u8; 6]| other != mac ==> lookup(after, other) == lookup(log, other)
            &&& log.len() == capacity && !is_bound(log, mac) ==> after == log
        }),
{
    let after = insert(log, capacity, mac, ip);
    lemma_insert_well_formed(log, capacity, mac, ip);
    assert forall|other: [u8; 6]| other != mac implies lookup(after, other) == lookup(
        log,
        other,
    ) by {
        if is_bound(log, other) {
            let s = slot_of(log, other);
            assert(log[s].mac == other);
            assert(after[s] == log[s]);
            lemma_slot_unique(after, other, s);
        } else if is_bound(after, other) {
            let s = slot_of(after, other);
            assert(after[s].mac == other);
            if s < log.len() {
                assert(log[s].mac == other);
            }
        }
    }
}

} // verus!
