use anti_arp_spoof::bindings::{
    ipmac_exists, ipmac_get, ipmac_insert, BindingTable, IpMac, TableError,
};

const M1: [u8; 6] = [0x02, 0x00, 0x00, 0x00, 0x00, 0x01];
const M2: [u8; 6] = [0x02, 0x00, 0x00, 0x00, 0x00, 0x02];
const M3: [u8; 6] = [0x02, 0x00, 0x00, 0x00, 0x00, 0x03];

fn ip(a: u8, b: u8, c: u8, d: u8) -> u32 {
    u32::from_be_bytes([a, b, c, d])
}

fn mac_of(i: usize) -> [u8; 6] {
    [0x02, 0x00, 0x00, 0x00, (i / 256) as u8, (i % 256) as u8]
}

#[test]
fn new_table_is_empty() {
    let table = BindingTable::new(100);
    assert_eq!(table.len(), 0);
    assert_eq!(table.capacity(), 100);
    assert_eq!(table.entry(0), None);
    assert!(!ipmac_exists(&table, M1));
    assert_eq!(ipmac_get(&table, M1), None);
}

#[test]
fn insert_then_get() {
    let mut table = BindingTable::new(100);
    assert_eq!(ipmac_insert(&mut table, M1, ip(192, 0, 2, 10)), Ok(()));
    assert!(ipmac_exists(&table, M1));
    assert!(!ipmac_exists(&table, M2));
    assert_eq!(ipmac_get(&table, M1), Some(0xC000_020A));
    assert_eq!(ipmac_get(&table, M2), None);
    assert_eq!(table.len(), 1);
    assert_eq!(table.entry(0), Some(IpMac { mac: M1, ip: 0xC000_020A }));
    assert_eq!(table.entry(1), None);
}

#[test]
fn inserting_the_same_binding_twice_changes_nothing() {
    let mut table = BindingTable::new(100);
    ipmac_insert(&mut table, M1, ip(192, 0, 2, 10)).unwrap();
    ipmac_insert(&mut table, M2, ip(192, 0, 2, 11)).unwrap();
    let size = table.len();
    let stored = ipmac_get(&table, M1);
    assert_eq!(ipmac_insert(&mut table, M1, ip(192, 0, 2, 10)), Ok(()));
    assert_eq!(table.len(), size);
    assert_eq!(ipmac_get(&table, M1), stored);
    assert_eq!(ipmac_get(&table, M1), Some(ip(192, 0, 2, 10)));
    assert_eq!(table.entry(0), Some(IpMac { mac: M1, ip: ip(192, 0, 2, 10) }));
    assert_eq!(table.entry(1), Some(IpMac { mac: M2, ip: ip(192, 0, 2, 11) }));
}

#[test]
fn new_binding_for_bound_mac_supersedes_in_place() {
    let mut table = BindingTable::new(100);
    ipmac_insert(&mut table, M1, ip(192, 0, 2, 10)).unwrap();
    ipmac_insert(&mut table, M2, ip(192, 0, 2, 11)).unwrap();
    ipmac_insert(&mut table, M3, ip(192, 0, 2, 12)).unwrap();
    assert_eq!(ipmac_insert(&mut table, M2, ip(192, 0, 2, 99)), Ok(()));
    assert_eq!(table.len(), 3);
    assert_eq!(ipmac_get(&table, M2), Some(ip(192, 0, 2, 99)));
    assert_eq!(table.entry(0), Some(IpMac { mac: M1, ip: ip(192, 0, 2, 10) }));
    assert_eq!(table.entry(1), Some(IpMac { mac: M2, ip: ip(192, 0, 2, 99) }));
    assert_eq!(table.entry(2), Some(IpMac { mac: M3, ip: ip(192, 0, 2, 12) }));
}

#[test]
fn full_table_turns_new_mac_away_and_keeps_every_entry() {
    let capacity = 100;
    let mut table = BindingTable::new(capacity);
    for i in 0..capacity {
        assert_eq!(ipmac_insert(&mut table, mac_of(i), 1000 + i as u32), Ok(()));
    }
    assert_eq!(table.len(), capacity);
    for extra in 0..5 {
        assert_eq!(
            ipmac_insert(&mut table, mac_of(capacity + extra), 7),
            Err(TableError::TableFull)
        );
    }
    assert_eq!(table.len(), capacity);
    for i in 0..capacity {
        assert_eq!(table.entry(i), Some(IpMac { mac: mac_of(i), ip: 1000 + i as u32 }));
        assert_eq!(ipmac_get(&table, mac_of(i)), Some(1000 + i as u32));
    }
    assert!(!ipmac_exists(&table, mac_of(capacity)));
}

#[test]
fn full_table_still_takes_binding_for_bound_mac() {
    let mut table = BindingTable::new(2);
    ipmac_insert(&mut table, M1, 1).unwrap();
    ipmac_insert(&mut table, M2, 2).unwrap();
    assert_eq!(ipmac_insert(&mut table, M3, 3), Err(TableError::TableFull));
    assert_eq!(ipmac_insert(&mut table, M1, 9), Ok(()));
    assert_eq!(ipmac_get(&table, M1), Some(9));
    assert_eq!(ipmac_get(&table, M2), Some(2));
    assert_eq!(table.len(), 2);
}

#[test]
fn table_of_capacity_zero_records_nothing() {
    let mut table = BindingTable::new(0);
    assert_eq!(ipmac_insert(&mut table, M1, 1), Err(TableError::TableFull));
    assert_eq!(table.len(), 0);
    assert!(!ipmac_exists(&table, M1));
}

#[test]
fn macs_that_differ_in_one_byte_are_different_keys() {
    let mut table = BindingTable::new(10);
    for byte in 0..6 {
        let mut mac = [0u8; 6];
        mac[byte] = 1;
        ipmac_insert(&mut table, mac, byte as u32).unwrap();
    }
    assert_eq!(table.len(), 6);
    for byte in 0..6 {
        let mut mac = [0u8; 6];
        mac[byte] = 1;
        assert_eq!(ipmac_get(&table, mac), Some(byte as u32));
    }
    assert_eq!(ipmac_get(&table, [0u8; 6]), None);
}
