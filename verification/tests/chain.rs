use domain::name::Name;
use domain::record::{FamilyName, Record, CLASS_IN, RTYPE_A, RTYPE_AAAA, RTYPE_NS, RTYPE_RRSIG, RTYPE_SOA};
use domain::store::SortedRecords;

fn name(labels: &[&str]) -> Name {
    Name::new(labels.iter().map(|l| l.as_bytes().to_vec()).collect()).unwrap()
}

fn rec(owner: &[&str], rtype: u16, ttl: u32, rdata: &[u8]) -> Record {
    Record { owner: name(owner), class: CLASS_IN, ttl, rtype, rdata: rdata.to_vec() }
}

fn apex_name() -> FamilyName {
    FamilyName::new(name(&["example"]), CLASS_IN)
}

#[test]
fn nsec_ring_closure() {
    let mut store = SortedRecords::new();
    store.insert(rec(&["example"], RTYPE_SOA, 60, &[0])).unwrap();
    store.insert(rec(&["a", "example"], RTYPE_A, 60, &[1])).unwrap();
    store.insert(rec(&["b", "example"], RTYPE_A, 60, &[2])).unwrap();
    let nsecs = store.nsecs(&apex_name(), 300);
    assert_eq!(nsecs.len(), 3);
    assert!(nsecs[0].owner.name_eq(&name(&["example"])));
    assert!(nsecs[0].next_name.name_eq(&name(&["a", "example"])));
    assert!(nsecs[1].owner.name_eq(&name(&["a", "example"])));
    assert!(nsecs[1].next_name.name_eq(&name(&["b", "example"])));
    assert!(nsecs[2].owner.name_eq(&name(&["b", "example"])));
    assert!(nsecs[2].next_name.name_eq(&name(&["example"])));
    assert!(nsecs.iter().all(|r| r.ttl == 300 && r.class == CLASS_IN));
    // Following next-name three times from any record returns to its owner.
    for start in 0..3 {
        let mut cur = start;
        for _ in 0..3 {
            let next = &nsecs[cur].next_name;
            cur = (0..3).find(|&i| nsecs[i].owner.name_eq(next)).unwrap();
        }
        assert_eq!(cur, start);
    }
}

#[test]
fn nsec_single_owner_self_loop() {
    let mut store = SortedRecords::new();
    store.insert(rec(&["example"], RTYPE_SOA, 60, &[0])).unwrap();
    store.insert(rec(&["example"], RTYPE_A, 60, &[1])).unwrap();
    let nsecs = store.nsecs(&apex_name(), 300);
    assert_eq!(nsecs.len(), 1);
    assert!(nsecs[0].owner.name_eq(&name(&["example"])));
    assert!(nsecs[0].next_name.name_eq(&name(&["example"])));
}

#[test]
fn nsec_bitmap_completeness() {
    let mut store = SortedRecords::new();
    store.insert(rec(&["example"], RTYPE_SOA, 60, &[0])).unwrap();
    store.insert(rec(&["h", "example"], RTYPE_A, 60, &[1])).unwrap();
    store.insert(rec(&["h", "example"], RTYPE_A, 60, &[2])).unwrap();
    store.insert(rec(&["h", "example"], RTYPE_AAAA, 60, &[3])).unwrap();
    let nsecs = store.nsecs(&apex_name(), 300);
    assert_eq!(nsecs.len(), 2);
    let h = nsecs
        .iter()
        .find(|r| r.owner.name_eq(&name(&["h", "example"])))
        .unwrap();
    // Exactly {A, AAAA, RRSIG}, ascending, nothing else.
    assert_eq!(h.types, vec![RTYPE_A, RTYPE_AAAA, RTYPE_RRSIG]);
    assert_eq!(nsecs[0].types, vec![RTYPE_SOA, RTYPE_RRSIG]);
}

#[test]
fn nsec_skips_families_below_cut() {
    let mut store = SortedRecords::new();
    store.insert(rec(&["example"], RTYPE_SOA, 60, &[0])).unwrap();
    store.insert(rec(&["sub", "example"], RTYPE_NS, 60, &[3])).unwrap();
    store.insert(rec(&["host", "sub", "example"], RTYPE_A, 60, &[1])).unwrap();
    let nsecs = store.nsecs(&apex_name(), 300);
    // The cut family itself gets an entry; what lies below it does not,
    // and the ring stays closed.
    assert_eq!(nsecs.len(), 2);
    assert!(nsecs[0].owner.name_eq(&name(&["example"])));
    assert!(nsecs[0].next_name.name_eq(&name(&["sub", "example"])));
    assert!(nsecs[1].owner.name_eq(&name(&["sub", "example"])));
    assert!(nsecs[1].next_name.name_eq(&name(&["example"])));
}

#[test]
fn nsec_out_of_zone_ends_walk() {
    let mut store = SortedRecords::new();
    store.insert(rec(&["example"], RTYPE_SOA, 60, &[0])).unwrap();
    store.insert(rec(&["w", "example"], RTYPE_A, 60, &[1])).unwrap();
    // "zzz" sorts after everything under "example" and is out of zone.
    store.insert(rec(&["zzz"], RTYPE_A, 60, &[2])).unwrap();
    let nsecs = store.nsecs(&apex_name(), 300);
    assert_eq!(nsecs.len(), 2);
    assert!(nsecs[1].next_name.name_eq(&name(&["example"])));
}
