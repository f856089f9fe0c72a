use domain::name::Name;
use domain::record::{
    FamilyName, Record, CLASS_IN, RTYPE_A, RTYPE_AAAA, RTYPE_DS, RTYPE_NS, RTYPE_NSEC,
    RTYPE_RRSIG, RTYPE_SOA,
};
use domain::sign::{rrsig_rdata_canonical, DnskeyRdata, DsRdata, RrsigData, SigningError, SigningKey};
use domain::store::SortedRecords;
use domain::order::CmpRes;

fn name(labels: &[&str]) -> Name {
    Name::new(labels.iter().map(|l| l.as_bytes().to_vec()).collect()).unwrap()
}

fn rec(owner: &[&str], rtype: u16, ttl: u32, rdata: &[u8]) -> Record {
    Record { owner: name(owner), class: CLASS_IN, ttl, rtype, rdata: rdata.to_vec() }
}

struct MockKey {
    sig: Vec<u8>,
    fail: bool,
}

impl SigningKey for MockKey {
    fn algorithm(&self) -> Result<u8, SigningError> {
        if self.fail {
            Err(SigningError { message: String::from("no algorithm") })
        } else {
            Ok(8)
        }
    }

    fn key_tag(&self) -> Result<u16, SigningError> {
        Ok(4242)
    }

    fn sign(&self, _data: &Vec<u8>) -> Result<Vec<u8>, SigningError> {
        Ok(self.sig.clone())
    }

    fn dnskey(&self) -> Result<DnskeyRdata, SigningError> {
        Ok(DnskeyRdata { flags: 256, protocol: 3, algorithm: 8, public_key: vec![1, 2, 3] })
    }

    fn ds(&self, _owner: &Name) -> Result<DsRdata, SigningError> {
        Ok(DsRdata { key_tag: 4242, algorithm: 8, digest_type: 2, digest: vec![9, 9] })
    }
}

fn apex_name() -> FamilyName {
    FamilyName::new(name(&["example"]), CLASS_IN)
}

#[test]
fn name_new_rejects_bad_labels() {
    assert!(Name::new(vec![vec![]]).is_none());
    assert!(Name::new(vec![vec![0u8; 64]]).is_none());
    assert!(Name::new(vec![vec![0u8; 63]]).is_some());
    // 128 one-byte labels take 257 wire bytes, over the 255 limit.
    assert!(Name::new(vec![vec![b'a']; 128]).is_none());
    assert!(Name::new(vec![]).is_some());
}

#[test]
fn name_comparison_is_case_insensitive() {
    let a = name(&["WWW", "Example"]);
    let b = name(&["www", "example"]);
    assert!(a.name_eq(&b));
    assert!(matches!(a.canonical_cmp(&b), CmpRes::Eq));
    let c = name(&["mail", "example"]);
    // label-by-label from the root: "mail" < "www" under the second label.
    assert!(matches!(c.canonical_cmp(&a), CmpRes::Lt));
}

#[test]
fn name_orders_from_the_root() {
    // "z.a" before "a.b": the root-side labels decide.
    let za = name(&["z", "a"]);
    let ab = name(&["a", "b"]);
    assert!(matches!(za.canonical_cmp(&ab), CmpRes::Lt));
}

#[test]
fn ends_with_descendants() {
    let base = name(&["example"]);
    assert!(name(&["example"]).ends_with(&base));
    assert!(name(&["www", "ExAmPlE"]).ends_with(&base));
    assert!(!name(&["elpmaxe"]).ends_with(&base));
    assert!(!name(&["example", "org"]).ends_with(&base));
}

#[test]
fn rrsig_label_count_wildcard() {
    assert_eq!(name(&["www", "example"]).rrsig_label_count(), 2);
    assert_eq!(name(&["*", "example"]).rrsig_label_count(), 1);
    assert_eq!(name(&["example"]).rrsig_label_count(), 1);
}

#[test]
fn insert_duplicate_rejected() {
    let mut store = SortedRecords::new();
    assert!(store.insert(rec(&["example"], RTYPE_A, 300, &[1, 2, 3, 4])).is_ok());
    // Canonically equal: owner differs only in case, TTL differs; both are
    // ignored by the canonical order over (owner, type, rdata).
    let dup = rec(&["EXAMPLE"], RTYPE_A, 999, &[1, 2, 3, 4]);
    let r = store.insert(dup);
    assert!(r.is_err());
    let back = r.unwrap_err();
    assert!(back.owner.name_eq(&name(&["EXAMPLE"])));
    assert_eq!(back.ttl, 999);
    assert_eq!(store.len(), 1);
    assert_eq!(store.record_at(0).ttl, 300);
}

#[test]
fn insert_keeps_canonical_order() {
    let mut store = SortedRecords::new();
    store.insert(rec(&["b", "example"], RTYPE_A, 60, &[4])).unwrap();
    store.insert(rec(&["example"], RTYPE_SOA, 60, &[0])).unwrap();
    store.insert(rec(&["a", "example"], RTYPE_AAAA, 60, &[6])).unwrap();
    store.insert(rec(&["a", "example"], RTYPE_A, 60, &[5])).unwrap();
    // Ascending: example < a.example < b.example; within a.example A < AAAA.
    assert!(store.record_at(0).owner.name_eq(&name(&["example"])));
    assert!(store.record_at(1).owner.name_eq(&name(&["a", "example"])));
    assert_eq!(store.record_at(1).rtype, RTYPE_A);
    assert_eq!(store.record_at(2).rtype, RTYPE_AAAA);
    assert!(store.record_at(3).owner.name_eq(&name(&["b", "example"])));
    for i in 0..store.len() - 1 {
        assert!(matches!(
            store.record_at(i).canonical_cmp(store.record_at(i + 1)),
            CmpRes::Lt
        ));
    }
}

#[test]
fn families_and_rrsets_ascend() {
    let mut store = SortedRecords::new();
    store.insert(rec(&["b", "example"], RTYPE_A, 60, &[4])).unwrap();
    store.insert(rec(&["example"], RTYPE_SOA, 60, &[0])).unwrap();
    store.insert(rec(&["a", "example"], RTYPE_AAAA, 60, &[6])).unwrap();
    store.insert(rec(&["a", "example"], RTYPE_A, 60, &[5])).unwrap();
    let mut fams = store.families();
    let mut owners: Vec<Name> = Vec::new();
    while let Some(f) = fams.next() {
        owners.push(f.owner().clone());
    }
    assert_eq!(owners.len(), 3);
    for w in owners.windows(2) {
        assert!(!matches!(w[0].canonical_cmp(&w[1]), CmpRes::Gt));
    }
    let mut sets = store.rrsets();
    let mut n = 0;
    while let Some(rr) = sets.next() {
        n += 1;
        let _ = rr.rtype();
    }
    assert_eq!(n, 4);
}

#[test]
fn find_soa_first_match() {
    let mut store = SortedRecords::new();
    store.insert(rec(&["example"], RTYPE_SOA, 60, &[0])).unwrap();
    store.insert(rec(&["example"], RTYPE_A, 60, &[1])).unwrap();
    let soa = store.find_soa().unwrap();
    assert_eq!(soa.rtype(), RTYPE_SOA);
    assert!(soa.owner().name_eq(&name(&["example"])));

    let mut none = SortedRecords::new();
    none.insert(rec(&["example"], RTYPE_A, 60, &[1])).unwrap();
    assert!(none.find_soa().is_none());
}

#[test]
fn skip_before_stops_at_apex() {
    let mut store = SortedRecords::new();
    // "aaa" sorts before "example" under the canonical order.
    store.insert(rec(&["aaa"], RTYPE_A, 60, &[1])).unwrap();
    store.insert(rec(&["example"], RTYPE_SOA, 60, &[0])).unwrap();
    let mut it = store.families();
    it.skip_before(&apex_name());
    let fam = it.next().unwrap();
    assert!(fam.owner().name_eq(&name(&["example"])));
}

#[test]
fn skip_before_apex_already_first() {
    let mut store = SortedRecords::new();
    store.insert(rec(&["example"], RTYPE_SOA, 60, &[0])).unwrap();
    store.insert(rec(&["www", "example"], RTYPE_A, 60, &[1])).unwrap();
    let mut it = store.families();
    it.skip_before(&apex_name());
    assert_eq!(it.pos, 0);
    let fam = it.next().unwrap();
    assert!(fam.owner().name_eq(&name(&["example"])));
}

#[test]
fn zone_cut_exclusion() {
    let mut store = SortedRecords::new();
    store.insert(rec(&["example"], RTYPE_SOA, 60, &[0])).unwrap();
    store.insert(rec(&["example"], RTYPE_NS, 60, &[2])).unwrap();
    store.insert(rec(&["sub", "example"], RTYPE_NS, 60, &[3])).unwrap();
    store.insert(rec(&["sub", "example"], RTYPE_DS, 60, &[7])).unwrap();
    store.insert(rec(&["host", "sub", "example"], RTYPE_A, 60, &[1, 2, 3, 4])).unwrap();
    let key = MockKey { sig: vec![0xAB], fail: false };
    let sigs = store.sign(&apex_name(), 2000, 1000, key).unwrap();
    // No RRSIG covers the delegation's NS or anything below the cut; the
    // DS at the cut is covered, as are the apex rrsets.
    assert!(sigs.iter().all(|r| r.data.type_covered != RTYPE_A));
    assert!(sigs
        .iter()
        .all(|r| !(r.data.type_covered == RTYPE_NS && r.owner.name_eq(&name(&["sub", "example"])))));
    assert!(sigs
        .iter()
        .any(|r| r.data.type_covered == RTYPE_DS && r.owner.name_eq(&name(&["sub", "example"]))));
    assert!(sigs
        .iter()
        .any(|r| r.data.type_covered == RTYPE_NS && r.owner.name_eq(&name(&["example"]))));
    // Three eligible rrsets in all: SOA and NS at the apex, DS at the cut.
    assert_eq!(sigs.len(), 3);
    for r in &sigs {
        assert_eq!(r.data.expiration, 2000);
        assert_eq!(r.data.inception, 1000);
        assert_eq!(r.data.key_tag, 4242);
        assert_eq!(r.data.algorithm, 8);
        assert!(r.data.signer_name.name_eq(&name(&["example"])));
        assert_eq!(r.data.signature, vec![0xAB]);
    }
}

#[test]
fn signing_never_covers_existing_rrsigs() {
    let mut store = SortedRecords::new();
    store.insert(rec(&["example"], RTYPE_SOA, 60, &[0])).unwrap();
    store.insert(rec(&["example"], RTYPE_RRSIG, 60, &[9])).unwrap();
    let key = MockKey { sig: vec![1], fail: false };
    let sigs = store.sign(&apex_name(), 2000, 1000, key).unwrap();
    assert_eq!(sigs.len(), 1);
    assert_eq!(sigs[0].data.type_covered, RTYPE_SOA);
}

#[test]
fn signing_failure_aborts() {
    let mut store = SortedRecords::new();
    store.insert(rec(&["example"], RTYPE_SOA, 60, &[0])).unwrap();
    let key = MockKey { sig: vec![], fail: true };
    let r = store.sign(&apex_name(), 2000, 1000, key);
    assert!(r.is_err());
    assert_eq!(r.unwrap_err().message, "no algorithm");
}

#[test]
fn signing_is_deterministic() {
    let mut store = SortedRecords::new();
    store.insert(rec(&["example"], RTYPE_SOA, 60, &[0])).unwrap();
    store.insert(rec(&["www", "example"], RTYPE_A, 120, &[10, 0, 0, 1])).unwrap();
    let one = store.sign(&apex_name(), 2000, 1000, MockKey { sig: vec![7, 7], fail: false });
    let two = store.sign(&apex_name(), 2000, 1000, MockKey { sig: vec![7, 7], fail: false });
    let one = one.unwrap();
    let two = two.unwrap();
    assert_eq!(one.len(), two.len());
    for (x, y) in one.iter().zip(two.iter()) {
        assert_eq!(rrsig_rdata_canonical(&x.data), rrsig_rdata_canonical(&y.data));
    }
}

#[test]
fn rrsig_rdata_exact_bytes() {
    let d = RrsigData {
        type_covered: RTYPE_SOA,
        algorithm: 8,
        labels: 1,
        original_ttl: 60,
        expiration: 0x01020304,
        inception: 0x0A0B0C0D,
        key_tag: 4242,
        signer_name: name(&["eXample"]),
        signature: vec![0xFF, 0xEE],
    };
    let bytes = rrsig_rdata_canonical(&d);
    let mut expect = vec![0, 6, 8, 1, 0, 0, 0, 60, 1, 2, 3, 4, 0x0A, 0x0B, 0x0C, 0x0D];
    expect.extend_from_slice(&4242u16.to_be_bytes());
    expect.extend_from_slice(&[7]);
    expect.extend_from_slice(b"example");
    expect.push(0);
    expect.extend_from_slice(&[0xFF, 0xEE]);
    assert_eq!(bytes, expect);
}

#[test]
fn signing_input_exact_bytes() {
    let mut store = SortedRecords::new();
    store.insert(rec(&["example"], RTYPE_A, 60, &[10, 0, 0, 1])).unwrap();
    let mut it = store.families();
    let fam = it.next().unwrap();
    let apex = apex_name();
    let buf = domain::sign::rrsig_signing_input(
        fam.records,
        0,
        1,
        fam.owner(),
        apex.owner(),
        8,
        4242,
        2000,
        1000,
    );
    let mut expect: Vec<u8> = Vec::new();
    expect.extend_from_slice(&RTYPE_A.to_be_bytes());
    expect.push(8); // algorithm
    expect.push(1); // labels
    expect.extend_from_slice(&60u32.to_be_bytes());
    expect.extend_from_slice(&2000u32.to_be_bytes());
    expect.extend_from_slice(&1000u32.to_be_bytes());
    expect.extend_from_slice(&4242u16.to_be_bytes());
    expect.extend_from_slice(&[7]);
    expect.extend_from_slice(b"example");
    expect.push(0);
    // the one member record, canonical form
    expect.extend_from_slice(&[7]);
    expect.extend_from_slice(b"example");
    expect.push(0);
    expect.extend_from_slice(&RTYPE_A.to_be_bytes());
    expect.extend_from_slice(&CLASS_IN.to_be_bytes());
    expect.extend_from_slice(&60u32.to_be_bytes());
    expect.extend_from_slice(&4u16.to_be_bytes());
    expect.extend_from_slice(&[10, 0, 0, 1]);
    assert_eq!(buf, expect);
}

#[test]
fn dnskey_and_ds_helpers() {
    let apex = apex_name();
    let dk = apex.dnskey(300, MockKey { sig: vec![], fail: false }).unwrap();
    assert!(dk.owner.name_eq(&name(&["example"])));
    assert_eq!(dk.ttl, 300);
    assert_eq!(dk.data.public_key, vec![1, 2, 3]);
    let ds = apex.ds(300, MockKey { sig: vec![], fail: false }).unwrap();
    assert_eq!(ds.data.digest, vec![9, 9]);
    assert_eq!(ds.class, CLASS_IN);
}

#[test]
fn sign_of_nothing_eligible_succeeds() {
    // With no eligible rrset the capability is never consulted, so even a
    // failing key yields an (empty) success.
    let store = SortedRecords::new();
    let r = store.sign(&apex_name(), 2000, 1000, MockKey { sig: vec![], fail: true });
    assert!(r.unwrap().is_empty());
}

#[test]
fn extend_from_adds_and_drops_duplicates() {
    let mut store = SortedRecords::new();
    store.insert(rec(&["example"], RTYPE_SOA, 60, &[0])).unwrap();
    store.extend_from(vec![
        rec(&["b", "example"], RTYPE_A, 60, &[2]),
        rec(&["EXAMPLE"], RTYPE_SOA, 99, &[0]),
        rec(&["a", "example"], RTYPE_A, 60, &[1]),
        rec(&["a", "example"], RTYPE_A, 60, &[1]),
    ]);
    // The duplicate SOA and the repeated A record are dropped; what was
    // stored stays as it was.
    assert_eq!(store.len(), 3);
    assert_eq!(store.record_at(0).ttl, 60);
    assert!(store.record_at(0).owner.name_eq(&name(&["example"])));
    assert!(store.record_at(1).owner.name_eq(&name(&["a", "example"])));
    assert!(store.record_at(2).owner.name_eq(&name(&["b", "example"])));
}

#[test]
fn from_vec_sorts_and_dedups() {
    let records = vec![
        rec(&["b", "example"], RTYPE_A, 60, &[2]),
        rec(&["a", "example"], RTYPE_A, 60, &[1]),
        rec(&["A", "example"], RTYPE_A, 999, &[1]),
    ];
    let store = SortedRecords::from_vec(records);
    assert_eq!(store.len(), 2);
    assert!(store.record_at(0).owner.name_eq(&name(&["a", "example"])));
    assert_eq!(store.record_at(0).ttl, 60);
}
