use domain::host::{
    AddrRecord, FoundHosts, HostAddr, HostAnswer, LookupError,
};
use domain::name::Name;

fn name(labels: &[&str]) -> Name {
    Name::new(labels.iter().map(|l| l.as_bytes().to_vec()).collect()).unwrap()
}

fn answer(qname: &[&str], cname: &[&str], records: Vec<AddrRecord>) -> HostAnswer {
    HostAnswer {
        ancount: records.len() as u16,
        qname: name(qname),
        canonical_name: name(cname),
        records,
    }
}

fn err(msg: &str) -> LookupError {
    LookupError { message: String::from(msg) }
}

#[test]
fn found_hosts_new_needs_one_answer() {
    let aaaa = Ok(answer(&["h", "example"], &["h", "example"], vec![]));
    let a = Err(err("timeout"));
    assert!(FoundHosts::new(aaaa, a).is_ok());

    let both = FoundHosts::new(Err(err("first")), Err(err("second")));
    assert_eq!(both.err().unwrap().message, "first");
}

#[test]
fn found_hosts_is_empty() {
    let fh = FoundHosts::new(
        Ok(answer(&["h", "example"], &["h", "example"], vec![])),
        Err(err("x")),
    )
    .unwrap();
    assert!(fh.is_empty());

    let fh = FoundHosts::new(
        Err(err("x")),
        Ok(answer(
            &["h", "example"],
            &["h", "example"],
            vec![AddrRecord { owner: name(&["h", "example"]), addr: HostAddr::V4(0x0A000001) }],
        )),
    )
    .unwrap();
    assert!(!fh.is_empty());
}

#[test]
fn found_hosts_names_come_from_available_answer() {
    let fh = FoundHosts::new(
        Err(err("x")),
        Ok(answer(&["www", "example"], &["host", "example"], vec![])),
    )
    .unwrap();
    assert!(fh.qname().name_eq(&name(&["www", "example"])));
    assert!(fh.canonical_name().name_eq(&name(&["host", "example"])));
}

#[test]
fn iter_yields_v6_then_v4_filtered_by_canonical_name() {
    let cname = ["host", "example"];
    let aaaa = answer(
        &["www", "example"],
        &cname,
        vec![
            AddrRecord { owner: name(&cname), addr: HostAddr::V6(1) },
            AddrRecord { owner: name(&["other", "example"]), addr: HostAddr::V6(2) },
            AddrRecord { owner: name(&["HOST", "example"]), addr: HostAddr::V6(3) },
        ],
    );
    let a = answer(
        &["www", "example"],
        &cname,
        vec![AddrRecord { owner: name(&cname), addr: HostAddr::V4(4) }],
    );
    let fh = FoundHosts::new(Ok(aaaa), Ok(a)).unwrap();
    let mut it = fh.iter();
    assert_eq!(it.next(), Some(HostAddr::V6(1)));
    assert_eq!(it.next(), Some(HostAddr::V6(3)));
    assert_eq!(it.next(), Some(HostAddr::V4(4)));
    assert_eq!(it.next(), None);
    assert_eq!(it.next(), None);
}

#[test]
fn port_iter_attaches_port() {
    let cname = ["host", "example"];
    let a = answer(
        &["www", "example"],
        &cname,
        vec![AddrRecord { owner: name(&cname), addr: HostAddr::V4(7) }],
    );
    let fh = FoundHosts::new(Err(err("x")), Ok(a)).unwrap();
    let mut it = fh.port_iter(53);
    let sa = it.next().unwrap();
    assert_eq!(sa.addr, HostAddr::V4(7));
    assert_eq!(sa.port, 53);
    assert!(it.next().is_none());
}
