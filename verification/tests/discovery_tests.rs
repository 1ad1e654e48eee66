use escl::{DiscoverError, DnsRecord, Ipv4Octets, RecordKind};
use escl::discovery::correlate;

fn ptr(name: &str, target: &str) -> DnsRecord {
    DnsRecord { name: name.to_owned(), kind: RecordKind::Ptr(target.to_owned()) }
}

fn txt(name: &str, items: &[&str]) -> DnsRecord {
    DnsRecord {
        name: name.to_owned(),
        kind: RecordKind::Txt(items.iter().map(|s| (*s).to_owned()).collect()),
    }
}

fn srv(name: &str, target: &str, port: u16) -> DnsRecord {
    DnsRecord {
        name: name.to_owned(),
        kind: RecordKind::Srv { target: target.to_owned(), port },
    }
}

fn a(name: &str, ip: (u8, u8, u8, u8)) -> DnsRecord {
    DnsRecord {
        name: name.to_owned(),
        kind: RecordKind::A(Ipv4Octets { a: ip.0, b: ip.1, c: ip.2, d: ip.3 }),
    }
}

#[test]
fn test_discover_zero_records_is_empty_not_error() {
    let services = correlate(&Vec::new());
    assert!(services.is_empty());
}

#[test]
fn test_full_correlation() {
    let records = vec![
        ptr("_uscan._tcp.local", "Example MFC._uscan._tcp.local"),
        txt(
            "Example MFC._uscan._tcp.local",
            &["txtvers=1", "rs=eSCL", "ty=Example MFC-J497DW", "pdl=image/jpeg"],
        ),
        srv("Example MFC._uscan._tcp.local", "EXAMPLE.local", 8080),
        a("EXAMPLE.local", (192, 168, 7, 3)),
    ];
    let services = correlate(&records);
    assert_eq!(services.len(), 1);
    assert_eq!(services[0].url(), "http://192.168.7.3:8080/eSCL");
    assert_eq!(services[0].name(), "Example MFC-J497DW");
}

#[test]
fn test_correlation_order_does_not_matter() {
    let records = vec![
        a("EXAMPLE.local", (192, 168, 7, 3)),
        srv("Example MFC._uscan._tcp.local", "EXAMPLE.local", 80),
        ptr("_uscan._tcp.local", "Example MFC._uscan._tcp.local"),
        txt("Example MFC._uscan._tcp.local", &["rs=eSCL", "ty=Example"]),
    ];
    let services = correlate(&records);
    assert_eq!(services.len(), 1);
    assert_eq!(services[0].url(), "http://192.168.7.3/eSCL");
}

#[test]
fn test_incomplete_announcements_are_omitted() {
    // pointer without a text record
    let no_txt = vec![
        ptr("_uscan._tcp.local", "x._uscan._tcp.local"),
        srv("x._uscan._tcp.local", "h.local", 80),
        a("h.local", (10, 0, 0, 1)),
    ];
    assert!(correlate(&no_txt).is_empty());
    // text record missing the path-prefix key
    let no_rs = vec![
        ptr("_uscan._tcp.local", "x._uscan._tcp.local"),
        txt("x._uscan._tcp.local", &["ty=Example"]),
        srv("x._uscan._tcp.local", "h.local", 80),
        a("h.local", (10, 0, 0, 1)),
    ];
    assert!(correlate(&no_rs).is_empty());
    // no service record
    let no_srv = vec![
        ptr("_uscan._tcp.local", "x._uscan._tcp.local"),
        txt("x._uscan._tcp.local", &["rs=eSCL", "ty=Example"]),
        a("h.local", (10, 0, 0, 1)),
    ];
    assert!(correlate(&no_srv).is_empty());
    // no address record for the service host
    let no_a = vec![
        ptr("_uscan._tcp.local", "x._uscan._tcp.local"),
        txt("x._uscan._tcp.local", &["rs=eSCL", "ty=Example"]),
        srv("x._uscan._tcp.local", "h.local", 80),
        a("other.local", (10, 0, 0, 1)),
    ];
    assert!(correlate(&no_a).is_empty());
}

#[test]
fn test_two_scanners_in_one_batch() {
    let records = vec![
        ptr("_uscan._tcp.local", "one._uscan._tcp.local"),
        ptr("_uscan._tcp.local", "two._uscan._tcp.local"),
        txt("one._uscan._tcp.local", &["rs=eSCL", "ty=One"]),
        srv("one._uscan._tcp.local", "one.local", 80),
        a("one.local", (10, 0, 0, 1)),
        txt("two._uscan._tcp.local", &["rs=scan", "ty=Two"]),
        srv("two._uscan._tcp.local", "two.local", 8080),
        a("two.local", (10, 0, 0, 2)),
    ];
    let services = correlate(&records);
    assert_eq!(services.len(), 2);
    assert_eq!(services[0].name(), "One");
    assert_eq!(services[0].url(), "http://10.0.0.1/eSCL");
    assert_eq!(services[1].name(), "Two");
    assert_eq!(services[1].url(), "http://10.0.0.2:8080/scan");
}

#[test]
fn test_records_outside_the_service_are_ignored() {
    let records = vec![
        ptr("_ipp._tcp.local", "printer._ipp._tcp.local"),
        txt("printer._ipp._tcp.local", &["rs=ipp", "ty=Printer"]),
        srv("printer._ipp._tcp.local", "p.local", 631),
        a("p.local", (10, 0, 0, 9)),
    ];
    assert!(correlate(&records).is_empty());
}

#[test]
fn test_discover_error_message() {
    let err = DiscoverError::Mdns("socket closed".to_owned());
    assert_eq!(err.message(), "mDNS error: socket closed");
}
