//! LAN discovery: correlating the resource records of one multicast answer
//! batch into connectable device endpoints.
//!
//! A device is recognized only when a pointer record under the service name,
//! a text record carrying the path-prefix and name keys, a service record
//! giving host and port, and an address record for that host all correlate.
//! A device missing any one of them is silently omitted, never an error.

use vstd::prelude::*;
use crate::urls::parsed_url;
use crate::util::{dec_chars, str_eq, u32_to_string};
use crate::xml::find_char;

verus! {

/// The multicast service name eSCL scanners announce under.
pub open spec fn spec_service_name() -> Seq<char> {
    "_uscan._tcp.local"@
}

/// An IPv4 address as its four octets.
#[derive(Debug, Clone, Copy, PartialEq, Eq, Structural)]
pub struct Ipv4Octets {
    pub a: u8,
    pub b: u8,
    pub c: u8,
    pub d: u8,
}

/// The parts of one DNS resource record that discovery reads.
#[derive(Debug, Clone, PartialEq, Eq)]
pub enum RecordKind {
    /// A pointer to a service instance.
    Ptr(String),
    /// Key=value metadata strings on a service instance.
    Txt(Vec<String>),
    /// The host and port a service instance is reachable at.
    Srv { target: String, port: u16 },
    /// An IPv4 address of a host.
    A(Ipv4Octets),
    /// Any record kind discovery does not read.
    Other,
}

pub ghost enum SpecRecordKind {
    Ptr(Seq<char>),
    Txt(Seq<Seq<char>>),
    Srv { target: Seq<char>, port: u16 },
    A(Ipv4Octets),
    Other,
}

impl View for RecordKind {
    type V = SpecRecordKind;

    open spec fn view(&self) -> SpecRecordKind {
        match self {
            RecordKind::Ptr(t) => SpecRecordKind::Ptr(t@),
            RecordKind::Txt(items) => SpecRecordKind::Txt(items.deep_view()),
            RecordKind::Srv { target, port } => SpecRecordKind::Srv {
                target: target@,
                port: *port,
            },
            RecordKind::A(ip) => SpecRecordKind::A(*ip),
            RecordKind::Other => SpecRecordKind::Other,
        }
    }
}

/// One DNS resource record of an answer batch.
#[derive(Debug, Clone, PartialEq, Eq)]
pub struct DnsRecord {
    pub name: String,
    pub kind: RecordKind,
}

pub ghost struct SpecDnsRecord {
    pub name: Seq<char>,
    pub kind: SpecRecordKind,
}

impl View for DnsRecord {
    type V = SpecDnsRecord;

    open spec fn view(&self) -> SpecDnsRecord {
        SpecDnsRecord { name: self.name@, kind: self.kind@ }
    }
}

impl DeepView for DnsRecord {
    type V = SpecDnsRecord;

    open spec fn deep_view(&self) -> SpecDnsRecord {
        self.view()
    }
}

/// A device endpoint discovery produced: a base address to connect to and a
/// human-readable device name.
#[derive(Debug, Clone, PartialEq, Eq)]
pub struct ScannerService {
    pub base_url: String,
    pub name: String,
}

pub ghost struct SpecScannerService {
    pub base_url: Seq<char>,
    pub name: Seq<char>,
}

impl View for ScannerService {
    type V = SpecScannerService;

    open spec fn view(&self) -> SpecScannerService {
        SpecScannerService { base_url: self.base_url@, name: self.name@ }
    }
}

impl DeepView for ScannerService {
    type V = SpecScannerService;

    open spec fn deep_view(&self) -> SpecScannerService {
        self.view()
    }
}

impl ScannerService {
    /// The base address a [`crate::Scanner`] can be built from.
    pub fn url(&self) -> (r: &str)
        ensures
            r@ == self@.base_url,
    {
        self.base_url.as_str()
    }

    /// The human-readable scanner make and model.
    pub fn name(&self) -> (r: &str)
        ensures
            r@ == self@.name,
    {
        self.name.as_str()
    }
}

/// A failure of the discovery channel itself; an empty result is not one.
#[derive(Debug)]
pub enum DiscoverError {
    /// The multicast listen or query failed; carries the stack's message.
    Mdns(String),
}

impl DiscoverError {
    /// A human-readable description, in place of a `Display` form.
    pub fn message(&self) -> (r: String)
        ensures
            self matches DiscoverError::Mdns(m) ==> r@ == "mDNS error: "@ + m@,
    {
        match self {
            DiscoverError::Mdns(m) => {
                let mut out: String = ("mDNS error: ").to_owned();
                out.append(m.as_str());
                out
            },
        }
    }
}

/// The metadata strings of the first text record on `target`.
pub open spec fn first_txt(rs: Seq<SpecDnsRecord>, target: Seq<char>) -> Option<Seq<Seq<char>>>
    decreases rs.len(),
{
    if rs.len() == 0 {
        None
    } else if rs.first().name == target {
        match rs.first().kind {
            SpecRecordKind::Txt(items) => Some(items),
            _ => first_txt(rs.drop_first(), target),
        }
    } else {
        first_txt(rs.drop_first(), target)
    }
}

/// The host and port of the first service record on `target`.
pub open spec fn first_srv(rs: Seq<SpecDnsRecord>, target: Seq<char>) -> Option<(Seq<char>, u16)>
    decreases rs.len(),
{
    if rs.len() == 0 {
        None
    } else if rs.first().name == target {
        match rs.first().kind {
            SpecRecordKind::Srv { target: host, port } => Some((host, port)),
            _ => first_srv(rs.drop_first(), target),
        }
    } else {
        first_srv(rs.drop_first(), target)
    }
}

/// The first IPv4 address record on `host`.
pub open spec fn first_a(rs: Seq<SpecDnsRecord>, host: Seq<char>) -> Option<Ipv4Octets>
    decreases rs.len(),
{
    if rs.len() == 0 {
        None
    } else if rs.first().name == host {
        match rs.first().kind {
            SpecRecordKind::A(ip) => Some(ip),
            _ => first_a(rs.drop_first(), host),
        }
    } else {
        first_a(rs.drop_first(), host)
    }
}

/// The value of the first `key=value` item with the given key.
pub open spec fn txt_value(items: Seq<Seq<char>>, key: Seq<char>) -> Option<Seq<char>>
    decreases items.len(),
{
    if items.len() == 0 {
        None
    } else {
        let item = items.first();
        match find_char(item, 0, '=') {
            Some(j) => if item.subrange(0, j) == key {
                Some(item.subrange(j + 1, item.len() as int))
            } else {
                txt_value(items.drop_first(), key)
            },
            None => txt_value(items.drop_first(), key),
        }
    }
}

/// The base address built from a resolved address, port and path prefix.
pub open spec fn candidate_url(ip: Ipv4Octets, port: u16, path: Seq<char>) -> Seq<char> {
    "http://"@ + dec_chars(ip.a as int) + seq!['.'] + dec_chars(ip.b as int) + seq!['.']
        + dec_chars(ip.c as int) + seq!['.'] + dec_chars(ip.d as int) + seq![':'] + dec_chars(
        port as int,
    ) + seq!['/'] + path
}

/// The endpoint one pointer target yields, when every required record
/// correlates in the batch and the built address parses.
pub open spec fn scanner_of_ptr(rs: Seq<SpecDnsRecord>, target: Seq<char>) -> Option<
    SpecScannerService,
> {
    match first_txt(rs, target) {
        None => None,
        Some(txt) => match txt_value(txt, "rs"@) {
            None => None,
            Some(path) => match txt_value(txt, "ty"@) {
                None => None,
                Some(ty) => match first_srv(rs, target) {
                    None => None,
                    Some((host, port)) => match first_a(rs, host) {
                        None => None,
                        Some(ip) => match parsed_url(candidate_url(ip, port, path)) {
                            None => None,
                            Some(u) => Some(SpecScannerService { base_url: u, name: ty }),
                        },
                    },
                },
            },
        },
    }
}

/// The endpoints the first `n` records' pointers yield, in record order.
/// Correlation always looks the whole batch up, so a pointer may be served
/// by records before or after it.
pub open spec fn discovered_pre(rs: Seq<SpecDnsRecord>, n: int) -> Seq<SpecScannerService>
    decreases n,
{
    if n <= 0 {
        Seq::empty()
    } else {
        let before = discovered_pre(rs, n - 1);
        if rs[n - 1].name == spec_service_name() {
            match rs[n - 1].kind {
                SpecRecordKind::Ptr(target) => match scanner_of_ptr(rs, target) {
                    None => before,
                    Some(svc) => before.push(svc),
                },
                _ => before,
            }
        } else {
            before
        }
    }
}

/// Every endpoint one answer batch yields: one per pointer record under the
/// service name whose companion records all correlate. A batch with no
/// records, or none that correlate, yields the empty sequence — a valid
/// result, not an error.
pub open spec fn discovered(rs: Seq<SpecDnsRecord>) -> Seq<SpecScannerService> {
    discovered_pre(rs, rs.len() as int)
}

fn find_txt<'a>(records: &'a Vec<DnsRecord>, target: &str) -> (r: Option<&'a Vec<String>>)
    ensures
        match r {
            Some(items) => first_txt(records.deep_view(), target@) == Some(items.deep_view()),
            None => first_txt(records.deep_view(), target@) is None,
        },
{
    let ghost rv = records.deep_view();
    let mut i: usize = 0;
    proof {
        assert(rv.skip(0) =~= rv);
    }
    while i < records.len()
        invariant
            i <= records.len(),
            rv == records.deep_view(),
            rv.len() == records.len(),
            first_txt(rv, target@) == first_txt(rv.skip(i as int), target@),
        decreases records.len() - i,
    {
        proof {
            assert(rv.skip(i as int).first() == rv[i as int]);
            assert(rv[i as int] == records@[i as int]@);
        }
        if str_eq(records[i].name.as_str(), target) {
            match &records[i].kind {
                RecordKind::Txt(items) => {
                    return Some(items);
                },
                _ => {
                },
            }
        }
        proof {
            assert(rv.skip(i as int).drop_first() =~= rv.skip(i as int + 1));
        }
        i += 1;
    }
    proof {
        assert(rv.skip(i as int).len() == 0);
    }
    None
}

fn find_srv<'a>(records: &'a Vec<DnsRecord>, target: &str) -> (r: Option<(&'a String, u16)>)
    ensures
        match r {
            Some((host, port)) => first_srv(records.deep_view(), target@) == Some(
                (host@, port),
            ),
            None => first_srv(records.deep_view(), target@) is None,
        },
{
    let ghost rv = records.deep_view();
    let mut i: usize = 0;
    proof {
        assert(rv.skip(0) =~= rv);
    }
    while i < records.len()
        invariant
            i <= records.len(),
            rv == records.deep_view(),
            rv.len() == records.len(),
            first_srv(rv, target@) == first_srv(rv.skip(i as int), target@),
        decreases records.len() - i,
    {
        proof {
            assert(rv.skip(i as int).first() == rv[i as int]);
            assert(rv[i as int] == records@[i as int]@);
        }
        if str_eq(records[i].name.as_str(), target) {
            match &records[i].kind {
                RecordKind::Srv { target: host, port } => {
                    return Some((host, *port));
                },
                _ => {
                },
            }
        }
        proof {
            assert(rv.skip(i as int).drop_first() =~= rv.skip(i as int + 1));
        }
        i += 1;
    }
    proof {
        assert(rv.skip(i as int).len() == 0);
    }
    None
}

fn find_a(records: &Vec<DnsRecord>, host: &str) -> (r: Option<Ipv4Octets>)
    ensures
        r == first_a(records.deep_view(), host@),
{
    let ghost rv = records.deep_view();
    let mut i: usize = 0;
    proof {
        assert(rv.skip(0) =~= rv);
    }
    while i < records.len()
        invariant
            i <= records.len(),
            rv == records.deep_view(),
            rv.len() == records.len(),
            first_a(rv, host@) == first_a(rv.skip(i as int), host@),
        decreases records.len() - i,
    {
        proof {
            assert(rv.skip(i as int).first() == rv[i as int]);
            assert(rv[i as int] == records@[i as int]@);
        }
        if str_eq(records[i].name.as_str(), host) {
            match &records[i].kind {
                RecordKind::A(ip) => {
                    return Some(*ip);
                },
                _ => {
                },
            }
        }
        proof {
            assert(rv.skip(i as int).drop_first() =~= rv.skip(i as int + 1));
        }
        i += 1;
    }
    proof {
        assert(rv.skip(i as int).len() == 0);
    }
    None
}

fn lookup_txt_value(items: &Vec<String>, key: &str) -> (r: Option<String>)
    ensures
        r.deep_view() == txt_value(items.deep_view(), key@),
{
    let ghost iv = items.deep_view();
    let mut i: usize = 0;
    proof {
        assert(iv.skip(0) =~= iv);
    }
    while i < items.len()
        invariant
            i <= items.len(),
            iv == items.deep_view(),
            iv.len() == items.len(),
            txt_value(iv, key@) == txt_value(iv.skip(i as int), key@),
        decreases items.len() - i,
    {
        proof {
            assert(iv.skip(i as int).first() == iv[i as int]);
            assert(iv[i as int] == items@[i as int]@);
        }
        let item = items[i].as_str();
        let n = item.unicode_len();
        match crate::xml::find_char_x(item, n, 0, '=') {
            Some(j) => {
                let k = item.substring_char(0, j);
                if str_eq(k, key) {
                    let v = item.substring_char(j + 1, n).to_owned();
                    return Some(v);
                }
            },
            None => {
            },
        }
        proof {
            assert(iv.skip(i as int).drop_first() =~= iv.skip(i as int + 1));
        }
        i += 1;
    }
    proof {
        assert(iv.skip(i as int).len() == 0);
    }
    None
}

/// Builds `http://a.b.c.d:port/path`.
fn build_candidate_url(ip: Ipv4Octets, port: u16, path: &str) -> (r: String)
    ensures
        r@ == candidate_url(ip, port, path@),
{
    let mut out: String = ("http://").to_owned();
    out.append(u32_to_string(ip.a as u32).as_str());
    out.append(".");
    out.append(u32_to_string(ip.b as u32).as_str());
    out.append(".");
    out.append(u32_to_string(ip.c as u32).as_str());
    out.append(".");
    out.append(u32_to_string(ip.d as u32).as_str());
    out.append(":");
    out.append(u32_to_string(port as u32).as_str());
    out.append("/");
    out.append(path);
    proof {
        reveal_strlit(".");
        reveal_strlit(":");
        reveal_strlit("/");
        assert("."@ =~= seq!['.']);
        assert(":"@ =~= seq![':']);
        assert("/"@ =~= seq!['/']);
        assert(out@ =~= candidate_url(ip, port, path@));
    }
    out
}

fn resolve_ptr(records: &Vec<DnsRecord>, target: &str) -> (r: Option<ScannerService>)
    ensures
        r.deep_view() == scanner_of_ptr(records.deep_view(), target@),
{
    let txt = match find_txt(records, target) {
        None => {
            return None;
        },
        Some(t) => t,
    };
    let path = match lookup_txt_value(txt, "rs") {
        None => {
            return None;
        },
        Some(p) => p,
    };
    let ty = match lookup_txt_value(txt, "ty") {
        None => {
            return None;
        },
        Some(t) => t,
    };
    let (host, port) = match find_srv(records, target) {
        None => {
            return None;
        },
        Some(hp) => hp,
    };
    let ip = match find_a(records, host.as_str()) {
        None => {
            return None;
        },
        Some(ip) => ip,
    };
    let candidate = build_candidate_url(ip, port, path.as_str());
    match crate::urls::parse_url(candidate.as_str()) {
        None => None,
        Some(u) => Some(ScannerService { base_url: u, name: ty }),
    }
}

/// Correlates one answer batch into device endpoints, as [`discovered`]
/// describes: an empty or uncorrelated batch yields the empty list, never
/// an error.
pub fn correlate(records: &Vec<DnsRecord>) -> (r: Vec<ScannerService>)
    ensures
        r.deep_view() == discovered(records.deep_view()),
{
    let ghost rv = records.deep_view();
    let mut out: Vec<ScannerService> = Vec::new();
    let mut i: usize = 0;
    proof {
        assert(out.deep_view() =~= discovered_pre(rv, 0));
    }
    while i < records.len()
        invariant
            i <= records.len(),
            rv == records.deep_view(),
            rv.len() == records.len(),
            out.deep_view() == discovered_pre(rv, i as int),
        decreases records.len() - i,
    {
        proof {
            assert(rv[i as int] == records@[i as int]@);
        }
        let is_service = str_eq(records[i].name.as_str(), "_uscan._tcp.local");
        if is_service {
            match &records[i].kind {
                RecordKind::Ptr(target) => {
                    match resolve_ptr(records, target.as_str()) {
                        Some(svc) => {
                            let ghost prev = out;
                            out.push(svc);
                            proof {
                                crate::util::lemma_deep_view_push(out, prev, svc);
                            }
                        },
                        None => {
                        },
                    }
                },
                _ => {
                },
            }
        }
        i += 1;
    }
    proof {
        assert(rv.len() as int == records.len() as int);
    }
    out
}

} // verus!
