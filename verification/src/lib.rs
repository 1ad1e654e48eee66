//! Client-side logic for the eSCL network scanning protocol: typed models of
//! the capability, status and settings documents, the XML wire mapping, the
//! scan-job lifecycle rules, and LAN discovery record correlation.
//!
//! Every operation is a single request/response exchange. The functions here
//! build the request addresses and bodies and judge the responses; issuing
//! the HTTP and multicast calls themselves is the caller's part.

use vstd::prelude::*;

pub mod capabilities;
pub mod discovery;
pub mod settings;
pub mod status;
pub mod urls;
pub mod util;
pub mod xml;

pub use discovery::{DiscoverError, DnsRecord, Ipv4Octets, RecordKind, ScannerService};
pub use xml::XmlError;

use crate::urls::{parsed_url, with_segment};

verus! {

/// Errors arising from one protocol exchange with a scanner device.
#[derive(Debug)]
pub enum Error {
    /// The underlying network call failed; carries the transport's message.
    Http(String),
    /// A response body did not parse as XML matching the expected schema.
    Xml(XmlError),
    /// The device answered with a status code outside the operation's
    /// contract; carries the observed code.
    UnexpectedStatusCode(u16),
    /// Job creation succeeded but no usable `Location` header came back:
    /// the device broke the protocol, and the job it may have created is
    /// unusable to the client.
    LocationHeader,
}

pub ghost enum SpecError {
    Http(Seq<char>),
    Xml(xml::XmlError),
    UnexpectedStatusCode(u16),
    LocationHeader,
}

impl View for Error {
    type V = SpecError;

    open spec fn view(&self) -> SpecError {
        match self {
            Error::Http(m) => SpecError::Http(m@),
            Error::Xml(e) => SpecError::Xml(*e),
            Error::UnexpectedStatusCode(c) => SpecError::UnexpectedStatusCode(*c),
            Error::LocationHeader => SpecError::LocationHeader,
        }
    }
}

impl DeepView for Error {
    type V = SpecError;

    open spec fn deep_view(&self) -> SpecError {
        self.view()
    }
}

/// Issues of protocol requests against one device's base address. The base
/// address is set at construction and never changes.
#[derive(Debug)]
pub struct Scanner {
    pub base_url: String,
}

impl View for Scanner {
    type V = Seq<char>;

    open spec fn view(&self) -> Seq<char> {
        self.base_url@
    }
}

/// One outstanding scan operation, identified by the job resource locator
/// the device returned. The locator never changes for the job's lifetime.
#[derive(Debug)]
pub struct ScanJob {
    pub job_url: String,
}

impl View for ScanJob {
    type V = Seq<char>;

    open spec fn view(&self) -> Seq<char> {
        self.job_url@
    }
}

impl DeepView for ScanJob {
    type V = Seq<char>;

    open spec fn deep_view(&self) -> Seq<char> {
        self.view()
    }
}

/// What submitting a scan request comes to, given the response status code
/// and the `Location` header: created exactly on 201, any other code is the
/// protocol failure carrying it, and a 201 without a header that parses as a
/// URL is the distinct missing-location failure.
pub open spec fn spec_submit_outcome(status: u16, location: Option<Seq<char>>) -> Result<
    Seq<char>,
    SpecError,
> {
    if status != 201 {
        Err(SpecError::UnexpectedStatusCode(status))
    } else {
        match location {
            None => Err(SpecError::LocationHeader),
            Some(l) => match parsed_url(l) {
                None => Err(SpecError::LocationHeader),
                Some(u) => Ok(u),
            },
        }
    }
}

/// What one next-document poll comes to, given the response status code and
/// body: 200 delivers the body as one page, 404 is the non-error signal that
/// no further document remains, and any other code is a protocol failure
/// carrying it.
pub open spec fn spec_next_document_outcome(status: u16, body: Seq<u8>) -> Result<
    Option<Seq<u8>>,
    SpecError,
> {
    if status == 404 {
        Ok(None)
    } else if status != 200 {
        Err(SpecError::UnexpectedStatusCode(status))
    } else {
        Ok(Some(body))
    }
}

/// Exhaustion is stable and idempotent: once the device reports no further
/// document, every later poll answered the same way again yields the
/// terminal non-error result, whatever bytes accompany either response.
pub proof fn lemma_exhaustion_idempotent(body1: Seq<u8>, body2: Seq<u8>)
    ensures
        spec_next_document_outcome(404, body1) == Ok::<Option<Seq<u8>>, SpecError>(None),
        spec_next_document_outcome(404, body1) == spec_next_document_outcome(404, body2),
{
}

impl Scanner {
    /// A client for the device at `base_url`, which must already carry the
    /// protocol root segment if the device uses one (for a device whose
    /// status lives at `http://192.168.1.1/eSCL/ScannerStatus`, pass
    /// `http://192.168.1.1/eSCL`).
    pub fn new(base_url: String) -> (r: Scanner)
        ensures
            r@ == base_url@,
    {
        Scanner { base_url }
    }

    /// The address of the device's capability document.
    pub fn capabilities_url(&self) -> (r: Option<String>)
        ensures
            r.deep_view() == with_segment(self@, "ScannerCapabilities"@),
    {
        crate::urls::url_with_segment(self.base_url.as_str(), "ScannerCapabilities")
    }

    /// The address of the device's status document.
    pub fn status_url(&self) -> (r: Option<String>)
        ensures
            r.deep_view() == with_segment(self@, "ScannerStatus"@),
    {
        crate::urls::url_with_segment(self.base_url.as_str(), "ScannerStatus")
    }

    /// The address scan requests are posted to.
    pub fn scan_jobs_url(&self) -> (r: Option<String>)
        ensures
            r.deep_view() == with_segment(self@, "ScanJobs"@),
    {
        crate::urls::url_with_segment(self.base_url.as_str(), "ScanJobs")
    }

    /// Judges the device's answer to a submitted scan request, as
    /// [`spec_submit_outcome`] describes; on success the job handle holds
    /// the parsed `Location` address.
    pub fn submit_outcome(&self, status: u16, location: Option<&str>) -> (r: Result<
        ScanJob,
        Error,
    >)
        ensures
            match r {
                Ok(j) => spec_submit_outcome(status, location.deep_view()) == Ok::<Seq<char>, SpecError>(j@),
                Err(e) => spec_submit_outcome(status, location.deep_view()) == Err::<Seq<char>, SpecError>(e@),
            },
    {
        if status != 201 {
            return Err(Error::UnexpectedStatusCode(status));
        }
        match location {
            None => Err(Error::LocationHeader),
            Some(l) => match crate::urls::parse_url(l) {
                None => Err(Error::LocationHeader),
                Some(u) => Ok(ScanJob { job_url: u }),
            },
        }
    }
}

impl ScanJob {
    /// The job resource locator the device assigned.
    pub fn job_url(&self) -> (r: &str)
        ensures
            r@ == self@,
    {
        self.job_url.as_str()
    }

    /// The address the job's next page is fetched from.
    pub fn next_document_url(&self) -> (r: Option<String>)
        ensures
            r.deep_view() == with_segment(self@, "NextDocument"@),
    {
        crate::urls::url_with_segment(self.job_url.as_str(), "NextDocument")
    }

    /// Judges the device's answer to one next-document poll, as
    /// [`spec_next_document_outcome`] describes. The handle keeps no state:
    /// polling again after exhaustion re-issues the request and again gets
    /// the terminal result, which is not an error.
    pub fn next_document_outcome(status: u16, body: Vec<u8>) -> (r: Result<Option<Vec<u8>>, Error>)
        ensures
            match r {
                Ok(o) => spec_next_document_outcome(status, body@) == Ok::<Option<Seq<u8>>, SpecError>(o.deep_view()),
                Err(e) => spec_next_document_outcome(status, body@) == Err::<Option<Seq<u8>>, SpecError>(e@),
            },
    {
        if status == 404 {
            Ok(None)
        } else if status != 200 {
            Err(Error::UnexpectedStatusCode(status))
        } else {
            proof {
                assert(body.deep_view() =~= body@);
            }
            Ok(Some(body))
        }
    }
}

impl Error {
    /// A human-readable description, in place of a `Display` form.
    pub fn message(&self) -> (r: String)
        ensures
            self matches Error::Http(m) ==> r@ == "http error: "@ + m@,
            self matches Error::Xml(_) ==> r@ == "xml error"@,
            self matches Error::UnexpectedStatusCode(c) ==> r@ == "unexpected http status code "@
                + crate::util::dec_chars(*c as int),
            self is LocationHeader ==> r@ == "missing or invalid `Location` header in response"@,
    {
        match self {
            Error::Http(m) => {
                let mut out: String = ("http error: ").to_owned();
                out.append(m.as_str());
                out
            },
            Error::Xml(_) => ("xml error").to_owned(),
            Error::UnexpectedStatusCode(c) => {
                let mut out: String = ("unexpected http status code ").to_owned();
                out.append(crate::util::u32_to_string(*c as u32).as_str());
                out
            },
            Error::LocationHeader => ("missing or invalid `Location` header in response").to_owned(
            ),
        }
    }
}

impl From<ScannerService> for Scanner {
    /// A client for a discovered device, at the endpoint it advertised.
    fn from(value: ScannerService) -> (r: Scanner) {
        Scanner { base_url: value.base_url }
    }
}

impl vstd::std_specs::convert::FromSpecImpl<ScannerService> for Scanner {
    open spec fn obeys_from_spec() -> bool {
        true
    }

    open spec fn from_spec(value: ScannerService) -> Scanner {
        Scanner { base_url: value.base_url }
    }
}

} // verus!
