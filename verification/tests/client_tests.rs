use escl::{Error, ScanJob, Scanner, ScannerService};

#[test]
fn test_request_addresses() {
    let scanner = Scanner::new("http://192.168.1.1/eSCL".to_owned());
    assert_eq!(
        scanner.capabilities_url().expect("valid base"),
        "http://192.168.1.1/eSCL/ScannerCapabilities"
    );
    assert_eq!(scanner.status_url().expect("valid base"), "http://192.168.1.1/eSCL/ScannerStatus");
    assert_eq!(scanner.scan_jobs_url().expect("valid base"), "http://192.168.1.1/eSCL/ScanJobs");
}

#[test]
fn test_request_addresses_on_unusable_base() {
    let scanner = Scanner::new("mailto:someone".to_owned());
    assert!(scanner.capabilities_url().is_none());
    let scanner = Scanner::new("not a url at all".to_owned());
    assert!(scanner.status_url().is_none());
}

#[test]
fn test_submit_rejects_every_code_but_201() {
    let scanner = Scanner::new("http://192.168.1.1/eSCL".to_owned());
    for code in [200u16, 202, 400, 404, 409, 500, 503].into_iter() {
        match scanner.submit_outcome(code, Some("http://192.168.1.1/eSCL/ScanJobs/1")) {
            Err(Error::UnexpectedStatusCode(c)) => assert_eq!(c, code),
            _ => panic!("expected the status-code failure"),
        }
    }
}

#[test]
fn test_submit_missing_location_is_its_own_failure() {
    let scanner = Scanner::new("http://192.168.1.1/eSCL".to_owned());
    assert!(matches!(scanner.submit_outcome(201, None), Err(Error::LocationHeader)));
    assert!(matches!(
        scanner.submit_outcome(201, Some("/relative/only")),
        Err(Error::LocationHeader)
    ));
}

#[test]
fn test_submit_success_takes_location() {
    let scanner = Scanner::new("http://192.168.1.1/eSCL".to_owned());
    let job = scanner
        .submit_outcome(201, Some("HTTP://192.168.1.1/eSCL/ScanJobs/893e6fcd"))
        .expect("created");
    // the location header is parsed as a URL, not stored verbatim
    assert_eq!(job.job_url(), "http://192.168.1.1/eSCL/ScanJobs/893e6fcd");
    assert_eq!(
        job.next_document_url().expect("valid job url"),
        "http://192.168.1.1/eSCL/ScanJobs/893e6fcd/NextDocument"
    );
}

#[test]
fn test_next_document_state_machine() {
    // two pages, then the terminal signal, which stays terminal when polled again
    let page1 = ScanJob::next_document_outcome(200, vec![1u8, 2, 3]).expect("first page");
    assert_eq!(page1, Some(vec![1u8, 2, 3]));
    let page2 = ScanJob::next_document_outcome(200, vec![4u8]).expect("second page");
    assert_eq!(page2, Some(vec![4u8]));
    let done = ScanJob::next_document_outcome(404, Vec::new()).expect("terminal is not an error");
    assert_eq!(done, None);
    let again = ScanJob::next_document_outcome(404, Vec::new()).expect("still not an error");
    assert_eq!(again, None);
}

#[test]
fn test_next_document_other_codes_fail() {
    for code in [201u16, 204, 400, 409, 500, 503].into_iter() {
        match ScanJob::next_document_outcome(code, Vec::new()) {
            Err(Error::UnexpectedStatusCode(c)) => assert_eq!(c, code),
            _ => panic!("expected the status-code failure"),
        }
    }
}

#[test]
fn test_scanner_from_service() {
    let service = ScannerService {
        base_url: "http://192.168.1.9:8080/eSCL".to_owned(),
        name: "Example MFC".to_owned(),
    };
    assert_eq!(service.url(), "http://192.168.1.9:8080/eSCL");
    assert_eq!(service.name(), "Example MFC");
    let scanner: Scanner = service.into();
    assert_eq!(
        scanner.status_url().expect("valid base"),
        "http://192.168.1.9:8080/eSCL/ScannerStatus"
    );
}

#[test]
fn test_error_messages() {
    assert_eq!(Error::Http("boom".to_owned()).message(), "http error: boom");
    assert_eq!(Error::UnexpectedStatusCode(409).message(), "unexpected http status code 409");
    assert_eq!(
        Error::LocationHeader.message(),
        "missing or invalid `Location` header in response"
    );
}
