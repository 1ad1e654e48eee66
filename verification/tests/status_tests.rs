use escl::status::{JobState, ScannerState, ScannerStatus};

fn status_document() -> &'static str {
    "<?xml version=\"1.0\" encoding=\"UTF-8\"?>\n\
     <scan:ScannerStatus xmlns:scan=\"http://schemas.hp.com/imaging/escl/2011/05/03\" xmlns:pwg=\"http://www.pwg.org/schemas/2010/12/sm\">\n\
       <pwg:Version>2.63</pwg:Version>\n\
       <pwg:State>Processing</pwg:State>\n\
       <scan:Jobs>\n\
         <scan:JobInfo>\n\
           <pwg:JobUri>/eSCL/ScanJobs/893e6fcd-487f-4056-a8c9-a87709b85daf</pwg:JobUri>\n\
           <pwg:JobUuid>893e6fcd-487f-4056-a8c9-a87709b85daf</pwg:JobUuid>\n\
           <scan:Age>2</scan:Age>\n\
           <pwg:ImagesCompleted>1</pwg:ImagesCompleted>\n\
           <pwg:ImagesToTransfer>1</pwg:ImagesToTransfer>\n\
           <pwg:JobState>Processing</pwg:JobState>\n\
           <pwg:JobStateReasons>\n\
             <pwg:JobStateReason>JobScanningAndTransferring</pwg:JobStateReason>\n\
           </pwg:JobStateReasons>\n\
         </scan:JobInfo>\n\
       </scan:Jobs>\n\
     </scan:ScannerStatus>"
}

#[test]
fn test_status_decode() {
    let status = ScannerStatus::from_xml(status_document()).expect("decode");
    assert_eq!(status.version, "2.63");
    assert_eq!(status.state, ScannerState::Processing);
    assert!(!status.jobs.is_empty());
    assert_eq!(status.jobs.job_info.len(), 1);
    let job = &status.jobs.job_info[0];
    assert_eq!(job.job_uuid, "893e6fcd-487f-4056-a8c9-a87709b85daf");
    assert_eq!(job.age, 2);
    assert_eq!(job.images_completed, 1);
    assert_eq!(job.images_to_transfer, 1);
    assert_eq!(job.job_state, JobState::Processing);
    assert_eq!(job.job_state_reasons.job_state_reason, "JobScanningAndTransferring");
}

#[test]
fn test_status_without_jobs() {
    let xml = "<scan:ScannerStatus><pwg:Version>2.0</pwg:Version><pwg:State>Idle</pwg:State></scan:ScannerStatus>";
    let status = ScannerStatus::from_xml(xml).expect("decode");
    assert_eq!(status.state, ScannerState::Idle);
    assert!(status.jobs.is_empty());
}

#[test]
fn test_status_unknown_state_fails() {
    let xml = "<scan:ScannerStatus><pwg:Version>2.0</pwg:Version><pwg:State>Sleeping</pwg:State></scan:ScannerStatus>";
    assert!(ScannerStatus::from_xml(xml).is_err());
}

#[test]
fn test_status_missing_state_fails() {
    let xml = "<scan:ScannerStatus><pwg:Version>2.0</pwg:Version></scan:ScannerStatus>";
    assert!(ScannerStatus::from_xml(xml).is_err());
}
