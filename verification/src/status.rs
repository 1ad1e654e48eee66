//! The typed model of a device's status document and its decoding.

use vstd::prelude::*;
use crate::util::str_eq;
use crate::xml::{
    child_text,
    child_u32,
    elems_named,
    elems_view,
    find_named,
    lemma_elems_named_snoc,
    lemma_elems_view_index,
    Element,
    SpecElem,
    XmlError,
};

verus! {

/// The device's current overall condition.
#[derive(Debug, Clone, Copy, PartialEq, Eq, Structural)]
pub enum ScannerState {
    /// Ready for a new job.
    Idle,
    /// Busy with some job or activity.
    Processing,
    /// Calibrating or otherwise preparing the unit.
    Testing,
    /// An error condition occurred.
    Stopped,
    /// The unit is unavailable.
    Down,
}

/// The state tokens are a closed protocol vocabulary: an unknown token is a
/// decode failure, not a vendor extension.
pub open spec fn scanner_state_of_token(t: Seq<char>) -> Option<ScannerState> {
    if t == "Idle"@ {
        Some(ScannerState::Idle)
    } else if t == "Processing"@ {
        Some(ScannerState::Processing)
    } else if t == "Testing"@ {
        Some(ScannerState::Testing)
    } else if t == "Stopped"@ {
        Some(ScannerState::Stopped)
    } else if t == "Down"@ {
        Some(ScannerState::Down)
    } else {
        None
    }
}

impl ScannerState {
    fn from_token(t: &str) -> (r: Option<ScannerState>)
        ensures
            r == scanner_state_of_token(t@),
    {
        if str_eq(t, "Idle") {
            Some(ScannerState::Idle)
        } else if str_eq(t, "Processing") {
            Some(ScannerState::Processing)
        } else if str_eq(t, "Testing") {
            Some(ScannerState::Testing)
        } else if str_eq(t, "Stopped") {
            Some(ScannerState::Stopped)
        } else if str_eq(t, "Down") {
            Some(ScannerState::Down)
        } else {
            None
        }
    }
}

/// The state of one device-side job.
#[derive(Debug, Clone, Copy, PartialEq, Eq, Structural)]
pub enum JobState {
    /// End state: the job was canceled by a client or at the device.
    Canceled,
    /// End state: an internal, communication or security error.
    Aborted,
    /// The job finished successfully.
    Completed,
    /// The job was initiated and the scan engine is being prepared.
    Pending,
    /// The device is processing the job and transmitting scan data.
    Processing,
}

pub open spec fn job_state_of_token(t: Seq<char>) -> Option<JobState> {
    if t == "Canceled"@ {
        Some(JobState::Canceled)
    } else if t == "Aborted"@ {
        Some(JobState::Aborted)
    } else if t == "Completed"@ {
        Some(JobState::Completed)
    } else if t == "Pending"@ {
        Some(JobState::Pending)
    } else if t == "Processing"@ {
        Some(JobState::Processing)
    } else {
        None
    }
}

impl JobState {
    fn from_token(t: &str) -> (r: Option<JobState>)
        ensures
            r == job_state_of_token(t@),
    {
        if str_eq(t, "Canceled") {
            Some(JobState::Canceled)
        } else if str_eq(t, "Aborted") {
            Some(JobState::Aborted)
        } else if str_eq(t, "Completed") {
            Some(JobState::Completed)
        } else if str_eq(t, "Pending") {
            Some(JobState::Pending)
        } else if str_eq(t, "Processing") {
            Some(JobState::Processing)
        } else {
            None
        }
    }
}

/// Why a job is in its state, as free text.
#[derive(Debug, Clone, PartialEq, Eq)]
pub struct JobStateReasons {
    pub job_state_reason: String,
}

pub ghost struct SpecJobStateReasons {
    pub job_state_reason: Seq<char>,
}

impl View for JobStateReasons {
    type V = SpecJobStateReasons;

    open spec fn view(&self) -> SpecJobStateReasons {
        SpecJobStateReasons { job_state_reason: self.job_state_reason@ }
    }
}

/// A summary of one job the device reports.
#[derive(Debug, Clone, PartialEq, Eq)]
pub struct JobInfo {
    pub job_uri: String,
    pub job_uuid: String,
    pub age: u32,
    pub images_completed: u32,
    pub images_to_transfer: u32,
    pub job_state: JobState,
    pub job_state_reasons: JobStateReasons,
}

pub ghost struct SpecJobInfo {
    pub job_uri: Seq<char>,
    pub job_uuid: Seq<char>,
    pub age: u32,
    pub images_completed: u32,
    pub images_to_transfer: u32,
    pub job_state: JobState,
    pub job_state_reasons: SpecJobStateReasons,
}

impl View for JobInfo {
    type V = SpecJobInfo;

    open spec fn view(&self) -> SpecJobInfo {
        SpecJobInfo {
            job_uri: self.job_uri@,
            job_uuid: self.job_uuid@,
            age: self.age,
            images_completed: self.images_completed,
            images_to_transfer: self.images_to_transfer,
            job_state: self.job_state,
            job_state_reasons: self.job_state_reasons@,
        }
    }
}

impl DeepView for JobInfo {
    type V = SpecJobInfo;

    open spec fn deep_view(&self) -> SpecJobInfo {
        self.view()
    }
}

/// The active job summaries; absent when the device reports none.
#[derive(Debug, Default, Clone, PartialEq, Eq)]
pub struct Jobs {
    pub job_info: Vec<JobInfo>,
}

pub ghost struct SpecJobs {
    pub job_info: Seq<SpecJobInfo>,
}

impl View for Jobs {
    type V = SpecJobs;

    open spec fn view(&self) -> SpecJobs {
        SpecJobs { job_info: self.job_info.deep_view() }
    }
}

impl Jobs {
    pub fn is_empty(&self) -> (r: bool)
        ensures
            r == (self@.job_info.len() == 0),
    {
        self.job_info.len() == 0
    }
}

/// A read-only snapshot of the device's state and its active jobs,
/// refetched on demand and never cached.
#[derive(Debug, Clone, PartialEq, Eq)]
pub struct ScannerStatus {
    pub version: String,
    pub state: ScannerState,
    pub jobs: Jobs,
}

pub ghost struct SpecScannerStatus {
    pub version: Seq<char>,
    pub state: ScannerState,
    pub jobs: SpecJobs,
}

impl View for ScannerStatus {
    type V = SpecScannerStatus;

    open spec fn view(&self) -> SpecScannerStatus {
        SpecScannerStatus { version: self.version@, state: self.state, jobs: self.jobs@ }
    }
}

pub open spec fn spec_decode_job_state_reasons(e: SpecElem) -> Option<SpecJobStateReasons> {
    match child_text(e, "JobStateReason"@) {
        None => None,
        Some(r) => Some(SpecJobStateReasons { job_state_reason: r }),
    }
}

pub open spec fn spec_decode_job_info(e: SpecElem) -> Option<SpecJobInfo> {
    match child_text(e, "JobUri"@) {
        None => None,
        Some(job_uri) => match child_text(e, "JobUuid"@) {
            None => None,
            Some(job_uuid) => match child_u32(e, "Age"@) {
                None => None,
                Some(age) => match child_u32(e, "ImagesCompleted"@) {
                    None => None,
                    Some(images_completed) => match child_u32(e, "ImagesToTransfer"@) {
                        None => None,
                        Some(images_to_transfer) => match child_text(e, "JobState"@) {
                            None => None,
                            Some(st) => match job_state_of_token(st) {
                                None => None,
                                Some(job_state) => match find_named(
                                    e.children,
                                    "JobStateReasons"@,
                                ) {
                                    None => None,
                                    Some(jsr) => match spec_decode_job_state_reasons(jsr) {
                                        None => None,
                                        Some(job_state_reasons) => Some(
                                            SpecJobInfo {
                                                job_uri,
                                                job_uuid,
                                                age,
                                                images_completed,
                                                images_to_transfer,
                                                job_state,
                                                job_state_reasons,
                                            },
                                        ),
                                    },
                                },
                            },
                        },
                    },
                },
            },
        },
    }
}

pub open spec fn spec_decode_job_list(cs: Seq<SpecElem>) -> Option<Seq<SpecJobInfo>>
    decreases cs.len(),
{
    if cs.len() == 0 {
        Some(Seq::empty())
    } else {
        match spec_decode_job_list(cs.drop_last()) {
            None => None,
            Some(p) => match spec_decode_job_info(cs.last()) {
                None => None,
                Some(c) => Some(p.push(c)),
            },
        }
    }
}

/// What decoding a status document's root element yields: `None` exactly
/// when a required element is missing, a numeric field does not parse, or a
/// state token is outside the protocol vocabulary.
pub open spec fn spec_decode_status(e: SpecElem) -> Option<SpecScannerStatus> {
    match child_text(e, "Version"@) {
        None => None,
        Some(version) => match child_text(e, "State"@) {
            None => None,
            Some(st) => match scanner_state_of_token(st) {
                None => None,
                Some(state) => match (match find_named(e.children, "Jobs"@) {
                    None => Some(Seq::<SpecJobInfo>::empty()),
                    Some(j) => spec_decode_job_list(elems_named(j.children, "JobInfo"@)),
                }) {
                    None => None,
                    Some(job_info) => Some(
                        SpecScannerStatus { version, state, jobs: SpecJobs { job_info } },
                    ),
                },
            },
        },
    }
}

/// Decoding a status document from its text: parse, then decode the root.
pub open spec fn spec_status_from_str(s: Seq<char>) -> Option<SpecScannerStatus> {
    match crate::xml::spec_parse_document(s) {
        None => None,
        Some(root) => spec_decode_status(root),
    }
}

fn decode_job_info(e: &Element) -> (r: Result<JobInfo, XmlError>)
    ensures
        match r {
            Ok(c) => spec_decode_job_info(e@) == Some(c@),
            Err(_) => spec_decode_job_info(e@) is None,
        },
{
    let job_uri = e.req_text("JobUri")?;
    let job_uuid = e.req_text("JobUuid")?;
    let age = e.req_u32("Age")?;
    let images_completed = e.req_u32("ImagesCompleted")?;
    let images_to_transfer = e.req_u32("ImagesToTransfer")?;
    let st = e.req_text("JobState")?;
    let job_state = match JobState::from_token(st.as_str()) {
        Some(s) => s,
        None => {
            return Err(XmlError::BadValue { name: st });
        },
    };
    let jsr = e.req_child("JobStateReasons")?;
    let job_state_reason = jsr.req_text("JobStateReason")?;
    let job_state_reasons = JobStateReasons { job_state_reason };
    Ok(
        JobInfo {
            job_uri,
            job_uuid,
            age,
            images_completed,
            images_to_transfer,
            job_state,
            job_state_reasons,
        },
    )
}

fn decode_jobs(e: &Element) -> (r: Result<Jobs, XmlError>)
    ensures
        match r {
            Ok(c) => spec_decode_job_list(elems_named(e@.children, "JobInfo"@)) == Some(
                c@.job_info,
            ),
            Err(_) => spec_decode_job_list(elems_named(e@.children, "JobInfo"@)) is None,
        },
{
    let ghost cv = elems_view(e.children@);
    proof {
        lemma_elems_view_index(e.children@);
    }
    let mut out: Vec<JobInfo> = Vec::new();
    let mut err: Option<XmlError> = None;
    let mut i: usize = 0;
    proof {
        assert(cv.take(0) =~= Seq::<SpecElem>::empty());
        assert(elems_named(cv.take(0), "JobInfo"@) =~= Seq::<SpecElem>::empty());
        assert(out.deep_view() =~~= Seq::<SpecJobInfo>::empty());
        assert(spec_decode_job_list(elems_named(cv.take(0), "JobInfo"@)) == Some(
            out.deep_view(),
        ));
    }
    while i < e.children.len()
        invariant
            i <= e.children.len(),
            cv == elems_view(e.children@),
            cv.len() == e.children.len(),
            forall|k: int| 0 <= k < e.children.len() ==> cv[k] == #[trigger] e.children@[k]@,
            match err {
                None => spec_decode_job_list(elems_named(cv.take(i as int), "JobInfo"@)) == Some(
                    out.deep_view(),
                ),
                Some(_) => spec_decode_job_list(elems_named(cv.take(i as int), "JobInfo"@)) is None,
            },
        decreases e.children.len() - i,
    {
        let ln = crate::xml::local_name_x(e.children[i].name.as_str());
        proof {
            assert(cv[i as int] == e.children@[i as int]@);
            assert(cv[i as int].name == e.children@[i as int].name@);
            assert(ln@ == crate::xml::local_name(cv[i as int].name));
            assert(cv.take(i as int + 1) =~= cv.take(i as int).push(cv[i as int]));
            lemma_elems_named_snoc(cv.take(i as int), cv[i as int], "JobInfo"@);
        }
        if str_eq(ln, "JobInfo") {
            let ghost prefix = elems_named(cv.take(i as int), "JobInfo"@);
            proof {
                assert(elems_named(cv.take(i as int + 1), "JobInfo"@) == prefix.push(
                    cv[i as int],
                ));
                assert(prefix.push(cv[i as int]).drop_last() =~= prefix);
                assert(prefix.push(cv[i as int]).last() == cv[i as int]);
            }
            if err.is_none() {
                match decode_job_info(&e.children[i]) {
                    Ok(c) => {
                        let ghost prev = out;
                        out.push(c);
                        proof {
                            crate::util::lemma_deep_view_push(out, prev, c);
                        }
                    },
                    Err(er) => {
                        err = Some(er);
                    },
                }
            }
        }
        i += 1;
    }
    proof {
        assert(cv.take(e.children.len() as int) =~= cv);
    }
    match err {
        None => Ok(Jobs { job_info: out }),
        Some(er) => Err(er),
    }
}

impl ScannerStatus {
    /// Decodes a status document's root element, as [`spec_decode_status`]
    /// describes.
    pub fn decode(e: &Element) -> (r: Result<ScannerStatus, XmlError>)
        ensures
            match r {
                Ok(c) => spec_decode_status(e@) == Some(c@),
                Err(_) => spec_decode_status(e@) is None,
            },
    {
        let version = e.req_text("Version")?;
        let st = e.req_text("State")?;
        let state = match ScannerState::from_token(st.as_str()) {
            Some(s) => s,
            None => {
                return Err(XmlError::BadValue { name: st });
            },
        };
        let jobs = match e.child("Jobs") {
            None => {
                let v: Vec<JobInfo> = Vec::new();
                proof {
                    assert(v.deep_view() =~~= Seq::<SpecJobInfo>::empty());
                }
                Jobs { job_info: v }
            },
            Some(j) => decode_jobs(j)?,
        };
        Ok(ScannerStatus { version, state, jobs })
    }

    /// Decodes a status document from its text.
    pub fn from_xml(s: &str) -> (r: Result<ScannerStatus, XmlError>)
        ensures
            match r {
                Ok(c) => spec_status_from_str(s@) == Some(c@),
                Err(_) => spec_status_from_str(s@) is None,
            },
    {
        let root = crate::xml::parse_document(s)?;
        let status = ScannerStatus::decode(&root)?;
        Ok(status)
    }
}

} // verus!
