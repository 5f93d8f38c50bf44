use vstd::prelude::*;
use crate::text::str_eq;

verus! {

/// Kind of background job (database enum `job_type`).
#[derive(Debug, Clone, Copy, PartialEq, Eq, Hash, Structural)]
pub enum JobType {
    DriftDetection,
    BulkSync,
    PortfolioSync,
    BankSync,
}

/// The database label of each variant.
pub open spec fn job_type_label(t: JobType) -> Seq<char> {
    match t {
        JobType::DriftDetection => "DRIFT_DETECTION"@,
        JobType::BulkSync => "BULK_SYNC"@,
        JobType::PortfolioSync => "PORTFOLIO_SYNC"@,
        JobType::BankSync => "BANK_SYNC"@,
    }
}

/// The variant with the given database label, if any.
pub open spec fn job_type_from_label(s: Seq<char>) -> Option<JobType> {
    if s == "DRIFT_DETECTION"@ {
        Some(JobType::DriftDetection)
    } else if s == "BULK_SYNC"@ {
        Some(JobType::BulkSync)
    } else if s == "PORTFOLIO_SYNC"@ {
        Some(JobType::PortfolioSync)
    } else if s == "BANK_SYNC"@ {
        Some(JobType::BankSync)
    } else {
        None
    }
}

impl JobType {
    /// The label this variant is stored under in the database.
    pub fn to_sql_label(&self) -> (res: &'static str)
        ensures
            res@ == job_type_label(*self),
    {
        match self {
            JobType::DriftDetection => "DRIFT_DETECTION",
            JobType::BulkSync => "BULK_SYNC",
            JobType::PortfolioSync => "PORTFOLIO_SYNC",
            JobType::BankSync => "BANK_SYNC",
        }
    }

    /// The variant stored under a database label; any other label is refused.
    pub fn from_sql_label(label: &str) -> (res: Result<JobType, String>)
        ensures
            match job_type_from_label(label@) {
                Some(t) => res == Ok::<JobType, String>(t),
                None => res matches Err(m) && m@ == "Unrecognized enum variant for JobType"@,
            },
    {
        if str_eq(label, "DRIFT_DETECTION") {
            Ok(JobType::DriftDetection)
        } else if str_eq(label, "BULK_SYNC") {
            Ok(JobType::BulkSync)
        } else if str_eq(label, "PORTFOLIO_SYNC") {
            Ok(JobType::PortfolioSync)
        } else if str_eq(label, "BANK_SYNC") {
            Ok(JobType::BankSync)
        } else {
            Err(crate::text::owned("Unrecognized enum variant for JobType"))
        }
    }
}

/// Reading back the label stored for a variant gives that variant.
pub proof fn lemma_job_type_label_roundtrip(t: JobType)
    ensures
        job_type_from_label(job_type_label(t)) == Some(t),
{
    reveal_strlit("DRIFT_DETECTION");
    reveal_strlit("BULK_SYNC");
    reveal_strlit("PORTFOLIO_SYNC");
    reveal_strlit("BANK_SYNC");
    assert("BULK_SYNC"@.len() != "DRIFT_DETECTION"@.len());
    assert("PORTFOLIO_SYNC"@.len() != "DRIFT_DETECTION"@.len());
    assert("PORTFOLIO_SYNC"@.len() != "BULK_SYNC"@.len());
    assert("BANK_SYNC"@.len() != "DRIFT_DETECTION"@.len());
    assert("BANK_SYNC"@[1] != "BULK_SYNC"@[1]);
    assert("BANK_SYNC"@.len() != "PORTFOLIO_SYNC"@.len());
}

/// Lifecycle state of a background job (database enum `job_status`).
#[derive(Debug, Clone, Copy, PartialEq, Eq, Hash, Structural)]
pub enum JobStatus {
    Pending,
    Running,
    Completed,
    Failed,
}

/// The database label of each variant.
pub open spec fn job_status_label(t: JobStatus) -> Seq<char> {
    match t {
        JobStatus::Pending => "PENDING"@,
        JobStatus::Running => "RUNNING"@,
        JobStatus::Completed => "COMPLETED"@,
        JobStatus::Failed => "FAILED"@,
    }
}

/// The variant with the given database label, if any.
pub open spec fn job_status_from_label(s: Seq<char>) -> Option<JobStatus> {
    if s == "PENDING"@ {
        Some(JobStatus::Pending)
    } else if s == "RUNNING"@ {
        Some(JobStatus::Running)
    } else if s == "COMPLETED"@ {
        Some(JobStatus::Completed)
    } else if s == "FAILED"@ {
        Some(JobStatus::Failed)
    } else {
        None
    }
}

impl JobStatus {
    /// A job is finished once it has completed or failed.
    pub fn is_terminal(&self) -> (res: bool)
        ensures
            res == (*self == JobStatus::Completed || *self == JobStatus::Failed),
    {
        match self {
            JobStatus::Completed | JobStatus::Failed => true,
            _ => false,
        }
    }

    /// The label this variant is stored under in the database.
    pub fn to_sql_label(&self) -> (res: &'static str)
        ensures
            res@ == job_status_label(*self),
    {
        match self {
            JobStatus::Pending => "PENDING",
            JobStatus::Running => "RUNNING",
            JobStatus::Completed => "COMPLETED",
            JobStatus::Failed => "FAILED",
        }
    }

    /// The variant stored under a database label; any other label is refused.
    pub fn from_sql_label(label: &str) -> (res: Result<JobStatus, String>)
        ensures
            match job_status_from_label(label@) {
                Some(t) => res == Ok::<JobStatus, String>(t),
                None => res matches Err(m) && m@ == "Unrecognized enum variant for JobStatus"@,
            },
    {
        if str_eq(label, "PENDING") {
            Ok(JobStatus::Pending)
        } else if str_eq(label, "RUNNING") {
            Ok(JobStatus::Running)
        } else if str_eq(label, "COMPLETED") {
            Ok(JobStatus::Completed)
        } else if str_eq(label, "FAILED") {
            Ok(JobStatus::Failed)
        } else {
            Err(crate::text::owned("Unrecognized enum variant for JobStatus"))
        }
    }
}

/// Reading back the label stored for a variant gives that variant.
pub proof fn lemma_job_status_label_roundtrip(t: JobStatus)
    ensures
        job_status_from_label(job_status_label(t)) == Some(t),
{
    reveal_strlit("PENDING");
    reveal_strlit("RUNNING");
    reveal_strlit("COMPLETED");
    reveal_strlit("FAILED");
    assert("RUNNING"@[0] != "PENDING"@[0]);
    assert("COMPLETED"@.len() != "PENDING"@.len());
    assert("COMPLETED"@.len() != "RUNNING"@.len());
    assert("FAILED"@.len() != "PENDING"@.len());
    assert("FAILED"@.len() != "RUNNING"@.len());
    assert("FAILED"@.len() != "COMPLETED"@.len());
}

} // verus!
