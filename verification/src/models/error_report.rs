//! Error reports, submissions and the shapes in which reports are listed.

use crate::models::build_configuration::BuildConfigData;
use crate::models::timestamp::Timestamp;
use crate::utils::text::{copy_optional_text, decimal_text, i64_to_decimal};
use vstd::prelude::*;
use vstd::string::*;

verus! {

/// A stored report of one build failure. The store assigns `id` and `created_at`;
/// everything else but `bugzilla_link` is what the client submitted.
#[derive(Debug, PartialEq, Eq)]
pub struct Model {
    pub id: i32,
    pub created_at: Timestamp,
    pub machine: String,
    pub distro: String,
    pub distro_version: String,
    pub build_sys: String,
    pub nativelsbstring: String,
    pub target_sys: String,
    pub failure_task: String,
    pub failure_package: String,
    pub error_type: String,
    pub error_details: String,
    pub log_data: String,
    pub submitter_name: Option<String>,
    pub submitter_email: Option<String>,
    pub bugzilla_link: Option<String>,
    pub branch_commit: String,
}

impl Clone for Model {
    fn clone(&self) -> (copy: Self)
        ensures
            copy == *self,
    {
        Model {
            id: self.id,
            created_at: self.created_at,
            machine: self.machine.clone(),
            distro: self.distro.clone(),
            distro_version: self.distro_version.clone(),
            build_sys: self.build_sys.clone(),
            nativelsbstring: self.nativelsbstring.clone(),
            target_sys: self.target_sys.clone(),
            failure_task: self.failure_task.clone(),
            failure_package: self.failure_package.clone(),
            error_type: self.error_type.clone(),
            error_details: self.error_details.clone(),
            log_data: self.log_data.clone(),
            submitter_name: copy_optional_text(&self.submitter_name),
            submitter_email: copy_optional_text(&self.submitter_email),
            bugzilla_link: copy_optional_text(&self.bugzilla_link),
            branch_commit: self.branch_commit.clone(),
        }
    }
}

/// The text columns of a report, by which reports can be grouped.
#[derive(Clone, Copy, Debug, PartialEq, Eq, Structural)]
pub enum Column {
    Machine,
    Distro,
    DistroVersion,
    BuildSys,
    Nativelsbstring,
    TargetSys,
    FailureTask,
    FailurePackage,
    ErrorType,
    ErrorDetails,
    LogData,
    BranchCommit,
}

impl Model {
    /// The text that the report holds in `column`.
    pub open spec fn text_of(self, column: Column) -> Seq<char> {
        match column {
            Column::Machine => self.machine@,
            Column::Distro => self.distro@,
            Column::DistroVersion => self.distro_version@,
            Column::BuildSys => self.build_sys@,
            Column::Nativelsbstring => self.nativelsbstring@,
            Column::TargetSys => self.target_sys@,
            Column::FailureTask => self.failure_task@,
            Column::FailurePackage => self.failure_package@,
            Column::ErrorType => self.error_type@,
            Column::ErrorDetails => self.error_details@,
            Column::LogData => self.log_data@,
            Column::BranchCommit => self.branch_commit@,
        }
    }

    /// The same report under the identifier `id`.
    pub open spec fn with_identifier(self, id: i32) -> Model {
        Model { id, ..self }
    }

    /// Whether `record` is the submission `data` as the store keeps it under the
    /// identifier `id`, stamped with `created_at`: every field that the client
    /// supplied unchanged, and no link to a bug yet.
    pub open spec fn holds_submission(
        record: Model,
        id: i32,
        created_at: Timestamp,
        data: ErrorSubmissionData,
    ) -> bool {
        &&& record.id == id
        &&& record.created_at == created_at
        &&& record.machine == data.machine
        &&& record.distro == data.distro
        &&& record.distro_version == data.distro_version
        &&& record.build_sys == data.build_sys
        &&& record.nativelsbstring == data.nativelsbstring
        &&& record.target_sys == data.target_sys
        &&& record.failure_task == data.failure_task
        &&& record.failure_package == data.failure_package
        &&& record.error_type == data.error_type
        &&& record.error_details == data.error_details
        &&& record.log_data == data.log_data
        &&& record.submitter_name == data.submitter_name
        &&& record.submitter_email == data.submitter_email
        &&& record.bugzilla_link is None
        &&& record.branch_commit == data.branch_commit
    }

    /// Makes the record under which the submission `data` is stored.
    pub fn from_submission(id: i32, created_at: Timestamp, data: &ErrorSubmissionData) -> (record:
        Model)
        ensures
            Model::holds_submission(record, id, created_at, *data),
    {
        Model {
            id,
            created_at,
            machine: data.machine.clone(),
            distro: data.distro.clone(),
            distro_version: data.distro_version.clone(),
            build_sys: data.build_sys.clone(),
            nativelsbstring: data.nativelsbstring.clone(),
            target_sys: data.target_sys.clone(),
            failure_task: data.failure_task.clone(),
            failure_package: data.failure_package.clone(),
            error_type: data.error_type.clone(),
            error_details: data.error_details.clone(),
            log_data: data.log_data.clone(),
            submitter_name: copy_optional_text(&data.submitter_name),
            submitter_email: copy_optional_text(&data.submitter_email),
            bugzilla_link: None,
            branch_commit: data.branch_commit.clone(),
        }
    }

    /// The text that the report holds in `column`.
    pub fn text(&self, column: Column) -> (text: &String)
        ensures
            text@ == self.text_of(column),
    {
        match column {
            Column::Machine => &self.machine,
            Column::Distro => &self.distro,
            Column::DistroVersion => &self.distro_version,
            Column::BuildSys => &self.build_sys,
            Column::Nativelsbstring => &self.nativelsbstring,
            Column::TargetSys => &self.target_sys,
            Column::FailureTask => &self.failure_task,
            Column::FailurePackage => &self.failure_package,
            Column::ErrorType => &self.error_type,
            Column::ErrorDetails => &self.error_details,
            Column::LogData => &self.log_data,
            Column::BranchCommit => &self.branch_commit,
        }
    }
}

/// A report as a client submits it.
#[derive(Debug, PartialEq, Eq)]
pub struct ErrorSubmissionData {
    pub machine: String,
    pub distro: String,
    pub distro_version: String,
    pub build_sys: String,
    pub nativelsbstring: String,
    pub target_sys: String,
    pub failure_task: String,
    pub failure_package: String,
    pub error_type: String,
    pub error_details: String,
    pub log_data: String,
    pub submitter_name: Option<String>,
    pub submitter_email: Option<String>,
    pub branch_commit: String,
    pub build_configuration: Option<BuildConfigData>,
}

/// The answer to an accepted submission.
#[derive(Debug, PartialEq, Eq)]
pub struct SubmissionResponse {
    pub id: i32,
    pub url: String,
    pub status: String,
}

/// The address of the page that shows the report `id`, below `base_url`.
pub open spec fn details_url(base_url: Seq<char>, id: i32) -> Seq<char> {
    base_url + "/Errors/Details/"@ + decimal_text(id as int) + "/"@
}

impl SubmissionResponse {
    /// The answer that tells a client where its report `id` can be seen.
    pub fn success(base_url: &str, id: i32) -> (response: SubmissionResponse)
        ensures
            response.id == id,
            response.url@ == details_url(base_url@, id),
            response.status@ == "success"@,
    {
        let mut url = base_url.to_owned();
        url.append("/Errors/Details/");
        url.append(i64_to_decimal(id as i64).as_str());
        url.append("/");
        SubmissionResponse { id, url, status: String::from_str("success") }
    }
}

/// One page of reports with the numbers that describe it.
#[derive(Debug, PartialEq, Eq)]
pub struct ErrorListResponse {
    pub errors: Vec<Model>,
    pub pagination: PaginationInfo,
}

/// Where a page lies in the whole result.
#[derive(Clone, Copy, Debug, PartialEq, Eq, Structural)]
pub struct PaginationInfo {
    pub page: u64,
    pub per_page: u64,
    pub total: u64,
    pub total_pages: u64,
}

/// Filter criteria and paging parameters of a listing request.
#[derive(Debug, PartialEq, Eq)]
pub struct ErrorQuery {
    pub page: Option<u64>,
    pub per_page: Option<u64>,
    pub machine: Option<String>,
    pub distro: Option<String>,
    pub distro_version: Option<String>,
    pub error_type: Option<String>,
    pub failure_package: Option<String>,
    pub date_from: Option<String>,
    pub date_to: Option<String>,
    pub search: Option<String>,
}

impl Default for ErrorQuery {
    /// The first page of fifty, with no filter.
    fn default() -> (query: Self)
        ensures
            query.page == Some(1u64),
            query.per_page == Some(50u64),
            query.machine is None,
            query.distro is None,
            query.distro_version is None,
            query.error_type is None,
            query.failure_package is None,
            query.date_from is None,
            query.date_to is None,
            query.search is None,
    {
        ErrorQuery {
            page: Some(1),
            per_page: Some(50),
            machine: None,
            distro: None,
            distro_version: None,
            error_type: None,
            failure_package: None,
            date_from: None,
            date_to: None,
            search: None,
        }
    }
}

} // verus!
