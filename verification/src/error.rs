//! The errors the tool reports, and their messages.
use vstd::prelude::*;

use crate::text::{append_signed_decimal, signed_decimal};

verus! {

/// Why a fetch could not go on.
#[derive(Debug, PartialEq, Eq)]
pub enum LcpError {
    /// The `expect` program could not be started.
    ExpectNotInstalled,
    /// The user declined to run a script with data-modifying keywords.
    OperationCancelled,
    /// No line of the shell's instance listing names a running instance.
    InstanceNotFound { service: String, project_id: String },
    /// The API response is not JSON; `detail` is the JSON reader's account of why.
    InvalidResponse { detail: String },
    /// The API response has no `data.projects` array.
    ProjectsUnreadable,
    /// The project is not among those the API lists.
    ProjectNotFound { project_id: String },
    /// No token in the environment, in the token file, nor credentials to log in with.
    NoToken,
    /// The home directory could not be determined.
    NoHomeDirectory,
    /// `lcp files download` exited with a failure.
    DownloadFailed,
    /// The download finished but the result file is not among the files fetched.
    DownloadedFileMissing,
    /// The temporary script file's path is not valid Unicode.
    InvalidTempFilePath,
    /// The temporary download directory's path is not valid Unicode.
    InvalidTempDownloadPath,
    /// The `expect` session exited with a failure, with its exit code if it had one.
    SqlFailed { code: Option<i32> },
    /// The fetch ended because the SQL script failed.
    FetchFailed,
}

/// How `{:?}` renders an optional exit code.
pub open spec fn exit_code_debug(code: Option<i32>) -> Seq<char> {
    match code {
        Some(c) => "Some("@ + signed_decimal(c as int) + ")"@,
        None => "None"@,
    }
}

impl LcpError {
    /// The message shown for the error.
    pub open spec fn text(&self) -> Seq<char> {
        match self {
            LcpError::ExpectNotInstalled => "'expect' is not installed or not in PATH. Please install it to use this tool."@,
            LcpError::OperationCancelled => "Operation cancelled by user."@,
            LcpError::InstanceNotFound { service, project_id } => "Could not find a running instance ID for service: "@
                + service@ + " in project: "@ + project_id@ + "."@,
            LcpError::InvalidResponse { .. } => "error decoding response body"@,
            LcpError::ProjectsUnreadable => "Failed to parse projects from API response"@,
            LcpError::ProjectNotFound { project_id } => "Project '"@ + project_id@
                + "' not found in Liferay Cloud."@,
            LcpError::NoToken => "No Liferay Cloud token found. Please run 'lcp login' or set LCP_TOKEN/LCP_EMAIL+LCP_PASSWORD."@,
            LcpError::NoHomeDirectory => "Could not find home directory"@,
            LcpError::DownloadFailed => "Failed to download file via 'lcp files download'."@,
            LcpError::DownloadedFileMissing => "Downloaded file not found. The SQL query likely failed to create an output."@,
            LcpError::InvalidTempFilePath => "Invalid temp file path"@,
            LcpError::InvalidTempDownloadPath => "Invalid temp download path"@,
            LcpError::SqlFailed { code } => "SQL command failed with exit code: "@ + exit_code_debug(
                *code,
            ),
            LcpError::FetchFailed => "Fetch failed due to SQL error."@,
        }
    }

    /// The underlying cause shown below the message, where there is one.
    pub open spec fn cause_text(&self) -> Option<Seq<char>> {
        match self {
            LcpError::InvalidResponse { detail } => Some(detail@),
            _ => None,
        }
    }

    /// The underlying cause shown below the message, where there is one.
    pub fn cause(&self) -> (c: Option<String>)
        ensures
            match c {
                Some(s) => self.cause_text() == Some(s@),
                None => self.cause_text() is None,
            },
    {
        match self {
            LcpError::InvalidResponse { detail } => Some(detail.clone()),
            _ => None,
        }
    }

    /// The message shown for the error.
    pub fn message(&self) -> (m: String)
        ensures
            m@ == self.text(),
    {
        let mut m = String::new();
        match self {
            LcpError::ExpectNotInstalled => {
                m.append("'expect' is not installed or not in PATH. Please install it to use this tool.");
            },
            LcpError::OperationCancelled => {
                m.append("Operation cancelled by user.");
            },
            LcpError::InstanceNotFound { service, project_id } => {
                m.append("Could not find a running instance ID for service: ");
                m.append(service.as_str());
                m.append(" in project: ");
                m.append(project_id.as_str());
                m.append(".");
            },
            LcpError::InvalidResponse { .. } => {
                m.append("error decoding response body");
            },
            LcpError::ProjectsUnreadable => {
                m.append("Failed to parse projects from API response");
            },
            LcpError::ProjectNotFound { project_id } => {
                m.append("Project '");
                m.append(project_id.as_str());
                m.append("' not found in Liferay Cloud.");
            },
            LcpError::NoToken => {
                m.append("No Liferay Cloud token found. Please run 'lcp login' or set LCP_TOKEN/LCP_EMAIL+LCP_PASSWORD.");
            },
            LcpError::NoHomeDirectory => {
                m.append("Could not find home directory");
            },
            LcpError::DownloadFailed => {
                m.append("Failed to download file via 'lcp files download'.");
            },
            LcpError::DownloadedFileMissing => {
                m.append("Downloaded file not found. The SQL query likely failed to create an output.");
            },
            LcpError::InvalidTempFilePath => {
                m.append("Invalid temp file path");
            },
            LcpError::InvalidTempDownloadPath => {
                m.append("Invalid temp download path");
            },
            LcpError::SqlFailed { code } => {
                m.append("SQL command failed with exit code: ");
                match code {
                    Some(c) => {
                        m.append("Some(");
                        append_signed_decimal(&mut m, *c as i64);
                        m.append(")");
                    },
                    None => {
                        m.append("None");
                    },
                }
            },
            LcpError::FetchFailed => {
                m.append("Fetch failed due to SQL error.");
            },
        }
        assert(m@ =~= self.text());
        m
    }
}

} // verus!
