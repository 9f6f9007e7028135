//! The command line: the subcommand and its options, as plain values.
use vstd::prelude::*;

verus! {

/// `std::path::PathBuf`, carried through as it is.
#[verifier::external_type_specification]
#[verifier::external_body]
pub struct ExPathBuf(std::path::PathBuf);

/// The kind of database the script runs against.
#[derive(Debug, Clone, Copy, PartialEq, Eq)]
pub enum DatabaseType {
    /// PostgreSQL, through `psql`.
    Psql,
    /// MySQL, through `mysql`.
    Mysql,
}

impl Default for DatabaseType {
    fn default() -> (d: Self)
        ensures
            d == DatabaseType::Psql,
    {
        DatabaseType::Psql
    }
}

/// The whole command line.
pub struct App {
    /// The subcommand to run.
    pub command: AppCommands,
    /// Shows the output of the remote session.
    pub verbose: bool,
}

/// The subcommands.
pub enum AppCommands {
    /// Executes a local SQL script on a Liferay Cloud database and downloads the result.
    Fetch {
        /// Project ID or full ID (e.g., 'acme' or 'acme-prd').
        project: String,
        /// Optional environment suffix (e.g., 'prd', 'uat').
        environment: Option<String>,
        /// Liferay Cloud service name.
        service: String,
        /// Path to the local .sql script to execute.
        file: std::path::PathBuf,
        /// Local path for the result file.
        output: std::path::PathBuf,
        /// Database username; the project ID when absent.
        user: Option<String>,
        /// Database password. If missing, it comes from the environment or a prompt.
        password: Option<String>,
        /// Runs the script even when it holds data-modifying keywords.
        force: bool,
        /// The database type.
        database_type: DatabaseType,
    },
}

} // verus!
