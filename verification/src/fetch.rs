//! The download of the result file and the verdict on a fetch.
use vstd::prelude::*;

use crate::error::LcpError;
use crate::instances::equal_chars;
use crate::text::chars_of;

verus! {

/// The remote file that the SQL script is written to before it runs.
pub open spec fn remote_query_path() -> Seq<char> {
    "/tmp/query.sql"@
}

/// The remote file that the SQL script is written to before it runs.
pub fn query_path() -> (p: &'static str)
    ensures
        p@ == remote_query_path(),
{
    "/tmp/query.sql"
}

/// The character views of a vector of strings.
pub open spec fn string_views(v: Seq<String>) -> Seq<Seq<char>> {
    v.map_values(|s: String| s@)
}

/// The arguments of `lcp files download` that fetch `remote_filename` of
/// `service` in `project_id` into the directory `dest`.
pub open spec fn download_args_text(
    project_id: Seq<char>,
    service: Seq<char>,
    remote_filename: Seq<char>,
    dest: Seq<char>,
) -> Seq<Seq<char>> {
    seq![
        "files"@,
        "download"@,
        "-p"@,
        project_id,
        "-s"@,
        service,
        "--prefix"@,
        remote_filename,
        "--dest"@,
        dest,
    ]
}

/// The arguments of `lcp files download` for the result file.
pub fn download_command_args(project_id: &str, service: &str, remote_filename: &str, dest: &str) -> (args:
    Vec<String>)
    ensures
        string_views(args@) == download_args_text(project_id@, service@, remote_filename@, dest@),
{
    let mut args: Vec<String> = Vec::new();
    args.push("files".to_owned());
    args.push("download".to_owned());
    args.push("-p".to_owned());
    args.push(project_id.to_owned());
    args.push("-s".to_owned());
    args.push(service.to_owned());
    args.push("--prefix".to_owned());
    args.push(remote_filename.to_owned());
    args.push("--dest".to_owned());
    args.push(dest.to_owned());
    assert(string_views(args@) =~= download_args_text(
        project_id@,
        service@,
        remote_filename@,
        dest@,
    ));
    args
}

/// What the exit of `lcp files download` leads to.
pub fn download_status(success: bool) -> (r: Result<(), LcpError>)
    ensures
        success ==> r is Ok,
        !success ==> r == Err::<(), LcpError>(LcpError::DownloadFailed),
{
    if success {
        Ok(())
    } else {
        Err(LcpError::DownloadFailed)
    }
}

/// Tells whether a file met in the walk over the download directory is the
/// result file: its name is `remote_filename`.
pub fn is_result_file(name: &str, remote_filename: &str) -> (b: bool)
    ensures
        b == (name@ == remote_filename@),
{
    let n = chars_of(name);
    let target = chars_of(remote_filename);
    equal_chars(&n, &target)
}

/// What the walk over the download directory leads to: the result file is
/// missing when no file met is the result file.
pub fn download_found(found: bool) -> (r: Result<(), LcpError>)
    ensures
        found ==> r is Ok,
        !found ==> r == Err::<(), LcpError>(LcpError::DownloadedFileMissing),
{
    if found {
        Ok(())
    } else {
        Err(LcpError::DownloadedFileMissing)
    }
}

/// How a fetch ended.
#[derive(Debug, Clone, Copy, PartialEq, Eq)]
pub enum FetchOutcome {
    /// The script failed; the result file holds what the database said.
    SqlFailedWithOutput,
    /// The script failed and left no output.
    SqlFailedWithoutOutput,
    /// The script ran but the result file is empty.
    EmptyResult,
    /// The results are saved.
    Saved,
}

/// How a fetch ended, from whether the script succeeded and whether the
/// local result file holds anything.
pub fn fetch_outcome(sql_succeeded: bool, output_nonempty: bool) -> (o: FetchOutcome)
    ensures
        o == (if sql_succeeded {
            if output_nonempty {
                FetchOutcome::Saved
            } else {
                FetchOutcome::EmptyResult
            }
        } else if output_nonempty {
            FetchOutcome::SqlFailedWithOutput
        } else {
            FetchOutcome::SqlFailedWithoutOutput
        }),
{
    if sql_succeeded {
        if output_nonempty {
            FetchOutcome::Saved
        } else {
            FetchOutcome::EmptyResult
        }
    } else if output_nonempty {
        FetchOutcome::SqlFailedWithOutput
    } else {
        FetchOutcome::SqlFailedWithoutOutput
    }
}

} // verus!
