//! Settling the project ID, the database user, the password, the API token
//! and the name of the remote result file.
use vstd::prelude::*;

use crate::error::LcpError;
use crate::text::{append_signed_decimal, chars_of, ends_with_chars, signed_decimal, trim_chars, trimmed, string_from_chars};

verus! {

/// The project ID to use, from the project given and the optional
/// environment: with an environment, the project itself when it already
/// ends in `-<environment>`, else `<project>-<environment>`; without one, the
/// project when it holds a `-` (it is taken as a full ID), else nothing: the
/// environment must be asked for.
pub open spec fn resolved_project_id(project: Seq<char>, environment: Option<Seq<char>>) -> Option<
    Seq<char>,
> {
    match environment {
        Some(env) => if ("-"@ + env).is_suffix_of(project) {
            Some(project)
        } else {
            Some(project + "-"@ + env)
        },
        None => if project.contains('-') {
            Some(project)
        } else {
            None
        },
    }
}

/// `<project>-<environment>`.
pub fn project_with_environment(project: &str, environment: &str) -> (id: String)
    ensures
        id@ == project@ + "-"@ + environment@,
{
    let mut id = String::new();
    id.append(project);
    id.append("-");
    id.append(environment);
    id
}

/// Tells whether `s` holds the character `c`.
pub fn has_char(s: &[char], c: char) -> (b: bool)
    ensures
        b == s@.contains(c),
{
    for i in 0..s.len()
        invariant
            forall|k: int| 0 <= k < i ==> s@[k] != c,
    {
        if s[i] == c {
            assert(s@[i as int] == c);
            return true;
        }
    }
    false
}

/// Settles the project ID; `None` means the environment must be asked for
/// (then the ID is `project_with_environment` of the answer).
pub fn resolve_project_id(project: &str, environment: Option<&str>) -> (id: Option<String>)
    ensures
        match environment {
            Some(env) => id matches Some(i) && resolved_project_id(project@, Some(env@)) == Some(
                i@,
            ),
            None => match id {
                Some(i) => resolved_project_id(project@, None) == Some(i@),
                None => resolved_project_id(project@, None) is None,
            },
        },
{
    let chars = chars_of(project);
    match environment {
        Some(env) => {
            let mut suffix = String::new();
            suffix.append("-");
            suffix.append(env);
            let suffix_chars = chars_of(suffix.as_str());
            if ends_with_chars(&chars, &suffix_chars) {
                Some(project.to_owned())
            } else {
                Some(project_with_environment(project, env))
            }
        },
        None => {
            if has_char(&chars, '-') {
                Some(project.to_owned())
            } else {
                None
            }
        },
    }
}

/// A project ID settled with an environment ends in `-<environment>`.
pub proof fn lemma_resolved_id_ends_with_environment(project: Seq<char>, env: Seq<char>)
    ensures
        resolved_project_id(project, Some(env)) matches Some(id) && ("-"@ + env).is_suffix_of(id),
{
    let suffix = "-"@ + env;
    if !suffix.is_suffix_of(project) {
        let id = project + "-"@ + env;
        assert(id.subrange(id.len() - suffix.len(), id.len() as int) =~= suffix);
    }
}

/// Settling a project ID again with the same environment changes nothing:
/// an ID that already carries the environment suffix is kept as it is.
pub proof fn lemma_resolve_project_id_idempotent(project: Seq<char>, env: Seq<char>)
    ensures
        resolved_project_id(resolved_project_id(project, Some(env)).unwrap(), Some(env))
            == resolved_project_id(project, Some(env)),
{
    lemma_resolved_id_ends_with_environment(project, env);
}

/// Without an environment, a project holding a `-` anywhere is taken as the
/// full project ID as it stands, and a project without one needs the
/// environment asked for.
pub proof fn lemma_project_without_environment(project: Seq<char>)
    ensures
        (exists|i: int| 0 <= i < project.len() && project[i] == '-') ==> resolved_project_id(
            project,
            None,
        ) == Some(project),
        (forall|i: int| 0 <= i < project.len() ==> project[i] != '-') ==> resolved_project_id(
            project,
            None,
        ) is None,
{
    if exists|i: int| 0 <= i < project.len() && project[i] == '-' {
        let i = choose|i: int| 0 <= i < project.len() && project[i] == '-';
        assert(project.contains('-'));
    }
}

/// With an environment, the project ID is the project itself when it ends
/// in `-<environment>`, and `<project>-<environment>` otherwise.
pub proof fn lemma_project_with_environment(project: Seq<char>, env: Seq<char>)
    ensures
        (project.len() >= env.len() + 1 && project.subrange(
            project.len() - env.len() - 1,
            project.len() as int,
        ) == seq!['-'] + env) ==> resolved_project_id(project, Some(env)) == Some(project),
        !(project.len() >= env.len() + 1 && project.subrange(
            project.len() - env.len() - 1,
            project.len() as int,
        ) == seq!['-'] + env) ==> resolved_project_id(project, Some(env)) == Some(
            project + seq!['-'] + env,
        ),
{
    reveal_strlit("-");
    assert("-"@ =~= seq!['-']);
}

/// The database user: the one given, else the project ID (its read-only user).
pub fn resolve_db_user(user: Option<String>, project_id: &str) -> (u: String)
    ensures
        match user {
            Some(given) => u == given,
            None => u@ == project_id@,
        },
{
    match user {
        Some(u) => u,
        None => project_id.to_owned(),
    }
}

/// The password, by precedence: the command-line argument, else the
/// `LCP_DB_PASSWORD` variable; `None` means it must be asked for.
pub fn resolve_password(argument: Option<String>, environment: Option<String>) -> (p: Option<String>)
    ensures
        argument is Some ==> p == argument,
        argument is None ==> p == environment,
{
    match argument {
        Some(a) => Some(a),
        None => environment,
    }
}

/// The API token to use: the `LCP_TOKEN` variable when set, else the
/// trimmed contents of the token file when it exists and is not blank;
/// `None` means neither holds one (then the tool logs in, if it can).
pub fn select_token(env_token: Option<String>, file_contents: Option<String>) -> (t: Option<String>)
    ensures
        env_token is Some ==> t == env_token,
        env_token is None ==> match file_contents {
            Some(c) => if trimmed(c@).len() > 0 {
                t matches Some(tok) && tok@ == trimmed(c@)
            } else {
                t is None
            },
            None => t is None,
        },
{
    match env_token {
        Some(tok) => Some(tok),
        None => match file_contents {
            Some(contents) => {
                let chars = chars_of(contents.as_str());
                let token = trim_chars(&chars);
                if token.len() > 0 {
                    Some(string_from_chars(&token))
                } else {
                    None
                }
            },
            None => None,
        },
    }
}

/// What follows when neither the environment nor the token file holds a
/// token: a login when `LCP_EMAIL` and `LCP_PASSWORD` are both set, else
/// the missing-token error.
pub fn login_or_missing(email_set: bool, password_set: bool) -> (r: Result<(), LcpError>)
    ensures
        email_set && password_set ==> r is Ok,
        !(email_set && password_set) ==> r == Err::<(), LcpError>(LcpError::NoToken),
{
    if email_set && password_set {
        Ok(())
    } else {
        Err(LcpError::NoToken)
    }
}

/// The `Authorization` header value for a token.
pub fn authorization_header(token: &str) -> (h: String)
    ensures
        h@ == "Bearer "@ + token@,
{
    let mut h = String::new();
    h.append("Bearer ");
    h.append(token);
    h
}

/// The name of the remote result file for a Unix timestamp.
pub open spec fn output_filename_for(timestamp: int) -> Seq<char> {
    "lcp_sql_output_"@ + signed_decimal(timestamp) + ".txt"@
}

/// The name of the remote result file for a Unix timestamp:
/// `lcp_sql_output_<timestamp>.txt`.
pub fn remote_output_filename(timestamp: i64) -> (name: String)
    ensures
        name@ == output_filename_for(timestamp as int),
{
    let mut name = String::new();
    name.append("lcp_sql_output_");
    append_signed_decimal(&mut name, timestamp);
    name.append(".txt");
    assert(name@ =~= output_filename_for(timestamp as int));
    name
}

/// The prompt for the database password.
pub fn password_prompt(project_id: &str, user: &str) -> (p: String)
    ensures
        p@ == "Enter database password for project: "@ + project_id@ + " (User: "@ + user@ + ")"@,
{
    let mut p = String::new();
    p.append("Enter database password for project: ");
    p.append(project_id);
    p.append(" (User: ");
    p.append(user);
    p.append(")");
    p
}

/// The prompt for the environment of a project.
pub fn environment_prompt(project: &str) -> (p: String)
    ensures
        p@ == "Enter environment for project '"@ + project@ + "' (e.g. dev, uat, prd)"@,
{
    let mut p = String::new();
    p.append("Enter environment for project '");
    p.append(project);
    p.append("' (e.g. dev, uat, prd)");
    p
}

} // verus!
