use lcp_sql_fetch::api::{check_project_listing, validate_project_response};
use lcp_sql_fetch::cli::DatabaseType;
use lcp_sql_fetch::error::LcpError;
use lcp_sql_fetch::fetch::{
    download_command_args, download_found, download_status, fetch_outcome, is_result_file,
    query_path,
    FetchOutcome,
};
use lcp_sql_fetch::instances::{
    is_running_status, parse_instance_id_from_list, running_instance_from_output,
};
use lcp_sql_fetch::project::{
    authorization_header, environment_prompt, login_or_missing, password_prompt, project_with_environment,
    remote_output_filename, resolve_db_user, resolve_password, resolve_project_id, select_token,
};
use lcp_sql_fetch::safety::{
    check_destructive_sql, confirmation_result, destructive_keywords_in, keyword_list, SqlSafety,
};
use lcp_sql_fetch::scripts::{
    cleanup_expect_script, database_command, escape_for_expect, escape_single_quotes,
    remote_output_path, sql_expect_script, sql_run_result, SqlExecutionContext,
};

// ---- instance discovery ----

#[test]
fn finds_first_running_instance() {
    let listing = "ID   INSTANCE           STATUS\n1    liferay-abc-123    Running\n2    liferay-def        running\n";
    assert_eq!(
        parse_instance_id_from_list(listing, "liferay"),
        Some("liferay-abc-123".to_string())
    );
}

#[test]
fn skips_instances_that_are_not_running() {
    let listing = "1 liferay-a stopped\n2 liferay-b RUNNING";
    assert_eq!(parse_instance_id_from_list(listing, "liferay"), Some("liferay-b".to_string()));
}

#[test]
fn skips_other_services() {
    let listing = "1 database-0 running\n2 webserver-1 running\n";
    assert_eq!(parse_instance_id_from_list(listing, "liferay"), None);
    assert_eq!(
        parse_instance_id_from_list(listing, "webserver"),
        Some("webserver-1".to_string())
    );
}

#[test]
fn needs_three_fields() {
    assert_eq!(parse_instance_id_from_list("liferay-a running\n", "liferay"), None);
    assert_eq!(parse_instance_id_from_list("", "liferay"), None);
    assert_eq!(parse_instance_id_from_list("\n\n", "liferay"), None);
}

#[test]
fn handles_crlf_tabs_and_unicode_spaces() {
    assert_eq!(
        parse_instance_id_from_list("1 liferay-x running\r\n", "liferay"),
        Some("liferay-x".to_string())
    );
    assert_eq!(
        parse_instance_id_from_list("1\tliferay-t\u{3000}running", "liferay"),
        Some("liferay-t".to_string())
    );
}

#[test]
fn status_must_be_exactly_running() {
    assert_eq!(parse_instance_id_from_list("1 liferay-a running-ish\n", "liferay"), None);
    assert_eq!(parse_instance_id_from_list("1 liferay-a run\n", "liferay"), None);
    assert!(is_running_status("running"));
    assert!(!is_running_status("Running"));
}

#[test]
fn instance_from_raw_output() {
    let mut out = b"garbage \xff\xfe line\n".to_vec();
    out.extend_from_slice(b"1 liferay-z running\n");
    assert_eq!(
        running_instance_from_output(&out, "acme-prd", "liferay"),
        Ok("liferay-z".to_string())
    );
}

#[test]
fn instance_missing_is_reported() {
    let r = running_instance_from_output(b"nothing here\n", "acme-prd", "liferay");
    let e = r.unwrap_err();
    assert_eq!(
        e,
        LcpError::InstanceNotFound {
            service: "liferay".to_string(),
            project_id: "acme-prd".to_string()
        }
    );
    assert_eq!(
        e.message(),
        "Could not find a running instance ID for service: liferay in project: acme-prd."
    );
}

// ---- destructive SQL guard ----

#[test]
fn select_is_allowed() {
    assert_eq!(check_destructive_sql("select * from users;", false), SqlSafety::Allowed);
}

#[test]
fn destructive_keywords_need_confirmation_in_list_order() {
    assert_eq!(
        check_destructive_sql("insert into t values (1); drop table t;", false),
        SqlSafety::NeedsConfirmation(vec!["DROP", "INSERT"])
    );
    assert_eq!(
        check_destructive_sql("Update users set x = 1", false),
        SqlSafety::NeedsConfirmation(vec!["UPDATE"])
    );
}

#[test]
fn force_skips_the_guard() {
    assert_eq!(check_destructive_sql("delete from users", true), SqlSafety::Allowed);
}

#[test]
fn keywords_are_found_after_unicode_uppercasing() {
    // U+0131 (dotless i) uppercases to 'I'.
    assert_eq!(
        check_destructive_sql("\u{131}nsert into t", false),
        SqlSafety::NeedsConfirmation(vec!["INSERT"])
    );
}

#[test]
fn keywords_in_uppercase_text() {
    assert_eq!(
        destructive_keywords_in("ALTER GRANT REVOKE TRUNCATE"),
        vec!["TRUNCATE", "ALTER", "GRANT", "REVOKE"]
    );
    assert_eq!(destructive_keywords_in("update"), Vec::<&str>::new());
    assert_eq!(destructive_keywords_in("SELECT UPDATED_AT"), vec!["UPDATE"]);
}

#[test]
fn keyword_list_joins_with_commas() {
    assert_eq!(keyword_list(&["DROP", "INSERT"]), "DROP, INSERT");
    assert_eq!(keyword_list(&["DROP"]), "DROP");
    assert_eq!(keyword_list(&[]), "");
}

#[test]
fn declining_cancels() {
    assert_eq!(confirmation_result(true), Ok(()));
    let e = confirmation_result(false).unwrap_err();
    assert_eq!(e, LcpError::OperationCancelled);
    assert_eq!(e.message(), "Operation cancelled by user.");
}

// ---- escaping and scripts ----

#[test]
fn single_quotes_are_escaped_for_the_shell() {
    assert_eq!(escape_single_quotes("it's"), "it'\\''s");
    assert_eq!(escape_single_quotes("plain"), "plain");
    assert_eq!(escape_single_quotes("''"), "'\\'''\\''");
}

#[test]
fn tcl_specials_are_escaped() {
    assert_eq!(escape_for_expect("a\\b\"c$d[e]f"), "a\\\\b\\\"c\\$d\\[e\\]f");
    assert_eq!(escape_for_expect("select 1;\n"), "select 1;\n");
}

#[test]
fn tcl_escape_matches_chained_replace() {
    let sql = "SELECT \"x\", '$y' FROM t WHERE a[1] = '\\n';";
    let expected = sql
        .replace("\\", "\\\\")
        .replace("\"", "\\\"")
        .replace("$", "\\$")
        .replace("[", "\\[")
        .replace("]", "\\]");
    assert_eq!(escape_for_expect(sql), expected);
}

#[test]
fn database_commands() {
    assert_eq!(
        database_command(&DatabaseType::Psql, "pa'ss", "acme-prd", "/mnt/persistent-storage/out.txt"),
        "export PGPASSWORD='pa'\\''ss' && psql -v ON_ERROR_STOP=1 -U acme-prd -d lportal -f /tmp/query.sql > /mnt/persistent-storage/out.txt 2>&1"
    );
    assert_eq!(
        database_command(&DatabaseType::Mysql, "pw", "root", "/mnt/persistent-storage/out.txt"),
        "export MYSQL_PWD='pw' && mysql --abort-on-error -u root lportal < /tmp/query.sql > /mnt/persistent-storage/out.txt 2>&1"
    );
}

fn reference_sql_script(
    project_id: &str,
    service: &str,
    instance_id: &str,
    escaped_content: &str,
    db_cmd: &str,
) -> String {
    format!(
        r#"#!/usr/bin/expect -f
set timeout 600
spawn lcp shell -p {} -s {} --instance {}
expect "$ "
send -- "cat <<'LCP_SQL_EOF' > /tmp/query.sql\r"
send -- "{}\r"
send -- "LCP_SQL_EOF\r"
expect "$ "
send -- "{}; echo LCP_EXIT_CODE:\$? \r"
expect -re "LCP_EXIT_CODE:(\[0-9\]+)"
set exit_code $expect_out(1,string)
expect "$ "
send "exit\r"
expect eof
exit $exit_code
"#,
        project_id, service, instance_id, escaped_content, db_cmd
    )
}

#[test]
fn sql_script_text() {
    let db = DatabaseType::Psql;
    let ctx = SqlExecutionContext {
        project_id: "acme-prd",
        service: "liferay",
        instance_id: "liferay-abc",
        password: "s3cr'et",
        sql_content: "SELECT \"name\" FROM user_ WHERE x = '$1';",
        output_filename: "lcp_sql_output_42.txt",
        database_type: &db,
        user: "acme-prd",
        verbose: false,
    };
    let db_cmd = "export PGPASSWORD='s3cr'\\''et' && psql -v ON_ERROR_STOP=1 -U acme-prd -d lportal -f /tmp/query.sql > /mnt/persistent-storage/lcp_sql_output_42.txt 2>&1";
    let escaped = "SELECT \\\"name\\\" FROM user_ WHERE x = '\\$1';";
    assert_eq!(
        sql_expect_script(&ctx),
        reference_sql_script("acme-prd", "liferay", "liferay-abc", escaped, db_cmd)
    );
}

#[test]
fn cleanup_script_text() {
    let expected = format!(
        r#"#!/usr/bin/expect -f
set timeout 30
spawn lcp shell -p {} -s {} --instance {}
expect "$ "
send "rm {}\r"
expect "$ "
send "exit\r"
expect eof
"#,
        "acme-prd",
        "liferay",
        "liferay-abc",
        ["/tmp/query.sql", "/mnt/persistent-storage/o.txt"].join(" ")
    );
    assert_eq!(
        cleanup_expect_script(
            "acme-prd",
            "liferay",
            "liferay-abc",
            &[query_path(), "/mnt/persistent-storage/o.txt"]
        ),
        expected
    );
}

#[test]
fn sql_exit_status() {
    assert_eq!(sql_run_result(true, Some(0)), Ok(()));
    let e = sql_run_result(false, Some(3)).unwrap_err();
    assert_eq!(e, LcpError::SqlFailed { code: Some(3) });
    assert_eq!(e.message(), format!("SQL command failed with exit code: {:?}", Some(3)));
    assert_eq!(
        LcpError::SqlFailed { code: Some(-12) }.message(),
        format!("SQL command failed with exit code: {:?}", Some(-12))
    );
    assert_eq!(
        LcpError::SqlFailed { code: None }.message(),
        "SQL command failed with exit code: None"
    );
}

// ---- project, user, password, token ----

#[test]
fn project_id_with_environment() {
    assert_eq!(resolve_project_id("acme", Some("prd")), Some("acme-prd".to_string()));
    assert_eq!(resolve_project_id("acme-prd", Some("prd")), Some("acme-prd".to_string()));
    assert_eq!(resolve_project_id("acme-dev", Some("prd")), Some("acme-dev-prd".to_string()));
    assert_eq!(resolve_project_id("prd", Some("prd")), Some("prd-prd".to_string()));
}

#[test]
fn project_id_without_environment() {
    assert_eq!(resolve_project_id("acme-prd", None), Some("acme-prd".to_string()));
    assert_eq!(resolve_project_id("acme", None), None);
    assert_eq!(project_with_environment("acme", "uat"), "acme-uat");
}

#[test]
fn resolving_twice_changes_nothing() {
    let once = resolve_project_id("acme", Some("dev")).unwrap();
    assert_eq!(resolve_project_id(&once, Some("dev")), Some(once.clone()));
}

#[test]
fn db_user_defaults_to_project() {
    assert_eq!(resolve_db_user(None, "acme-prd"), "acme-prd");
    assert_eq!(resolve_db_user(Some("admin".to_string()), "acme-prd"), "admin");
}

#[test]
fn password_precedence() {
    assert_eq!(
        resolve_password(Some("arg".to_string()), Some("env".to_string())),
        Some("arg".to_string())
    );
    assert_eq!(resolve_password(None, Some("env".to_string())), Some("env".to_string()));
    assert_eq!(resolve_password(None, None), None);
}

#[test]
fn token_sources() {
    assert_eq!(
        select_token(Some("envtok".to_string()), Some("filetok".to_string())),
        Some("envtok".to_string())
    );
    assert_eq!(select_token(Some(String::new()), None), Some(String::new()));
    assert_eq!(select_token(None, Some("  tok\n".to_string())), Some("tok".to_string()));
    assert_eq!(select_token(None, Some("\u{a0}t o k\u{2003}".to_string())), Some("t o k".to_string()));
    assert_eq!(select_token(None, Some(" \t\n".to_string())), None);
    assert_eq!(select_token(None, None), None);
}

#[test]
fn login_needs_both_credentials() {
    assert_eq!(login_or_missing(true, true), Ok(()));
    assert_eq!(login_or_missing(true, false), Err(LcpError::NoToken));
    assert_eq!(login_or_missing(false, true), Err(LcpError::NoToken));
    assert_eq!(login_or_missing(false, false), Err(LcpError::NoToken));
}

#[test]
fn header_and_prompts() {
    assert_eq!(authorization_header("abc"), "Bearer abc");
    assert_eq!(
        password_prompt("acme-prd", "reader"),
        "Enter database password for project: acme-prd (User: reader)"
    );
    assert_eq!(
        environment_prompt("acme"),
        "Enter environment for project 'acme' (e.g. dev, uat, prd)"
    );
}

#[test]
fn remote_names() {
    assert_eq!(remote_output_filename(1700000000), "lcp_sql_output_1700000000.txt");
    assert_eq!(remote_output_filename(0), "lcp_sql_output_0.txt");
    assert_eq!(remote_output_filename(-5), "lcp_sql_output_-5.txt");
    assert_eq!(remote_output_filename(i64::MIN), format!("lcp_sql_output_{}.txt", i64::MIN));
    assert_eq!(remote_output_filename(i64::MAX), format!("lcp_sql_output_{}.txt", i64::MAX));
    assert_eq!(remote_output_path("a.txt"), "/mnt/persistent-storage/a.txt");
}

// ---- API answer ----

#[test]
fn project_listed_in_response() {
    let body = r#"{"data":{"projects":[{"projectId":"other"},{"projectId":"acme-prd"}]}}"#;
    assert_eq!(validate_project_response(body.as_bytes(), "acme-prd"), Ok(()));
}

#[test]
fn project_missing_from_response() {
    let body = r#"{"data":{"projects":[{"projectId":"other"},{"projectId":7},{}]}}"#;
    let e = validate_project_response(body.as_bytes(), "acme-prd").unwrap_err();
    assert_eq!(e, LcpError::ProjectNotFound { project_id: "acme-prd".to_string() });
    assert_eq!(e.message(), "Project 'acme-prd' not found in Liferay Cloud.");
}

#[test]
fn body_with_invalid_utf8_is_not_json() {
    let mut body = br#"{"data":{"projects":[{"projectId":"a"}]}}"#.to_vec();
    body.insert(1, 0xff);
    assert!(matches!(
        validate_project_response(&body, "a"),
        Err(LcpError::InvalidResponse { .. })
    ));
}

#[test]
fn unreadable_responses() {
    let expected = serde_json::from_slice::<serde_json::Value>(b"not json").unwrap_err().to_string();
    let e = validate_project_response(b"not json", "a").unwrap_err();
    assert_eq!(e, LcpError::InvalidResponse { detail: expected.clone() });
    assert_eq!(e.message(), "error decoding response body");
    assert_eq!(e.cause(), Some(expected));
    assert_eq!(
        validate_project_response(br#"{"data":{}}"#, "a"),
        Err(LcpError::ProjectsUnreadable)
    );
    assert_eq!(
        validate_project_response(br#"{"data":{"projects":{"projectId":"a"}}}"#, "a"),
        Err(LcpError::ProjectsUnreadable)
    );
}

#[test]
fn listing_check() {
    assert_eq!(check_project_listing(None, "a"), Err(LcpError::ProjectsUnreadable));
    assert_eq!(check_project_listing(Some(vec![None, Some("a".to_string())]), "a"), Ok(()));
    assert_eq!(
        check_project_listing(Some(vec![]), "a"),
        Err(LcpError::ProjectNotFound { project_id: "a".to_string() })
    );
}

// ---- download and outcome ----

#[test]
fn download_arguments() {
    assert_eq!(
        download_command_args("acme-prd", "liferay", "out.txt", "/tmp/x"),
        vec!["files", "download", "-p", "acme-prd", "-s", "liferay", "--prefix", "out.txt", "--dest", "/tmp/x"]
    );
}

#[test]
fn downloaded_file_lookup() {
    assert!(is_result_file("out.txt", "out.txt"));
    assert!(!is_result_file("out.txt.part", "out.txt"));
    assert!(!is_result_file("dir", "out.txt"));
    assert_eq!(download_found(true), Ok(()));
    assert_eq!(download_found(false), Err(LcpError::DownloadedFileMissing));
    assert_eq!(download_status(true), Ok(()));
    assert_eq!(download_status(false), Err(LcpError::DownloadFailed));
}

#[test]
fn fetch_outcomes() {
    assert_eq!(fetch_outcome(true, true), FetchOutcome::Saved);
    assert_eq!(fetch_outcome(true, false), FetchOutcome::EmptyResult);
    assert_eq!(fetch_outcome(false, true), FetchOutcome::SqlFailedWithOutput);
    assert_eq!(fetch_outcome(false, false), FetchOutcome::SqlFailedWithoutOutput);
}

#[test]
fn error_messages() {
    assert_eq!(
        LcpError::ExpectNotInstalled.message(),
        "'expect' is not installed or not in PATH. Please install it to use this tool."
    );
    assert_eq!(
        LcpError::InvalidResponse { detail: "x".to_string() }.message(),
        "error decoding response body"
    );
    assert_eq!(LcpError::NoToken.cause(), None);
    assert_eq!(
        LcpError::ProjectsUnreadable.message(),
        "Failed to parse projects from API response"
    );
    assert_eq!(
        LcpError::NoToken.message(),
        "No Liferay Cloud token found. Please run 'lcp login' or set LCP_TOKEN/LCP_EMAIL+LCP_PASSWORD."
    );
    assert_eq!(LcpError::NoHomeDirectory.message(), "Could not find home directory");
    assert_eq!(
        LcpError::DownloadFailed.message(),
        "Failed to download file via 'lcp files download'."
    );
    assert_eq!(
        LcpError::DownloadedFileMissing.message(),
        "Downloaded file not found. The SQL query likely failed to create an output."
    );
    assert_eq!(LcpError::InvalidTempFilePath.message(), "Invalid temp file path");
    assert_eq!(LcpError::InvalidTempDownloadPath.message(), "Invalid temp download path");
    assert_eq!(LcpError::FetchFailed.message(), "Fetch failed due to SQL error.");
}

#[test]
fn default_database_is_psql() {
    assert_eq!(DatabaseType::default(), DatabaseType::Psql);
}

#[test]
fn listing_joined_with_newline() {
    let a = "1 database-0 running\n2 liferay-a stopped";
    let b = "3 liferay-b running";
    let c = "4 liferay-c Running\n";
    for (x, y) in [(a, b), (b, c), (c, b), (a, a), ("", b), (b, "")] {
        let joined = format!("{}\n{}", x, y);
        assert_eq!(
            parse_instance_id_from_list(&joined, "liferay"),
            parse_instance_id_from_list(x, "liferay").or(parse_instance_id_from_list(y, "liferay"))
        );
    }
}

#[test]
fn keywords_survive_joining_scripts() {
    let a = "DROP TABLE T;";
    let b = "SELECT 1; INSERT INTO U VALUES (1);";
    for joined in [format!("{}{}", a, b), format!("{}{}", b, a)] {
        let found = destructive_keywords_in(&joined);
        for k in destructive_keywords_in(a) {
            assert!(found.contains(&k));
        }
        for k in destructive_keywords_in(b) {
            assert!(found.contains(&k));
        }
    }
}
