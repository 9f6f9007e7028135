//! The commands and `expect` scripts that drive the remote shell.
use vstd::prelude::*;

use crate::cli::DatabaseType;
use crate::error::LcpError;
use crate::text::{
    append_joined, chars_of, flat_map_chars, joined, lemma_flat_map_first, occurs_in, push_char,
    views_of,
};

verus! {

/// Where the remote shell keeps files that can be downloaded.
pub open spec fn persistent_storage_dir() -> Seq<char> {
    "/mnt/persistent-storage/"@
}

/// The remote path of a result file.
pub fn remote_output_path(filename: &str) -> (p: String)
    ensures
        p@ == persistent_storage_dir() + filename@,
{
    let mut p = String::new();
    p.append("/mnt/persistent-storage/");
    p.append(filename);
    p
}

/// How one character of a single-quoted shell word is written: a quote
/// closes the word, is escaped, and opens it again.
pub open spec fn shell_quote_char(c: char) -> Seq<char> {
    if c == '\'' {
        seq!['\'', '\\', '\'', '\'']
    } else {
        seq![c]
    }
}

/// `s` prepared to stand between single quotes in a shell command
/// (each `'` becomes `'\''`).
pub open spec fn shell_quoted(s: Seq<char>) -> Seq<char> {
    flat_map_chars(s, |c: char| shell_quote_char(c))
}

/// Prepares `s` to stand between single quotes in a shell command.
pub fn escape_single_quotes(s: &str) -> (r: String)
    ensures
        r@ == shell_quoted(s@),
{
    let chars = chars_of(s);
    let mut r = String::new();
    for i in 0..chars.len()
        invariant
            chars@ == s@,
            r@ == shell_quoted(chars@.take(i as int)),
    {
        let c = chars[i];
        assert(chars@.take(i + 1).drop_last() =~= chars@.take(i as int));
        if c == '\'' {
            push_char(&mut r, '\'');
            push_char(&mut r, '\\');
            push_char(&mut r, '\'');
            push_char(&mut r, '\'');
        } else {
            push_char(&mut r, c);
        }
        assert(r@ =~= shell_quoted(chars@.take(i + 1)));
    }
    assert(chars@.take(chars@.len() as int) =~= chars@);
    r
}

/// How one character is written inside a double-quoted Tcl string:
/// backslash, double quote, dollar sign and brackets get a backslash.
pub open spec fn tcl_escape_char(c: char) -> Seq<char> {
    if c == '\\' || c == '"' || c == '$' || c == '[' || c == ']' {
        seq!['\\', c]
    } else {
        seq![c]
    }
}

/// `s` prepared to stand inside a double-quoted `send` string of the
/// `expect` script.
pub open spec fn tcl_escaped(s: Seq<char>) -> Seq<char> {
    flat_map_chars(s, |c: char| tcl_escape_char(c))
}

/// Prepares the SQL script to stand inside a double-quoted `send` string
/// of the `expect` script.
pub fn escape_for_expect(s: &str) -> (r: String)
    ensures
        r@ == tcl_escaped(s@),
{
    let chars = chars_of(s);
    let mut r = String::new();
    for i in 0..chars.len()
        invariant
            chars@ == s@,
            r@ == tcl_escaped(chars@.take(i as int)),
    {
        let c = chars[i];
        assert(chars@.take(i + 1).drop_last() =~= chars@.take(i as int));
        if c == '\\' || c == '"' || c == '$' || c == '[' || c == ']' {
            push_char(&mut r, '\\');
        }
        push_char(&mut r, c);
        assert(r@ =~= tcl_escaped(chars@.take(i + 1)));
    }
    assert(chars@.take(chars@.len() as int) =~= chars@);
    r
}

/// The command that runs the uploaded script and writes its output to
/// `remote_path`.
pub open spec fn database_command_text(
    db: DatabaseType,
    quoted_password: Seq<char>,
    user: Seq<char>,
    remote_path: Seq<char>,
) -> Seq<char> {
    match db {
        DatabaseType::Psql => "export PGPASSWORD='"@ + quoted_password
            + "' && psql -v ON_ERROR_STOP=1 -U "@ + user + " -d lportal -f /tmp/query.sql > "@
            + remote_path + " 2>&1"@,
        DatabaseType::Mysql => "export MYSQL_PWD='"@ + quoted_password
            + "' && mysql --abort-on-error -u "@ + user + " lportal < /tmp/query.sql > "@
            + remote_path + " 2>&1"@,
    }
}

/// The command that runs the uploaded script; the password is quoted here.
pub fn database_command(db: &DatabaseType, password: &str, user: &str, remote_path: &str) -> (r:
    String)
    ensures
        r@ == database_command_text(*db, shell_quoted(password@), user@, remote_path@),
{
    let quoted = escape_single_quotes(password);
    let mut r = String::new();
    match db {
        DatabaseType::Psql => {
            r.append("export PGPASSWORD='");
            r.append(quoted.as_str());
            r.append("' && psql -v ON_ERROR_STOP=1 -U ");
            r.append(user);
            r.append(" -d lportal -f /tmp/query.sql > ");
            r.append(remote_path);
            r.append(" 2>&1");
        },
        DatabaseType::Mysql => {
            r.append("export MYSQL_PWD='");
            r.append(quoted.as_str());
            r.append("' && mysql --abort-on-error -u ");
            r.append(user);
            r.append(" lportal < /tmp/query.sql > ");
            r.append(remote_path);
            r.append(" 2>&1");
        },
    }
    assert(r@ =~= database_command_text(*db, shell_quoted(password@), user@, remote_path@));
    r
}

/// What running a script on a remote instance needs.
pub struct SqlExecutionContext<'a> {
    pub project_id: &'a str,
    pub service: &'a str,
    pub instance_id: &'a str,
    pub password: &'a str,
    pub sql_content: &'a str,
    pub output_filename: &'a str,
    pub database_type: &'a DatabaseType,
    pub user: &'a str,
    pub verbose: bool,
}

/// The `expect` script that opens a shell on the instance, writes the SQL
/// script to `/tmp/query.sql` through a quoted here-document, runs the
/// database command, and exits with its exit code.
pub open spec fn sql_expect_script_text(
    project_id: Seq<char>,
    service: Seq<char>,
    instance_id: Seq<char>,
    escaped_sql: Seq<char>,
    db_command: Seq<char>,
) -> Seq<char> {
    "#!/usr/bin/expect -f\nset timeout 600\nspawn lcp shell -p "@ + project_id + " -s "@ + service
        + " --instance "@ + instance_id
        + "\nexpect \"$ \"\nsend -- \"cat <<'LCP_SQL_EOF' > /tmp/query.sql\\r\"\nsend -- \""@
        + escaped_sql + "\\r\"\nsend -- \"LCP_SQL_EOF\\r\"\nexpect \"$ \"\nsend -- \""@ + db_command
        + "; echo LCP_EXIT_CODE:\\$? \\r\"\nexpect -re \"LCP_EXIT_CODE:(\\[0-9\\]+)\"\nset exit_code $expect_out(1,string)\nexpect \"$ \"\nsend \"exit\\r\"\nexpect eof\nexit $exit_code\n"@
}

/// The database command that the script for `ctx` runs.
pub open spec fn context_db_command(ctx: &SqlExecutionContext) -> Seq<char> {
    database_command_text(
        *ctx.database_type,
        shell_quoted(ctx.password@),
        ctx.user@,
        persistent_storage_dir() + ctx.output_filename@,
    )
}

/// The `expect` script that runs the SQL script of `ctx` on its instance.
pub fn sql_expect_script(ctx: &SqlExecutionContext) -> (s: String)
    ensures
        s@ == sql_expect_script_text(
            ctx.project_id@,
            ctx.service@,
            ctx.instance_id@,
            tcl_escaped(ctx.sql_content@),
            context_db_command(ctx),
        ),
{
    let remote_path = remote_output_path(ctx.output_filename);
    let db_cmd = database_command(ctx.database_type, ctx.password, ctx.user, remote_path.as_str());
    let escaped = escape_for_expect(ctx.sql_content);
    let mut s = String::new();
    s.append("#!/usr/bin/expect -f\nset timeout 600\nspawn lcp shell -p ");
    s.append(ctx.project_id);
    s.append(" -s ");
    s.append(ctx.service);
    s.append(" --instance ");
    s.append(ctx.instance_id);
    s.append("\nexpect \"$ \"\nsend -- \"cat <<'LCP_SQL_EOF' > /tmp/query.sql\\r\"\nsend -- \"");
    s.append(escaped.as_str());
    s.append("\\r\"\nsend -- \"LCP_SQL_EOF\\r\"\nexpect \"$ \"\nsend -- \"");
    s.append(db_cmd.as_str());
    s.append("; echo LCP_EXIT_CODE:\\$? \\r\"\nexpect -re \"LCP_EXIT_CODE:(\\[0-9\\]+)\"\nset exit_code $expect_out(1,string)\nexpect \"$ \"\nsend \"exit\\r\"\nexpect eof\nexit $exit_code\n");
    assert(s@ =~= sql_expect_script_text(
        ctx.project_id@,
        ctx.service@,
        ctx.instance_id@,
        tcl_escaped(ctx.sql_content@),
        context_db_command(ctx),
    ));
    s
}

/// The `expect` script that removes `files` on the instance.
pub open spec fn cleanup_script_text(
    project_id: Seq<char>,
    service: Seq<char>,
    instance_id: Seq<char>,
    files: Seq<Seq<char>>,
) -> Seq<char> {
    "#!/usr/bin/expect -f\nset timeout 30\nspawn lcp shell -p "@ + project_id + " -s "@ + service
        + " --instance "@ + instance_id + "\nexpect \"$ \"\nsend \"rm "@ + joined(files, " "@)
        + "\\r\"\nexpect \"$ \"\nsend \"exit\\r\"\nexpect eof\n"@
}

/// The `expect` script that removes `files` on the instance.
pub fn cleanup_expect_script(project_id: &str, service: &str, instance_id: &str, files: &[&str]) -> (s:
    String)
    ensures
        s@ == cleanup_script_text(project_id@, service@, instance_id@, views_of(files@)),
{
    let mut s = String::new();
    s.append("#!/usr/bin/expect -f\nset timeout 30\nspawn lcp shell -p ");
    s.append(project_id);
    s.append(" -s ");
    s.append(service);
    s.append(" --instance ");
    s.append(instance_id);
    s.append("\nexpect \"$ \"\nsend \"rm ");
    append_joined(&mut s, files, " ");
    s.append("\\r\"\nexpect \"$ \"\nsend \"exit\\r\"\nexpect eof\n");
    assert(s@ =~= cleanup_script_text(project_id@, service@, instance_id@, views_of(files@)));
    s
}

/// What the exit of the `expect` session that ran the script leads to.
pub fn sql_run_result(success: bool, code: Option<i32>) -> (r: Result<(), LcpError>)
    ensures
        success ==> r is Ok,
        !success ==> r == Err::<(), LcpError>(LcpError::SqlFailed { code }),
{
    if success {
        Ok(())
    } else {
        Err(LcpError::SqlFailed { code })
    }
}

/// The characters that Tcl treats specially inside a double-quoted string.
pub open spec fn tcl_special(c: char) -> bool {
    c == '\\' || c == '"' || c == '$' || c == '[' || c == ']'
}

/// The text that Tcl reads from the inside of a double-quoted string made of
/// ordinary characters and backslash-escaped special characters; `None`
/// when the string holds a special character that would end the string or
/// start a substitution, or a backslash before anything else.
pub open spec fn tcl_literal(s: Seq<char>) -> Option<Seq<char>>
    decreases s.len(),
{
    if s.len() == 0 {
        Some(Seq::empty())
    } else if s[0] == '\\' {
        if s.len() >= 2 && tcl_special(s[1]) {
            match tcl_literal(s.skip(2)) {
                Some(rest) => Some(seq![s[1]] + rest),
                None => None,
            }
        } else {
            None
        }
    } else if tcl_special(s[0]) {
        None
    } else {
        match tcl_literal(s.drop_first()) {
            Some(rest) => Some(seq![s[0]] + rest),
            None => None,
        }
    }
}

/// The SQL script reaches the remote shell unchanged: Tcl reads the escaped
/// text back as the script itself, with no substitution and no early end
/// of the string.
pub proof fn lemma_tcl_escape_round_trip(s: Seq<char>)
    ensures
        tcl_literal(tcl_escaped(s)) == Some(s),
    decreases s.len(),
{
    if s.len() == 0 {
        assert(tcl_escaped(s) =~= Seq::<char>::empty());
    } else {
        let f = |c: char| tcl_escape_char(c);
        lemma_flat_map_first(s, f);
        lemma_tcl_escape_round_trip(s.drop_first());
        let e = tcl_escape_char(s[0]);
        let rest = tcl_escaped(s.drop_first());
        let whole = tcl_escaped(s);
        assert(whole == e + rest);
        if tcl_special(s[0]) {
            assert(whole[0] == '\\');
            assert(whole[1] == s[0]);
            assert(whole.skip(2) =~= rest);
        } else {
            assert(whole[0] == s[0]);
            assert(whole.drop_first() =~= rest);
        }
        assert(seq![s[0]] + s.drop_first() =~= s);
    }
}

/// The value of a shell word made of single-quoted runs and
/// backslash-escaped characters; `quoted` tells whether a single-quoted
/// run is open.
pub open spec fn shell_word(s: Seq<char>, quoted: bool) -> Seq<char>
    decreases s.len(),
{
    if s.len() == 0 {
        Seq::empty()
    } else if s[0] == '\'' {
        shell_word(s.drop_first(), !quoted)
    } else if !quoted && s[0] == '\\' && s.len() >= 2 {
        seq![s[1]] + shell_word(s.skip(2), quoted)
    } else {
        seq![s[0]] + shell_word(s.drop_first(), quoted)
    }
}

proof fn lemma_shell_quoted_run(p: Seq<char>, rest: Seq<char>)
    ensures
        shell_word(shell_quoted(p) + seq!['\''] + rest, true) == p + shell_word(rest, false),
    decreases p.len(),
{
    let q = seq!['\''];
    if p.len() == 0 {
        assert(shell_quoted(p) =~= Seq::<char>::empty());
        let w = shell_quoted(p) + q + rest;
        assert(w[0] == '\'');
        assert(w.drop_first() =~= rest);
        assert(p + shell_word(rest, false) =~= shell_word(rest, false));
    } else {
        let f = |c: char| shell_quote_char(c);
        lemma_flat_map_first(p, f);
        lemma_shell_quoted_run(p.drop_first(), rest);
        let tail = shell_quoted(p.drop_first()) + q + rest;
        let w = shell_quoted(p) + q + rest;
        assert(w =~= shell_quote_char(p[0]) + tail);
        if p[0] == '\'' {
            let w1 = w.drop_first();
            assert(w[0] == '\'');
            assert(w1[0] == '\\' && w1.len() >= 2 && w1[1] == '\'');
            let w2 = w1.skip(2);
            assert(w2[0] == '\'');
            assert(w2.drop_first() =~= tail);
            assert(shell_word(w2, false) == shell_word(tail, true));
            assert(shell_word(w1, false) == seq!['\''] + shell_word(w2, false));
        } else {
            assert(w[0] == p[0]);
            assert(w.drop_first() =~= tail);
        }
        assert(seq![p[0]] + (p.drop_first() + shell_word(rest, false)) =~= p + shell_word(
            rest,
            false,
        ));
    }
}

/// The password reaches the database client unchanged: the shell reads
/// `'` + the quoted password + `'` as the password itself.
pub proof fn lemma_shell_quote_round_trip(p: Seq<char>)
    ensures
        shell_word(seq!['\''] + shell_quoted(p) + seq!['\''], false) == p,
{
    let w = seq!['\''] + shell_quoted(p) + seq!['\''];
    assert(w[0] == '\'');
    assert(w.drop_first() =~= shell_quoted(p) + seq!['\''] + Seq::<char>::empty());
    lemma_shell_quoted_run(p, Seq::<char>::empty());
    assert(p + shell_word(Seq::<char>::empty(), false) =~= p);
}

/// The script runs the client of the database type chosen in the context:
/// for MySQL `export MYSQL_PWD='<password>' && mysql --abort-on-error -u
/// <user> lportal < /tmp/query.sql > <remote result>`, for PostgreSQL
/// `export PGPASSWORD='<password>' && psql -v ON_ERROR_STOP=1 -U <user> -d
/// lportal -f /tmp/query.sql > <remote result>`, each with its output and
/// errors going to the result file under `/mnt/persistent-storage/`.
pub proof fn lemma_script_runs_chosen_database(ctx: &SqlExecutionContext)
    ensures
        *ctx.database_type == DatabaseType::Mysql ==> context_db_command(ctx) == "export MYSQL_PWD='"@
            + shell_quoted(ctx.password@) + "' && mysql --abort-on-error -u "@ + ctx.user@
            + " lportal < /tmp/query.sql > "@ + "/mnt/persistent-storage/"@ + ctx.output_filename@
            + " 2>&1"@,
        *ctx.database_type == DatabaseType::Psql ==> context_db_command(ctx) == "export PGPASSWORD='"@
            + shell_quoted(ctx.password@) + "' && psql -v ON_ERROR_STOP=1 -U "@ + ctx.user@
            + " -d lportal -f /tmp/query.sql > "@ + "/mnt/persistent-storage/"@
            + ctx.output_filename@ + " 2>&1"@,
{
    assert(context_db_command(ctx) =~= database_command_text(
        *ctx.database_type,
        shell_quoted(ctx.password@),
        ctx.user@,
        "/mnt/persistent-storage/"@ + ctx.output_filename@,
    ));
    if *ctx.database_type == DatabaseType::Mysql {
        assert(context_db_command(ctx) =~= "export MYSQL_PWD='"@ + shell_quoted(ctx.password@)
            + "' && mysql --abort-on-error -u "@ + ctx.user@ + " lportal < /tmp/query.sql > "@
            + "/mnt/persistent-storage/"@ + ctx.output_filename@ + " 2>&1"@);
    } else {
        assert(context_db_command(ctx) =~= "export PGPASSWORD='"@ + shell_quoted(ctx.password@)
            + "' && psql -v ON_ERROR_STOP=1 -U "@ + ctx.user@ + " -d lportal -f /tmp/query.sql > "@
            + "/mnt/persistent-storage/"@ + ctx.output_filename@ + " 2>&1"@);
    }
}

proof fn lemma_occurs_between(a: Seq<char>, x: Seq<char>, b: Seq<char>)
    ensures
        occurs_in(a + x + b, x),
{
    let w = a + x + b;
    assert(w.subrange(a.len() as int, (a.len() + x.len()) as int) =~= x);
}

/// The script carries the target, the escaped SQL script and the database
/// command it was built from: each of them occurs in its text.
pub proof fn lemma_script_carries_its_parts(
    project_id: Seq<char>,
    service: Seq<char>,
    instance_id: Seq<char>,
    escaped_sql: Seq<char>,
    db_command: Seq<char>,
)
    ensures
        occurs_in(sql_expect_script_text(project_id, service, instance_id, escaped_sql, db_command), project_id),
        occurs_in(sql_expect_script_text(project_id, service, instance_id, escaped_sql, db_command), service),
        occurs_in(sql_expect_script_text(project_id, service, instance_id, escaped_sql, db_command), instance_id),
        occurs_in(sql_expect_script_text(project_id, service, instance_id, escaped_sql, db_command), escaped_sql),
        occurs_in(sql_expect_script_text(project_id, service, instance_id, escaped_sql, db_command), db_command),
{
    let t = sql_expect_script_text(project_id, service, instance_id, escaped_sql, db_command);
    let p0 = "#!/usr/bin/expect -f\nset timeout 600\nspawn lcp shell -p "@;
    let p1 = p0 + project_id + " -s "@;
    let p2 = p1 + service + " --instance "@;
    let p3 = p2 + instance_id
        + "\nexpect \"$ \"\nsend -- \"cat <<'LCP_SQL_EOF' > /tmp/query.sql\\r\"\nsend -- \""@;
    let p4 = p3 + escaped_sql + "\\r\"\nsend -- \"LCP_SQL_EOF\\r\"\nexpect \"$ \"\nsend -- \""@;
    let tail = "; echo LCP_EXIT_CODE:\\$? \\r\"\nexpect -re \"LCP_EXIT_CODE:(\\[0-9\\]+)\"\nset exit_code $expect_out(1,string)\nexpect \"$ \"\nsend \"exit\\r\"\nexpect eof\nexit $exit_code\n"@;
    assert(t =~= p4 + db_command + tail);
    lemma_occurs_between(p4, db_command, tail);
    assert(t =~= p3 + escaped_sql + (t.subrange((p3.len() + escaped_sql.len()) as int, t.len() as int)));
    lemma_occurs_between(p3, escaped_sql, t.subrange((p3.len() + escaped_sql.len()) as int, t.len() as int));
    assert(t =~= p2 + instance_id + (t.subrange((p2.len() + instance_id.len()) as int, t.len() as int)));
    lemma_occurs_between(p2, instance_id, t.subrange((p2.len() + instance_id.len()) as int, t.len() as int));
    assert(t =~= p1 + service + (t.subrange((p1.len() + service.len()) as int, t.len() as int)));
    lemma_occurs_between(p1, service, t.subrange((p1.len() + service.len()) as int, t.len() as int));
    assert(t =~= p0 + project_id + (t.subrange((p0.len() + project_id.len()) as int, t.len() as int)));
    lemma_occurs_between(p0, project_id, t.subrange((p0.len() + project_id.len()) as int, t.len() as int));
}

/// The cleanup script opens a shell on the given instance and removes
/// exactly the files given: the `rm` line names them, separated by spaces.
pub proof fn lemma_cleanup_removes_given_files(
    project_id: Seq<char>,
    service: Seq<char>,
    instance_id: Seq<char>,
    files: Seq<Seq<char>>,
)
    ensures
        occurs_in(cleanup_script_text(project_id, service, instance_id, files), "send \"rm "@ + joined(files, " "@) + "\\r\""@),
        occurs_in(cleanup_script_text(project_id, service, instance_id, files), project_id),
        occurs_in(cleanup_script_text(project_id, service, instance_id, files), instance_id),
{
    let t = cleanup_script_text(project_id, service, instance_id, files);
    let p0 = "#!/usr/bin/expect -f\nset timeout 30\nspawn lcp shell -p "@;
    let p2 = p0 + project_id + " -s "@ + service + " --instance "@;
    let p3 = p2 + instance_id;
    reveal_strlit("\nexpect \"$ \"\nsend \"rm ");
    reveal_strlit("send \"rm ");
    reveal_strlit("\\r\"\nexpect \"$ \"\nsend \"exit\\r\"\nexpect eof\n");
    reveal_strlit("\\r\"");
    reveal_strlit("\nexpect \"$ \"\n");
    reveal_strlit("\nexpect \"$ \"\nsend \"exit\\r\"\nexpect eof\n");
    assert("\nexpect \"$ \"\nsend \"rm "@ =~= "\nexpect \"$ \"\n"@ + "send \"rm "@);
    assert("\\r\"\nexpect \"$ \"\nsend \"exit\\r\"\nexpect eof\n"@ =~= "\\r\""@
        + "\nexpect \"$ \"\nsend \"exit\\r\"\nexpect eof\n"@);
    let mid = "send \"rm "@ + joined(files, " "@) + "\\r\""@;
    assert(t =~= (p3 + "\nexpect \"$ \"\n"@) + mid + "\nexpect \"$ \"\nsend \"exit\\r\"\nexpect eof\n"@);
    lemma_occurs_between(p3 + "\nexpect \"$ \"\n"@, mid, "\nexpect \"$ \"\nsend \"exit\\r\"\nexpect eof\n"@);
    assert(t =~= p2 + instance_id + t.subrange((p2.len() + instance_id.len()) as int, t.len() as int));
    lemma_occurs_between(p2, instance_id, t.subrange((p2.len() + instance_id.len()) as int, t.len() as int));
    assert(t =~= p0 + project_id + t.subrange((p0.len() + project_id.len()) as int, t.len() as int));
    lemma_occurs_between(p0, project_id, t.subrange((p0.len() + project_id.len()) as int, t.len() as int));
}

} // verus!
