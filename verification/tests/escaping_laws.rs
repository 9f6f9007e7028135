use lcp_sql_fetch::scripts::{escape_for_expect, escape_single_quotes};

/// Reads a shell word made of single-quoted runs and backslash escapes.
fn shell_word(w: &str) -> String {
    let mut out = String::new();
    let mut quoted = false;
    let mut it = w.chars().peekable();
    while let Some(c) = it.next() {
        if c == '\'' {
            quoted = !quoted;
        } else if !quoted && c == '\\' && it.peek().is_some() {
            out.push(it.next().unwrap());
        } else {
            out.push(c);
        }
    }
    out
}

/// Reads the inside of a double-quoted Tcl string with escaped specials.
fn tcl_literal(s: &str) -> Option<String> {
    let special = |c: char| matches!(c, '\\' | '"' | '$' | '[' | ']');
    let mut out = String::new();
    let mut it = s.chars();
    while let Some(c) = it.next() {
        if c == '\\' {
            match it.next() {
                Some(d) if special(d) => out.push(d),
                _ => return None,
            }
        } else if special(c) {
            return None;
        } else {
            out.push(c);
        }
    }
    Some(out)
}

#[test]
fn password_survives_shell_quoting() {
    for p in ["", "plain", "it's", "''", "a'b'c", "$HOME \\ \"x\""] {
        let word = format!("'{}'", escape_single_quotes(p));
        assert_eq!(shell_word(&word), p);
    }
}

#[test]
fn sql_survives_tcl_escaping() {
    for s in ["", "select 1;", "a\\b\"c$d[e]f", "WHERE x = '[$]'\n", "\\\\"] {
        assert_eq!(tcl_literal(&escape_for_expect(s)), Some(s.to_string()));
    }
    assert_eq!(tcl_literal("a$b"), None);
}
