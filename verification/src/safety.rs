//! The guard against scripts that modify data.
use vstd::prelude::*;

use crate::error::LcpError;
use crate::text::{append_joined, chars_of, contains_chars, joined, occurs_in, views_of};
use crate::unicode::{to_uppercase, uppercase};

verus! {

/// The keywords that mark a script as possibly destructive, in the order
/// in which they are reported.
pub open spec fn destructive_keywords() -> Seq<Seq<char>> {
    seq![
        "UPDATE"@,
        "DELETE"@,
        "DROP"@,
        "TRUNCATE"@,
        "ALTER"@,
        "GRANT"@,
        "REVOKE"@,
        "INSERT"@,
    ]
}

/// The keywords among `keywords` that occur in `text`, in order.
pub open spec fn keywords_in(keywords: Seq<Seq<char>>, text: Seq<char>) -> Seq<Seq<char>>
    decreases keywords.len(),
{
    if keywords.len() == 0 {
        Seq::empty()
    } else {
        let before = keywords_in(keywords.drop_last(), text);
        if occurs_in(text, keywords.last()) {
            before.push(keywords.last())
        } else {
            before
        }
    }
}

/// The destructive keywords that occur in the uppercased script `upper`.
pub open spec fn destructive_keywords_found(upper: Seq<char>) -> Seq<Seq<char>> {
    keywords_in(destructive_keywords(), upper)
}

/// The outcome of the safety check on a script.
#[derive(Debug, PartialEq, Eq)]
pub enum SqlSafety {
    /// The script may run without asking.
    Allowed,
    /// The script holds these keywords; the user must confirm before it runs.
    NeedsConfirmation(Vec<&'static str>),
}

/// The `i`-th destructive keyword.
pub fn destructive_keyword(i: usize) -> (k: &'static str)
    requires
        i < 8,
    ensures
        k@ == destructive_keywords()[i as int],
{
    match i {
        0 => "UPDATE",
        1 => "DELETE",
        2 => "DROP",
        3 => "TRUNCATE",
        4 => "ALTER",
        5 => "GRANT",
        6 => "REVOKE",
        _ => "INSERT",
    }
}

/// The destructive keywords that occur in `upper_sql` (a script already
/// uppercased), in the order of the keyword list.
pub fn destructive_keywords_in(upper_sql: &str) -> (found: Vec<&'static str>)
    ensures
        views_of(found@) == destructive_keywords_found(upper_sql@),
{
    let text = chars_of(upper_sql);
    let mut found: Vec<&'static str> = Vec::new();
    let ghost all = destructive_keywords();
    assert(all.len() == 8);
    for i in 0..8usize
        invariant
            text@ == upper_sql@,
            all == destructive_keywords(),
            all.len() == 8,
            views_of(found@) == keywords_in(all.take(i as int), upper_sql@),
    {
        let kw = destructive_keyword(i);
        let kw_chars = chars_of(kw);
        assert(all.take(i + 1).drop_last() =~= all.take(i as int));
        assert(all.take(i + 1).last() == all[i as int]);
        if contains_chars(&text, &kw_chars) {
            found.push(kw);
            assert(views_of(found@) =~= views_of(found@.drop_last()).push(kw@));
        }
    }
    assert(all.take(8) =~= all);
    found
}

/// Checks a script before it runs. With `force` it always may run; without,
/// it needs the user's confirmation exactly when its uppercased text holds
/// one of the destructive keywords, and the outcome lists them.
pub fn check_destructive_sql(sql: &str, force: bool) -> (r: SqlSafety)
    ensures
        force ==> r is Allowed,
        !force ==> match r {
            SqlSafety::Allowed => destructive_keywords_found(uppercase(sql@)).len() == 0,
            SqlSafety::NeedsConfirmation(found) => {
                &&& destructive_keywords_found(uppercase(sql@)).len() > 0
                &&& views_of(found@) == destructive_keywords_found(uppercase(sql@))
            },
        },
{
    if force {
        return SqlSafety::Allowed;
    }
    let upper = to_uppercase(sql);
    let found = destructive_keywords_in(upper.as_str());
    if found.len() == 0 {
        SqlSafety::Allowed
    } else {
        SqlSafety::NeedsConfirmation(found)
    }
}

/// What the user's answer to the confirmation prompt leads to.
pub fn confirmation_result(confirmed: bool) -> (r: Result<(), LcpError>)
    ensures
        confirmed ==> r is Ok,
        !confirmed ==> r == Err::<(), LcpError>(LcpError::OperationCancelled),
{
    if confirmed {
        Ok(())
    } else {
        Err(LcpError::OperationCancelled)
    }
}

/// The keyword list shown in the warning: the keywords joined by `", "`.
pub fn keyword_list(found: &[&str]) -> (s: String)
    ensures
        s@ == joined(views_of(found@), ", "@),
{
    let mut s = String::new();
    append_joined(&mut s, found, ", ");
    s
}

/// A keyword of the list that occurs in the text is reported.
pub proof fn lemma_keyword_reported(keywords: Seq<Seq<char>>, text: Seq<char>, k: int)
    requires
        0 <= k < keywords.len(),
        occurs_in(text, keywords[k]),
    ensures
        keywords_in(keywords, text).contains(keywords[k]),
    decreases keywords.len(),
{
    let found = keywords_in(keywords, text);
    if k == keywords.len() - 1 {
        assert(found.last() == keywords[k]);
        assert(found[found.len() - 1] == keywords[k]);
    } else {
        lemma_keyword_reported(keywords.drop_last(), text, k);
        let before = keywords_in(keywords.drop_last(), text);
        let i = choose|i: int| 0 <= i < before.len() && before[i] == keywords[k];
        assert(found[i] == keywords[k]);
    }
}

/// Only keywords that occur in the text are reported.
pub proof fn lemma_reported_keyword_occurs(keywords: Seq<Seq<char>>, text: Seq<char>, i: int)
    requires
        0 <= i < keywords_in(keywords, text).len(),
    ensures
        occurs_in(text, keywords_in(keywords, text)[i]),
        keywords.contains(keywords_in(keywords, text)[i]),
    decreases keywords.len(),
{
    let before = keywords_in(keywords.drop_last(), text);
    if i < before.len() {
        lemma_reported_keyword_occurs(keywords.drop_last(), text, i);
        let j = choose|j: int| 0 <= j < keywords.drop_last().len() && keywords.drop_last()[j] == before[i];
        assert(keywords[j] == before[i]);
    } else {
        assert(keywords[keywords.len() - 1] == keywords.last());
    }
}

/// Without `--force`, a script whose uppercased text holds any of the
/// destructive keywords (UPDATE, DELETE, DROP, ...) is never run without
/// the user's confirmation; with `--force` the check never stops a script.
pub proof fn lemma_destructive_sql_needs_confirmation(sql: Seq<char>, k: int)
    requires
        0 <= k < destructive_keywords().len(),
        occurs_in(uppercase(sql), destructive_keywords()[k]),
    ensures
        destructive_keywords_found(uppercase(sql)).len() > 0,
        destructive_keywords_found(uppercase(sql)).contains(destructive_keywords()[k]),
{
    lemma_keyword_reported(destructive_keywords(), uppercase(sql), k);
}

/// Text that occurs in `x` occurs in `x` with anything put before or after it.
pub proof fn lemma_occurs_in_concat(x: Seq<char>, y: Seq<char>, needle: Seq<char>)
    requires
        occurs_in(x, needle),
    ensures
        occurs_in(x + y, needle),
        occurs_in(y + x, needle),
{
    let i = choose|i: int|
        0 <= i && i + needle.len() <= x.len() && #[trigger] x.subrange(i, i + needle.len())
            == needle;
    assert((x + y).subrange(i, i + needle.len()) =~= x.subrange(i, i + needle.len()));
    let j = i + y.len();
    assert((y + x).subrange(j, j + needle.len()) =~= x.subrange(i, i + needle.len()));
}

/// Keyword detection survives joining texts: every keyword found in the
/// uppercased text `x` is also found in `x + y` and in `y + x`.
pub proof fn lemma_keywords_survive_concat(x: Seq<char>, y: Seq<char>, i: int)
    requires
        0 <= i < destructive_keywords_found(x).len(),
    ensures
        destructive_keywords_found(x + y).contains(destructive_keywords_found(x)[i]),
        destructive_keywords_found(y + x).contains(destructive_keywords_found(x)[i]),
{
    let kws = destructive_keywords();
    let k = destructive_keywords_found(x)[i];
    lemma_reported_keyword_occurs(kws, x, i);
    let j = choose|j: int| 0 <= j < kws.len() && kws[j] == k;
    lemma_occurs_in_concat(x, y, k);
    lemma_keyword_reported(kws, x + y, j);
    lemma_keyword_reported(kws, y + x, j);
}

proof fn lemma_keyword_found_iff(upper: Seq<char>, k: int)
    requires
        0 <= k < destructive_keywords().len(),
    ensures
        occurs_in(upper, destructive_keywords()[k]) <==> destructive_keywords_found(upper).contains(
            destructive_keywords()[k],
        ),
{
    let kws = destructive_keywords();
    let found = destructive_keywords_found(upper);
    if occurs_in(upper, kws[k]) {
        lemma_keyword_reported(kws, upper, k);
    }
    if found.contains(kws[k]) {
        let i = choose|i: int| 0 <= i < found.len() && found[i] == kws[k];
        lemma_reported_keyword_occurs(kws, upper, i);
    }
}

/// The guard's keywords, spelled out: each of UPDATE, DELETE, DROP,
/// TRUNCATE, ALTER, GRANT, REVOKE and INSERT is reported for the uppercased
/// script exactly when it occurs in it, and nothing else is ever reported.
pub proof fn lemma_guard_keywords(upper: Seq<char>)
    ensures
        occurs_in(upper, "UPDATE"@) <==> destructive_keywords_found(upper).contains("UPDATE"@),
        occurs_in(upper, "DELETE"@) <==> destructive_keywords_found(upper).contains("DELETE"@),
        occurs_in(upper, "DROP"@) <==> destructive_keywords_found(upper).contains("DROP"@),
        occurs_in(upper, "TRUNCATE"@) <==> destructive_keywords_found(upper).contains("TRUNCATE"@),
        occurs_in(upper, "ALTER"@) <==> destructive_keywords_found(upper).contains("ALTER"@),
        occurs_in(upper, "GRANT"@) <==> destructive_keywords_found(upper).contains("GRANT"@),
        occurs_in(upper, "REVOKE"@) <==> destructive_keywords_found(upper).contains("REVOKE"@),
        occurs_in(upper, "INSERT"@) <==> destructive_keywords_found(upper).contains("INSERT"@),
        forall|i: int|
            0 <= i < destructive_keywords_found(upper).len() ==> {
                let k = #[trigger] destructive_keywords_found(upper)[i];
                &&& occurs_in(upper, k)
                &&& (k == "UPDATE"@ || k == "DELETE"@ || k == "DROP"@ || k == "TRUNCATE"@ || k
                    == "ALTER"@ || k == "GRANT"@ || k == "REVOKE"@ || k == "INSERT"@)
            },
{
    lemma_keyword_found_iff(upper, 0);
    lemma_keyword_found_iff(upper, 1);
    lemma_keyword_found_iff(upper, 2);
    lemma_keyword_found_iff(upper, 3);
    lemma_keyword_found_iff(upper, 4);
    lemma_keyword_found_iff(upper, 5);
    lemma_keyword_found_iff(upper, 6);
    lemma_keyword_found_iff(upper, 7);
    assert forall|i: int| 0 <= i < destructive_keywords_found(upper).len() implies {
        let k = #[trigger] destructive_keywords_found(upper)[i];
        &&& occurs_in(upper, k)
        &&& (k == "UPDATE"@ || k == "DELETE"@ || k == "DROP"@ || k == "TRUNCATE"@ || k == "ALTER"@
            || k == "GRANT"@ || k == "REVOKE"@ || k == "INSERT"@)
    } by {
        lemma_reported_keyword_occurs(destructive_keywords(), upper, i);
    }
}

/// Without `--force`, a script whose uppercased text holds DELETE (or any
/// other of the guard's keywords) is never run unconfirmed: the check asks
/// for confirmation and lists the keyword.
pub proof fn lemma_delete_needs_confirmation(sql: Seq<char>)
    requires
        occurs_in(uppercase(sql), "DELETE"@),
    ensures
        destructive_keywords_found(uppercase(sql)).len() > 0,
        destructive_keywords_found(uppercase(sql)).contains("DELETE"@),
{
    lemma_guard_keywords(uppercase(sql));
}

} // verus!
