//! Finding the running instance of a service in the listing that
//! `lcp shell` prints before it asks which instance to open.
use vstd::prelude::*;

use crate::text::{chars_of, is_white_space, is_whitespace, matches_at, starts_with_chars, string_from_chars};
use crate::error::LcpError;
use crate::unicode::{from_utf8_lossy, lowercase, to_lowercase, utf8_lossy};

verus! {

/// Splits `s` at line feeds: the finished lines, and the text after the last
/// line feed.
pub open spec fn line_split(s: Seq<char>) -> (Seq<Seq<char>>, Seq<char>)
    decreases s.len(),
{
    if s.len() == 0 {
        (Seq::empty(), Seq::empty())
    } else {
        let (done, cur) = line_split(s.drop_last());
        if s.last() == '\n' {
            (done.push(cur), Seq::empty())
        } else {
            (done, cur.push(s.last()))
        }
    }
}

/// The lines of `s` (`str::lines`): split at each line feed, with no empty
/// line after a final line feed. A carriage return before a line feed stays
/// in its line here; it is whitespace, so the fields of the line are those
/// of the line without it.
pub open spec fn lines_of(s: Seq<char>) -> Seq<Seq<char>> {
    let (done, cur) = line_split(s);
    if cur.len() == 0 {
        done
    } else {
        done.push(cur)
    }
}

/// Splits `s` at whitespace: the finished fields, and the field being read.
pub open spec fn field_split(s: Seq<char>) -> (Seq<Seq<char>>, Seq<char>)
    decreases s.len(),
{
    if s.len() == 0 {
        (Seq::empty(), Seq::empty())
    } else {
        let (done, cur) = field_split(s.drop_last());
        if is_white_space(s.last()) {
            if cur.len() > 0 {
                (done.push(cur), Seq::empty())
            } else {
                (done, Seq::empty())
            }
        } else {
            (done, cur.push(s.last()))
        }
    }
}

/// The whitespace-separated fields of `s` (`str::split_whitespace`).
pub open spec fn fields_of(s: Seq<char>) -> Seq<Seq<char>> {
    let (done, cur) = field_split(s);
    if cur.len() == 0 {
        done
    } else {
        done.push(cur)
    }
}

/// A listing row names a running instance of `service`: it has at least
/// three fields, the second starts with the service name and the third,
/// lowercased, is `running`.
pub open spec fn is_running_row(fields: Seq<Seq<char>>, service: Seq<char>) -> bool {
    &&& fields.len() >= 3
    &&& service.is_prefix_of(fields[1])
    &&& lowercase(fields[2]) == "running"@
}

/// The instance named by the first row among `lines` that names a running
/// instance of `service`.
pub open spec fn first_running_instance(lines: Seq<Seq<char>>, service: Seq<char>) -> Option<
    Seq<char>,
>
    decreases lines.len(),
{
    if lines.len() == 0 {
        None
    } else {
        match first_running_instance(lines.drop_last(), service) {
            Some(id) => Some(id),
            None => {
                let fields = fields_of(lines.last());
                if is_running_row(fields, service) {
                    Some(fields[1])
                } else {
                    None
                }
            },
        }
    }
}

/// The character views of a vector of character vectors.
pub open spec fn rows_of(v: Seq<Vec<char>>) -> Seq<Seq<char>> {
    v.map_values(|w: Vec<char>| w@)
}

/// Tells whether two character sequences are equal.
pub fn equal_chars(a: &[char], b: &[char]) -> (r: bool)
    ensures
        r == (a@ == b@),
{
    if a.len() != b.len() {
        return false;
    }
    let r = matches_at(a, b, 0);
    assert(a@.subrange(0, b@.len() as int) =~= a@);
    r
}

/// Tells whether the fields of one listing row name a running instance of
/// `service`.
pub fn row_names_running_instance(fields: &Vec<Vec<char>>, service: &[char]) -> (b: bool)
    ensures
        b == is_running_row(rows_of(fields@), service@),
{
    if fields.len() < 3 {
        return false;
    }
    if !starts_with_chars(&fields[1], service) {
        return false;
    }
    let status = string_from_chars(&fields[2]);
    let lower = to_lowercase(status.as_str());
    is_running_status(lower.as_str())
}

/// Tells whether a lowercased status field reads `running`.
pub fn is_running_status(lowered: &str) -> (b: bool)
    ensures
        b == (lowered@ == "running"@),
{
    let lower_chars = chars_of(lowered);
    let running = chars_of("running");
    equal_chars(&lower_chars, &running)
}

proof fn lemma_fields_empty(s: Seq<char>)
    requires
        s.len() == 0,
    ensures
        fields_of(s).len() == 0,
{
}

proof fn lemma_line_split_step(s: Seq<char>)
    ensures
        line_split(s).0.is_prefix_of(lines_of(s)),
{
}

proof fn lemma_line_split_prefix(s: Seq<char>, j: int)
    requires
        0 <= j <= s.len(),
    ensures
        line_split(s.take(j)).0.is_prefix_of(line_split(s).0),
    decreases s.len() - j,
{
    if j == s.len() {
        assert(s.take(j) =~= s);
    } else {
        let d = s.drop_last();
        assert(d.take(j) =~= s.take(j));
        lemma_line_split_prefix(d, j);
        assert(line_split(d).0.is_prefix_of(line_split(s).0));
    }
}

proof fn lemma_first_running_extends(all: Seq<Seq<char>>, k: int, service: Seq<char>)
    requires
        0 <= k <= all.len(),
        first_running_instance(all.take(k), service) is Some,
    ensures
        first_running_instance(all, service) == first_running_instance(all.take(k), service),
    decreases all.len() - k,
{
    if k == all.len() {
        assert(all.take(k) =~= all);
    } else {
        let d = all.drop_last();
        assert(d.take(k) =~= all.take(k));
        lemma_first_running_extends(d, k, service);
    }
}

/// The line-level result is settled once a prefix of the input settles it.
proof fn lemma_settled(s: Seq<char>, i: int, service: Seq<char>)
    requires
        0 <= i <= s.len(),
        first_running_instance(line_split(s.take(i)).0, service) is Some,
    ensures
        first_running_instance(lines_of(s), service) == first_running_instance(
            line_split(s.take(i)).0,
            service,
        ),
{
    let p = line_split(s.take(i)).0;
    lemma_line_split_prefix(s, i);
    lemma_line_split_step(s);
    let all = lines_of(s);
    assert(p.is_prefix_of(all));
    assert(all.take(p.len() as int) =~= p);
    lemma_first_running_extends(all, p.len() as int, service);
}

/// Returns the instance ID from the first line of `input` whose fields name a
/// running instance of `service`: at least three whitespace-separated fields,
/// the second starting with `service`, the third `running` in any case.
pub fn parse_instance_id_from_list(input: &str, service: &str) -> (r: Option<String>)
    ensures
        match r {
            Some(id) => first_running_instance(lines_of(input@), service@) == Some(id@),
            None => first_running_instance(lines_of(input@), service@) is None,
        },
{
    let chars = chars_of(input);
    let svc = chars_of(service);
    let mut fields: Vec<Vec<char>> = Vec::new();
    let mut field: Vec<char> = Vec::new();
    let n = chars.len();
    let mut i: usize = 0;
    while i < n
        invariant
            i <= n,
            n == chars@.len(),
            chars@ == input@,
            svc@ == service@,
            first_running_instance(line_split(chars@.take(i as int)).0, svc@) is None,
            field_split(line_split(chars@.take(i as int)).1) == (rows_of(fields@), field@),
        decreases n - i,
    {
        let ghost prefix = chars@.take(i as int);
        let ghost next = chars@.take(i + 1);
        assert(next.drop_last() =~= prefix);
        let ghost done = line_split(prefix).0;
        let ghost cur = line_split(prefix).1;
        let c = chars[i];
        assert(next.last() == c);
        if c == '\n' {
            if field.len() > 0 {
                fields.push(field);
                field = Vec::new();
            }
            assert(rows_of(fields@) =~= fields_of(cur));
            assert(line_split(next).0 =~= done.push(cur));
            assert(done.push(cur).drop_last() =~= done);
            if row_names_running_instance(&fields, &svc) {
                let id = string_from_chars(&fields[1]);
                proof {
                    assert(first_running_instance(line_split(next).0, svc@) == Some(id@));
                    lemma_settled(chars@, i + 1, svc@);
                }
                return Some(id);
            }
            fields = Vec::new();
            assert(rows_of(fields@) =~= Seq::<Seq<char>>::empty());
        } else if is_whitespace(c) {
            if field.len() > 0 {
                fields.push(field);
                field = Vec::new();
            }
            assert(cur.push(c).drop_last() =~= cur);
            assert(rows_of(fields@) =~= field_split(cur.push(c)).0);
        } else {
            field.push(c);
            assert(cur.push(c).drop_last() =~= cur);
            assert(rows_of(fields@) =~= field_split(cur.push(c)).0);
        }
        i += 1;
    }
    assert(chars@.take(n as int) =~= chars@);
    let ghost cur = line_split(chars@).1;
    if field.len() > 0 {
        fields.push(field);
    }
    assert(rows_of(fields@) =~= fields_of(cur));
    if row_names_running_instance(&fields, &svc) {
        proof {
            if cur.len() == 0 {
                lemma_fields_empty(cur);
            }
        }
        let id = string_from_chars(&fields[1]);
        assert(lines_of(chars@).drop_last() =~= line_split(chars@).0);
        return Some(id);
    }
    proof {
        let done = line_split(chars@).0;
        if cur.len() > 0 {
            assert(done.push(cur).drop_last() =~= done);
            assert(lines_of(chars@) == done.push(cur));
        }
    }
    None
}

/// Finds the running instance in what `lcp shell` printed for `project_id`
/// and `service`, or reports that there is none.
pub fn running_instance_from_output(stdout: &[u8], project_id: &str, service: &str) -> (r: Result<
    String,
    LcpError,
>)
    ensures
        match r {
            Ok(id) => first_running_instance(lines_of(utf8_lossy(stdout@)), service@) == Some(id@),
            Err(e) => {
                &&& first_running_instance(lines_of(utf8_lossy(stdout@)), service@) is None
                &&& e matches LcpError::InstanceNotFound { service: s, project_id: p }
                &&& s@ == service@
                &&& p@ == project_id@
            },
        },
{
    let text = from_utf8_lossy(stdout);
    match parse_instance_id_from_list(text.as_str(), service) {
        Some(id) => Ok(id),
        None => Err(
            LcpError::InstanceNotFound {
                service: service.to_owned(),
                project_id: project_id.to_owned(),
            },
        ),
    }
}

/// An instance that the listing yields is named in its row's second field
/// and starts with the service name.
pub proof fn lemma_found_instance_belongs_to_service(lines: Seq<Seq<char>>, service: Seq<char>)
    ensures
        first_running_instance(lines, service) matches Some(id) ==> service.is_prefix_of(id),
    decreases lines.len(),
{
    if lines.len() > 0 {
        lemma_found_instance_belongs_to_service(lines.drop_last(), service);
    }
}

proof fn lemma_line_split_after_newline(s: Seq<char>, t: Seq<char>)
    ensures
        line_split(s + seq!['\n'] + t) == (
            line_split(s).0.push(line_split(s).1) + line_split(t).0,
            line_split(t).1,
        ),
    decreases t.len(),
{
    let d = line_split(s).0.push(line_split(s).1);
    if t.len() == 0 {
        let w = s + seq!['\n'] + t;
        assert(w.drop_last() =~= s);
        assert(w.last() == '\n');
        assert(d + line_split(t).0 =~= d);
    } else {
        let w = s + seq!['\n'] + t;
        assert(w.drop_last() =~= s + seq!['\n'] + t.drop_last());
        assert(w.last() == t.last());
        lemma_line_split_after_newline(s, t.drop_last());
        let (l0, l1) = line_split(t.drop_last());
        if t.last() == '\n' {
            assert((d + l0).push(l1) =~= d + l0.push(l1));
        }
    }
}

proof fn lemma_first_running_concat(p: Seq<Seq<char>>, q: Seq<Seq<char>>, service: Seq<char>)
    ensures
        first_running_instance(p + q, service) == match first_running_instance(p, service) {
            Some(id) => Some(id),
            None => first_running_instance(q, service),
        },
    decreases q.len(),
{
    if q.len() == 0 {
        assert(p + q =~= p);
    } else {
        assert((p + q).drop_last() =~= p + q.drop_last());
        assert((p + q).last() == q.last());
        lemma_first_running_concat(p, q.drop_last(), service);
    }
}

/// Joining two listings with a line feed gives the first listing's instance
/// when it names one, else the second's.
pub proof fn lemma_listing_concat(a: Seq<char>, b: Seq<char>, service: Seq<char>)
    ensures
        first_running_instance(lines_of(a + seq!['\n'] + b), service) == match first_running_instance(
            lines_of(a),
            service,
        ) {
            Some(id) => Some(id),
            None => first_running_instance(lines_of(b), service),
        },
{
    let (done, cur) = line_split(a);
    let d = done.push(cur);
    lemma_line_split_after_newline(a, b);
    let (l0, l1) = line_split(b);
    if l1.len() == 0 {
        assert(lines_of(a + seq!['\n'] + b) == d + l0);
    } else {
        assert(lines_of(a + seq!['\n'] + b) =~= d + l0.push(l1));
    }
    lemma_first_running_concat(d, lines_of(b), service);
    assert(d.drop_last() =~= done);
    if cur.len() == 0 {
        lemma_fields_empty(cur);
    } else {
        assert(lines_of(a) == d);
    }
}

/// A row is a running row exactly when it has at least three fields, the
/// second starts with the service name and the third lowercases to
/// `running`, whatever fields follow the third.
pub proof fn lemma_running_row_conditions(fields: Seq<Seq<char>>, service: Seq<char>)
    ensures
        is_running_row(fields, service) <==> (fields.len() >= 3 && fields[1].len() >= service.len()
            && fields[1].subrange(0, service.len() as int) == service && lowercase(fields[2])
            == "running"@),
{
}

proof fn lemma_field_split_word(w: Seq<char>)
    requires
        forall|k: int| 0 <= k < w.len() ==> !is_white_space(#[trigger] w[k]),
    ensures
        field_split(w) == (Seq::<Seq<char>>::empty(), w),
    decreases w.len(),
{
    if w.len() > 0 {
        lemma_field_split_word(w.drop_last());
        assert(w.drop_last().push(w.last()) =~= w);
    }
}

proof fn lemma_field_split_concat(p: Seq<char>, t: Seq<char>)
    requires
        field_split(p).1.len() == 0,
    ensures
        field_split(p + t) == (field_split(p).0 + field_split(t).0, field_split(t).1),
    decreases t.len(),
{
    let d = field_split(p).0;
    if t.len() == 0 {
        assert(p + t =~= p);
        assert(d + field_split(t).0 =~= d);
    } else {
        assert((p + t).drop_last() =~= p + t.drop_last());
        assert((p + t).last() == t.last());
        lemma_field_split_concat(p, t.drop_last());
        let (t0, t1) = field_split(t.drop_last());
        if is_white_space(t.last()) && t1.len() > 0 {
            assert((d + t0).push(t1) =~= d + t0.push(t1));
        }
    }
}

/// A word followed by a whitespace character, then anything: the word is the
/// first field, and the fields of the rest follow.
proof fn lemma_fields_word_then(w: Seq<char>, c: char, rest: Seq<char>)
    requires
        w.len() > 0,
        forall|k: int| 0 <= k < w.len() ==> !is_white_space(#[trigger] w[k]),
        is_white_space(c),
    ensures
        fields_of(w + seq![c] + rest) == seq![w] + fields_of(rest),
{
    lemma_field_split_word(w);
    let wc = w + seq![c];
    assert(wc.drop_last() =~= w);
    assert(wc.last() == c);
    assert(field_split(wc).0 =~= seq![w]);
    lemma_field_split_concat(wc, rest);
    let (r0, r1) = field_split(rest);
    if r1.len() > 0 {
        assert((seq![w] + r0).push(r1) =~= seq![w] + r0.push(r1));
    }
}

proof fn lemma_single_line(s: Seq<char>)
    requires
        forall|k: int| 0 <= k < s.len() ==> #[trigger] s[k] != '\n',
    ensures
        line_split(s) == (Seq::<Seq<char>>::empty(), s),
    decreases s.len(),
{
    if s.len() > 0 {
        lemma_single_line(s.drop_last());
        assert(s.drop_last().push(s.last()) =~= s);
    }
}

/// A listing line of the form `<id> <instance> <status> <anything>`: when
/// the instance starts with the service name and the status lowercases to
/// `running`, the instance is what the listing yields, whatever follows.
pub proof fn lemma_running_line(
    w1: Seq<char>,
    w2: Seq<char>,
    w3: Seq<char>,
    c1: char,
    c2: char,
    c3: char,
    rest: Seq<char>,
    service: Seq<char>,
)
    requires
        w1.len() > 0 && w2.len() > 0 && w3.len() > 0,
        forall|k: int| 0 <= k < w1.len() ==> !is_white_space(#[trigger] w1[k]),
        forall|k: int| 0 <= k < w2.len() ==> !is_white_space(#[trigger] w2[k]),
        forall|k: int| 0 <= k < w3.len() ==> !is_white_space(#[trigger] w3[k]),
        is_white_space(c1) && c1 != '\n',
        is_white_space(c2) && c2 != '\n',
        is_white_space(c3) && c3 != '\n',
        forall|k: int| 0 <= k < rest.len() ==> #[trigger] rest[k] != '\n',
        w2.len() >= service.len() && w2.subrange(0, service.len() as int) == service,
        lowercase(w3) == "running"@,
    ensures
        first_running_instance(
            lines_of(w1 + seq![c1] + w2 + seq![c2] + w3 + seq![c3] + rest),
            service,
        ) == Some(w2),
{
    let tail3 = w3 + seq![c3] + rest;
    let tail2 = w2 + seq![c2] + tail3;
    let line = w1 + seq![c1] + tail2;
    assert(line =~= w1 + seq![c1] + w2 + seq![c2] + w3 + seq![c3] + rest);
    lemma_fields_word_then(w3, c3, rest);
    lemma_fields_word_then(w2, c2, tail3);
    lemma_fields_word_then(w1, c1, tail2);
    let f = fields_of(line);
    assert(f =~= seq![w1, w2, w3] + fields_of(rest));
    assert(forall|k: int| 0 <= k < line.len() ==> #[trigger] line[k] != '\n') by {
        assert forall|k: int| 0 <= k < line.len() implies #[trigger] line[k] != '\n' by {
            let a = w1.len() as int;
            let b = a + 1 + w2.len();
            let c = b + 1 + w3.len();
            if k < a {
                assert(line[k] == w1[k]);
            } else if k == a {
                assert(line[k] == c1);
            } else if k < b {
                assert(line[k] == w2[k - a - 1]);
            } else if k == b {
                assert(line[k] == c2);
            } else if k < c {
                assert(line[k] == w3[k - b - 1]);
            } else if k == c {
                assert(line[k] == c3);
            } else {
                assert(line[k] == rest[k - c - 1]);
            }
        }
    }
    lemma_single_line(line);
    assert(lines_of(line) =~= seq![line]);
    assert(seq![line].drop_last() =~= Seq::<Seq<char>>::empty());
    assert(seq![line].last() == line);
    assert(f[1] == w2);
    assert(f[2] == w3);
    assert(service.is_prefix_of(f[1]));
    assert(is_running_row(f, service));
    assert(first_running_instance(Seq::<Seq<char>>::empty(), service) is None);
}

} // verus!
