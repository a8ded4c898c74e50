//! The reply parser: pulls the structured payload out of a raw model reply
//! and classifies it as one of the three intents.
//!
//! Extraction strategy: when the provider's `[JSON]` marker occurs, the
//! payload is sought after its first occurrence; otherwise the whole reply is
//! the candidate, so that text that is already a bare payload parses too.
//! Trailing whitespace and closing code fences are stripped, everything before
//! the first opening brace is dropped, and the remainder must decode as a JSON
//! object whose `type` field names the intent.

use vstd::prelude::*;
use vstd::string::StrSliceExecFns;

use crate::jsonval::{json_doc_fields, json_get_string, json_parse, json_value_fields};

verus! {

/// Whether the marker occurs in `s` starting at position `i`.
pub open spec fn marker_at(s: Seq<char>, i: int) -> bool {
    0 <= i && i + 6 <= s.len() && s[i] == '[' && s[i + 1] == 'J' && s[i + 2] == 'S' && s[i + 3]
        == 'O' && s[i + 4] == 'N' && s[i + 5] == ']'
}

/// The first position at or after `i` where the marker occurs.
pub open spec fn find_marker_from(s: Seq<char>, i: int) -> Option<int>
    decreases s.len() - i,
{
    if i < 0 || i + 6 > s.len() {
        None
    } else if marker_at(s, i) {
        Some(i)
    } else {
        find_marker_from(s, i + 1)
    }
}

/// The first position at or after `i` holding an opening brace.
pub open spec fn find_brace_from(s: Seq<char>, i: int) -> Option<int>
    decreases s.len() - i,
{
    if i < 0 || i >= s.len() {
        None
    } else if s[i] == '{' {
        Some(i)
    } else {
        find_brace_from(s, i + 1)
    }
}

/// The whitespace the parser strips at the payload's tail.
pub open spec fn is_ws(c: char) -> bool {
    c == ' ' || c == '\t' || c == '\n' || c == '\r'
}

/// Whether `s` ends with a closing code fence.
pub open spec fn ends_with_fence(s: Seq<char>) -> bool {
    s.len() >= 3 && s[s.len() - 3] == '`' && s[s.len() - 2] == '`' && s[s.len() - 1] == '`'
}

/// `s` with trailing whitespace and closing code fences removed.
pub open spec fn trim_tail(s: Seq<char>) -> Seq<char>
    decreases s.len(),
{
    if s.len() > 0 && is_ws(s[s.len() - 1]) {
        trim_tail(s.drop_last())
    } else if ends_with_fence(s) {
        trim_tail(s.subrange(0, s.len() - 3))
    } else {
        s
    }
}

/// The part of the reply in which the payload is sought: what follows the
/// first marker, or the whole reply when no marker occurs.
pub open spec fn payload_region(s: Seq<char>) -> Seq<char> {
    match find_marker_from(s, 0) {
        Some(i) => s.subrange(i + 6, s.len() as int),
        None => s,
    }
}

/// The normalized payload text: the payload region, its tail trimmed, from
/// its first opening brace on. `None` when no opening brace remains.
pub open spec fn normalize_spec(s: Seq<char>) -> Option<Seq<char>> {
    let t = trim_tail(payload_region(s));
    match find_brace_from(t, 0) {
        Some(j) => Some(t.subrange(j, t.len() as int)),
        None => None,
    }
}

/// The trimmed tail is a prefix of the original.
proof fn lemma_trim_tail_prefix(s: Seq<char>)
    ensures
        trim_tail(s).len() <= s.len(),
        trim_tail(s) == s.subrange(0, trim_tail(s).len() as int),
    decreases s.len(),
{
    if s.len() > 0 && is_ws(s[s.len() - 1]) {
        lemma_trim_tail_prefix(s.drop_last());
        assert(s.drop_last().subrange(0, trim_tail(s).len() as int) =~= s.subrange(
            0,
            trim_tail(s).len() as int,
        ));
    } else if ends_with_fence(s) {
        lemma_trim_tail_prefix(s.subrange(0, s.len() - 3));
        assert(s.subrange(0, s.len() - 3).subrange(0, trim_tail(s).len() as int) =~= s.subrange(
            0,
            trim_tail(s).len() as int,
        ));
    }
}

/// Nothing trimmable is left at the tail after trimming.
proof fn lemma_trim_tail_fix(s: Seq<char>)
    ensures
        trim_tail(s).len() > 0 ==> !is_ws(trim_tail(s)[trim_tail(s).len() - 1]),
        !ends_with_fence(trim_tail(s)),
        trim_tail(trim_tail(s)) == trim_tail(s),
    decreases s.len(),
{
    if s.len() > 0 && is_ws(s[s.len() - 1]) {
        lemma_trim_tail_fix(s.drop_last());
    } else if ends_with_fence(s) {
        lemma_trim_tail_fix(s.subrange(0, s.len() - 3));
    }
}

/// A found marker position lies at or after the search start.
proof fn lemma_find_marker_some(s: Seq<char>, i: int, j: int)
    requires
        find_marker_from(s, i) == Some(j),
    ensures
        i <= j,
        marker_at(s, j),
    decreases s.len() - i,
{
    if i < 0 || i + 6 > s.len() {
    } else if marker_at(s, i) {
    } else {
        lemma_find_marker_some(s, i + 1, j);
    }
}

/// A found brace position lies in range and holds an opening brace.
proof fn lemma_find_brace_some(s: Seq<char>, i: int, j: int)
    requires
        find_brace_from(s, i) == Some(j),
    ensures
        i <= j < s.len(),
        s[j] == '{',
    decreases s.len() - i,
{
    if i < 0 || i >= s.len() {
    } else if s[i] == '{' {
    } else {
        lemma_find_brace_some(s, i + 1, j);
    }
}

/// Where no position holds an opening brace, none is found.
proof fn lemma_find_brace_none(s: Seq<char>, i: int)
    requires
        forall|k: int| 0 <= k < s.len() ==> s[k] != '{',
    ensures
        find_brace_from(s, i) is None,
    decreases s.len() - i,
{
    if i < 0 || i >= s.len() {
    } else {
        lemma_find_brace_none(s, i + 1);
    }
}

/// Tells whether the parser strips this character at the payload's tail.
fn is_ws_char(c: char) -> (r: bool)
    ensures
        r == is_ws(c),
{
    c == ' ' || c == '\t' || c == '\n' || c == '\r'
}

/// Whether two string slices hold the same characters.
pub fn str_eq(a: &str, b: &str) -> (r: bool)
    ensures
        r == (a@ == b@),
{
    let n: usize = a.unicode_len();
    if n != b.unicode_len() {
        return false;
    }
    let mut i: usize = 0;
    while i < n
        invariant
            n == a@.len(),
            n == b@.len(),
            i <= n,
            forall|k: int| 0 <= k < i ==> a@[k] == b@[k],
        decreases n - i,
    {
        if a.get_char(i) != b.get_char(i) {
            return false;
        }
        i += 1;
    }
    proof {
        assert(a@ =~= b@);
    }
    true
}

/// Extracts the normalized payload text from a raw reply, or nothing when no
/// opening brace remains once the marker preamble and the tail are stripped.
pub fn normalize_reply(reply: &str) -> (r: Option<String>)
    ensures
        (r is Some) == (normalize_spec(reply@) is Some),
        r matches Some(n) ==> Some(n@) == normalize_spec(reply@),
{
    let n: usize = reply.unicode_len();
    // Find the first occurrence of the marker, if any.
    let mut i: usize = 0;
    let mut mpos: Option<usize> = None;
    while mpos.is_none() && n >= 6 && i <= n - 6
        invariant
            n == reply@.len(),
            i <= n,
            match mpos {
                Some(p) => find_marker_from(reply@, 0) == Some(p as int) && p + 6 <= n,
                None => find_marker_from(reply@, 0) == find_marker_from(reply@, i as int),
            },
        decreases (if mpos is None { 1int } else { 0int }), n - i,
    {
        if reply.get_char(i) == '[' && reply.get_char(i + 1) == 'J' && reply.get_char(i + 2) == 'S'
            && reply.get_char(i + 3) == 'O' && reply.get_char(i + 4) == 'N' && reply.get_char(
            i + 5,
        ) == ']' {
            proof {
                assert(marker_at(reply@, i as int));
            }
            mpos = Some(i);
        } else {
            proof {
                assert(!marker_at(reply@, i as int));
            }
            i += 1;
        }
    }
    // The payload region starts right after the marker, or at the front.
    let a: usize = match mpos {
        Some(p) => p + 6,
        None => {
            proof {
                assert(find_marker_from(reply@, i as int) is None);
            }
            0
        },
    };
    let ghost region = reply@.subrange(a as int, n as int);
    proof {
        assert(payload_region(reply@) =~= region);
    }
    // Strip trailing whitespace and closing code fences.
    let mut e: usize = n;
    let mut done: bool = false;
    while !done
        invariant
            n == reply@.len(),
            a <= e <= n,
            region == reply@.subrange(a as int, n as int),
            trim_tail(region) == trim_tail(reply@.subrange(a as int, e as int)),
            done ==> trim_tail(reply@.subrange(a as int, e as int)) == reply@.subrange(
                a as int,
                e as int,
            ),
        decreases (if done { 0int } else { 1int }), e,
    {
        let ghost p = reply@.subrange(a as int, e as int);
        if e > a && is_ws_char(reply.get_char(e - 1)) {
            proof {
                assert(p.len() > 0 && is_ws(p[p.len() - 1]));
                assert(p.drop_last() =~= reply@.subrange(a as int, e as int - 1));
            }
            e -= 1;
        } else if e - a >= 3 && reply.get_char(e - 1) == '`' && reply.get_char(e - 2) == '`'
            && reply.get_char(e - 3) == '`' {
            proof {
                assert(ends_with_fence(p));
                assert(p.subrange(0, p.len() - 3) =~= reply@.subrange(a as int, e as int - 3));
            }
            e -= 3;
        } else {
            proof {
                assert(!(p.len() > 0 && is_ws(p[p.len() - 1])));
                assert(!ends_with_fence(p));
                assert(trim_tail(p) == p);
            }
            done = true;
        }
    }
    let ghost t = reply@.subrange(a as int, e as int);
    proof {
        assert(trim_tail(payload_region(reply@)) == t);
    }
    // Drop everything before the first opening brace.
    let mut j: usize = a;
    while j < e && reply.get_char(j) != '{'
        invariant
            n == reply@.len(),
            a <= j <= e <= n,
            t == reply@.subrange(a as int, e as int),
            find_brace_from(t, 0) == find_brace_from(t, j as int - a),
        decreases e - j,
    {
        proof {
            assert(t[j as int - a] == reply@[j as int]);
        }
        j += 1;
    }
    if j == e {
        proof {
            assert(find_brace_from(t, j as int - a) is None);
        }
        None
    } else {
        proof {
            assert(t[j as int - a] == reply@[j as int] && reply@[j as int] == '{');
            assert(find_brace_from(t, j as int - a) == Some(j as int - a));
            assert(t.subrange(j as int - a, t.len() as int) =~= reply@.subrange(j as int, e as int));
        }
        let sub = reply.substring_char(j, e);
        Some(sub.to_owned())
    }
}

/// The abstract form of a classified intent.
pub enum IntentView {
    Command(Seq<char>),
    Question(Seq<char>),
    Answer(Seq<char>),
}

/// The structured classification of a model reply.
#[derive(Debug, Clone, PartialEq, Eq)]
pub enum ParsedIntent {
    Command { command: String },
    Question { question: String },
    Answer { answer: String },
}

impl View for ParsedIntent {
    type V = IntentView;

    open spec fn view(&self) -> IntentView {
        match self {
            ParsedIntent::Command { command } => IntentView::Command(command@),
            ParsedIntent::Question { question } => IntentView::Question(question@),
            ParsedIntent::Answer { answer } => IntentView::Answer(answer@),
        }
    }
}

/// Why a reply could not be classified.
#[derive(Debug, Clone, PartialEq, Eq)]
pub enum ParseError {
    /// No opening brace remains once the preamble and the tail are stripped.
    MissingPayload,
    /// The payload text is not a JSON document; the detail is the decoder's
    /// diagnostic, surfaced to the operator before a retry.
    MalformedJson { detail: String },
    /// The document's `type` is not one of the three intents, or the field
    /// that intent requires is absent, not a string, or empty.
    UnknownOrInvalidShape,
}

/// The intent a decoded payload names: its `type` field picks the variant,
/// and the field of the same name must hold non-empty text.
pub open spec fn shape_of(m: Map<Seq<char>, Seq<char>>) -> Option<IntentView> {
    if !m.contains_key("type"@) {
        None
    } else if m["type"@] == "command"@ {
        if m.contains_key("command"@) && m["command"@].len() > 0 {
            Some(IntentView::Command(m["command"@]))
        } else {
            None
        }
    } else if m["type"@] == "question"@ {
        if m.contains_key("question"@) && m["question"@].len() > 0 {
            Some(IntentView::Question(m["question"@]))
        } else {
            None
        }
    } else if m["type"@] == "answer"@ {
        if m.contains_key("answer"@) && m["answer"@].len() > 0 {
            Some(IntentView::Answer(m["answer"@]))
        } else {
            None
        }
    } else {
        None
    }
}

/// Classifies a decoded payload by its `type` field.
fn classify_value(v: &serde_json::Value) -> (r: Result<ParsedIntent, ParseError>)
    ensures
        shape_of(json_value_fields(*v)) matches Some(iv) ==> r matches Ok(p) && p@ == iv,
        shape_of(json_value_fields(*v)) is None ==> (r matches Err(e)
            && e is UnknownOrInvalidShape),
{
    match json_get_string(v, "type") {
        None => Err(ParseError::UnknownOrInvalidShape),
        Some(ts) => {
            if str_eq(ts.as_str(), "command") {
                match json_get_string(v, "command") {
                    Some(c) => {
                        if !c.as_str().is_empty() {
                            Ok(ParsedIntent::Command { command: c })
                        } else {
                            Err(ParseError::UnknownOrInvalidShape)
                        }
                    },
                    None => Err(ParseError::UnknownOrInvalidShape),
                }
            } else if str_eq(ts.as_str(), "question") {
                match json_get_string(v, "question") {
                    Some(q) => {
                        if !q.as_str().is_empty() {
                            Ok(ParsedIntent::Question { question: q })
                        } else {
                            Err(ParseError::UnknownOrInvalidShape)
                        }
                    },
                    None => Err(ParseError::UnknownOrInvalidShape),
                }
            } else if str_eq(ts.as_str(), "answer") {
                match json_get_string(v, "answer") {
                    Some(ans) => {
                        if !ans.as_str().is_empty() {
                            Ok(ParsedIntent::Answer { answer: ans })
                        } else {
                            Err(ParseError::UnknownOrInvalidShape)
                        }
                    },
                    None => Err(ParseError::UnknownOrInvalidShape),
                }
            } else {
                Err(ParseError::UnknownOrInvalidShape)
            }
        },
    }
}

/// Parses one raw model reply into its normalized payload text and intent.
///
/// The result is an error exactly when one of the three steps fails: no
/// payload is found, the payload is not a JSON document, or the document
/// does not name an intent.
pub fn parse_reply(reply: &str) -> (r: Result<(String, ParsedIntent), ParseError>)
    ensures
        (normalize_spec(reply@) is None) <==> (r matches Err(e) && e is MissingPayload),
        (normalize_spec(reply@) matches Some(n) && json_doc_fields(n) is None) <==> (r matches Err(
            e,
        ) && e is MalformedJson),
        (normalize_spec(reply@) matches Some(n) && json_doc_fields(n) matches Some(m) && shape_of(m)
            is None) <==> (r matches Err(e) && e is UnknownOrInvalidShape),
        r matches Ok(p) ==> (normalize_spec(reply@) matches Some(n) && p.0@ == n
            && (json_doc_fields(n) matches Some(m)
            && (shape_of(m) matches Some(iv) && p.1@ == iv))),
{
    match normalize_reply(reply) {
        None => Err(ParseError::MissingPayload),
        Some(norm) => {
            match json_parse(norm.as_str()) {
                Err(detail) => Err(ParseError::MalformedJson { detail }),
                Ok(v) => {
                    match classify_value(&v) {
                        Ok(intent) => Ok((norm, intent)),
                        Err(err) => Err(err),
                    }
                },
            }
        },
    }
}

/// Law: a reply without a single opening brace has no payload, so parsing
/// reports an error and never hands an intent on for dispatch.
pub proof fn lemma_no_brace_no_payload(reply: Seq<char>)
    requires
        forall|k: int| 0 <= k < reply.len() ==> reply[k] != '{',
    ensures
        normalize_spec(reply) is None,
{
    let region = payload_region(reply);
    if find_marker_from(reply, 0) is Some {
        lemma_find_marker_some(reply, 0, find_marker_from(reply, 0)->Some_0);
    }
    assert forall|k: int| 0 <= k < region.len() implies region[k] != '{' by {
        match find_marker_from(reply, 0) {
            Some(i) => {
                assert(region[k] == reply[k + i + 6]);
            },
            None => {
                assert(region[k] == reply[k]);
            },
        }
    }
    lemma_trim_tail_prefix(region);
    let t = trim_tail(region);
    assert forall|k: int| 0 <= k < t.len() implies t[k] != '{' by {
        assert(t[k] == region[k]);
    }
    lemma_find_brace_none(t, 0);
}

/// Law: normalization is idempotent. A normalized payload that does not
/// itself contain the marker normalizes to itself, so parsing it again
/// decodes the same document and yields the same intent.
pub proof fn lemma_normalize_idempotent(reply: Seq<char>, n: Seq<char>)
    requires
        normalize_spec(reply) == Some(n),
        find_marker_from(n, 0) is None,
    ensures
        normalize_spec(n) == Some(n),
{
    let region = payload_region(reply);
    let t = trim_tail(region);
    let j: int = find_brace_from(t, 0)->Some_0;
    assert(find_brace_from(t, 0) == Some(j));
    lemma_find_brace_some(t, 0, j);
    lemma_trim_tail_fix(region);
    assert(n == t.subrange(j, t.len() as int));
    assert(n.len() == t.len() - j >= 1);
    assert(n[0] == t[j] && t[j] == '{');
    // No marker inside, so the whole of `n` is its own payload region.
    assert(payload_region(n) == n);
    // The tail of `n` is the tail of `t`, which nothing trims.
    assert(n[n.len() - 1] == t[t.len() - 1]);
    if n.len() >= 3 {
        assert(n[n.len() - 2] == t[t.len() - 2] && n[n.len() - 3] == t[t.len() - 3]);
        assert(!ends_with_fence(n));
    }
    assert(trim_tail(n) == n);
    assert(find_brace_from(n, 0) == Some(0int));
    assert(n.subrange(0, n.len() as int) =~= n);
}

/// Law: parsing is idempotent on its own successful output. Where a reply
/// parsed into the normalized payload `n`, the document fields `m` and the
/// intent `iv`, and `n` does not itself contain the marker, parsing `n`
/// again passes through the same three stages and yields the same `n`, `m`
/// and `iv`.
pub proof fn lemma_parse_idempotent(
    reply: Seq<char>,
    n: Seq<char>,
    m: Map<Seq<char>, Seq<char>>,
    iv: IntentView,
)
    requires
        normalize_spec(reply) == Some(n),
        find_marker_from(n, 0) is None,
        json_doc_fields(n) == Some(m),
        shape_of(m) == Some(iv),
    ensures
        normalize_spec(n) == Some(n),
        json_doc_fields(n) == Some(m),
        shape_of(m) == Some(iv),
{
    lemma_normalize_idempotent(reply, n);
}

} // verus!
