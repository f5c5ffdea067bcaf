//! From one line of the build's message stream to what it adds to the holes.
//!
//! The holes are written from one place only: the loop that reads the
//! message stream hands `process_line` exclusive access to the table, so no
//! lock is needed.

use vstd::prelude::*;
use crate::hole::{record, Holes};
use crate::json::{as_count, as_items, as_text, field, get, json_parse, parse_json, take, text_of, Json};
use crate::pattern::{is_match, matches_in, shape_of, shape_of_message, Shape, ShapeModel, SITE_PATTERN};
use crate::text::{lines_exec, lines_of, text_eq, texts};

verus! {

/// The most expansion steps followed from a diagnostic's span to its call
/// site; a longer chain is taken as malformed.
pub const MAX_HOPS: usize = 128;

/// The line is a JSON object, as a record of the message stream is.
pub open spec fn is_record(line: Seq<char>) -> bool {
    line.len() > 0 && line[0] == '{' && json_parse(line) matches Some(Json::Object(_))
}

/// The diagnostic that a record of the message stream carries, where it is a
/// compiler message with the error code that the placeholder induces.
pub open spec fn diagnostic_of(record: Json) -> Option<Json> {
    if as_text(field(record, "reason"@)) == Some("compiler-message"@) {
        match field(record, "message"@) {
            Some(message) => match field(message, "code"@) {
                Some(code) => if as_text(field(code, "code"@)) == Some("E0277"@) {
                    Some(message)
                } else {
                    None
                },
                None => None,
            },
            None => None,
        }
    } else {
        None
    }
}

/// The diagnostic that a line of the message stream carries.
pub open spec fn classify(line: Seq<char>) -> Option<Json> {
    if line.len() > 0 && line[0] == '{' {
        match json_parse(line) {
            Some(record) => diagnostic_of(record),
            None => None,
        }
    } else {
        None
    }
}

/// Picks the induced diagnostic out of a parsed record.
pub fn select_diagnostic(record: Json) -> (r: Option<Json>)
    ensures
        r == diagnostic_of(record),
{
    let reason = get(&record, "reason")?;
    let reason = text_of(reason)?;
    if !text_eq(reason, "compiler-message") {
        return None;
    }
    let message = take(record, "message")?;
    let code = get(&message, "code")?;
    let code = get(code, "code")?;
    let code = text_of(code)?;
    if text_eq(code, "E0277") {
        Some(message)
    } else {
        None
    }
}

/// Reads one line of the message stream.
pub fn parse_message(line: &str) -> (r: Option<Json>)
    ensures
        r == classify(line@),
{
    let n = line.unicode_len();
    if n == 0 || line.get_char(0) != '{' {
        return None;
    }
    let record = parse_json(line)?;
    select_diagnostic(record)
}

/// One of the span's source texts calls the placeholder.
pub open spec fn is_call_site(span: Json) -> bool {
    match as_items(field(span, "text"@)) {
        Some(items) => exists|k: int| 0 <= k < items.len() && #[trigger] text_calls(items[k]),
        None => false,
    }
}

/// A source text entry whose text calls the placeholder.
pub open spec fn text_calls(item: Json) -> bool {
    match as_text(field(item, "text"@)) {
        Some(t) => matches_in(SITE_PATTERN@, t),
        None => false,
    }
}

/// The span that `span` was expanded from.
pub open spec fn expansion_of(span: Json) -> Option<Json> {
    match field(span, "expansion"@) {
        Some(e) => field(e, "span"@),
        None => None,
    }
}

/// The span reached after `n` expansion steps.
pub open spec fn nth_expansion(span: Json, n: nat) -> Option<Json>
    decreases n,
{
    if n == 0 {
        Some(span)
    } else {
        match expansion_of(span) {
            Some(e) => nth_expansion(e, (n - 1) as nat),
            None => None,
        }
    }
}

/// The first span along the expansion chain that calls the placeholder,
/// within `hops` steps.
pub open spec fn resolve(span: Json, hops: nat) -> Option<Json>
    decreases hops,
{
    if is_call_site(span) {
        Some(span)
    } else if hops == 0 {
        None
    } else {
        match expansion_of(span) {
            Some(e) => resolve(e, (hops - 1) as nat),
            None => None,
        }
    }
}

/// Whether a span calls the placeholder.
pub fn call_site(span: &Json) -> (r: bool)
    ensures
        r == is_call_site(*span),
{
    let items = match get(span, "text") {
        Some(Json::Array(items)) => items,
        _ => return false,
    };
    let mut k: usize = 0;
    while k < items.len()
        invariant
            k <= items@.len(),
            as_items(field(*span, "text"@)) == Some(items@),
            forall|j: int| 0 <= j < k ==> !#[trigger] text_calls(items@[j]),
        decreases items.len() - k,
    {
        let found = match get(&items[k], "text") {
            Some(t) => match text_of(t) {
                Some(t) => is_match(SITE_PATTERN, t),
                None => false,
            },
            None => false,
        };
        if found {
            assert(is_call_site(*span)) by {
                let its = as_items(field(*span, "text"@))->Some_0;
                assert(its == items@);
                assert(text_calls(its[k as int]));
            }
            return true;
        }
        k = k + 1;
    }
    false
}

/// Follows the expansion chain from `span` to the literal call of the
/// placeholder.
pub fn resolve_site(span: &Json) -> (r: Option<&Json>)
    ensures
        match r {
            Some(s) => resolve(*span, MAX_HOPS as nat) == Some(*s),
            None => resolve(*span, MAX_HOPS as nat) is None,
        },
{
    let mut cur = span;
    let mut hops: usize = MAX_HOPS;
    while !call_site(cur)
        invariant
            hops <= MAX_HOPS,
            resolve(*span, MAX_HOPS as nat) == resolve(*cur, hops as nat),
        decreases hops,
    {
        if hops == 0 {
            return None;
        }
        let e = get(cur, "expansion")?;
        cur = get(e, "span")?;
        hops = hops - 1;
    }
    Some(cur)
}

/// Lines 1 to 4 of a diagnostic's rendered text: the source excerpt.
pub open spec fn context_of(rendered: Seq<char>) -> Seq<Seq<char>> {
    let ls = lines_of(rendered);
    if ls.len() <= 1 {
        Seq::empty()
    } else if ls.len() <= 5 {
        ls.subrange(1, ls.len() as int)
    } else {
        ls.subrange(1, 5)
    }
}

/// The source excerpt of a diagnostic.
pub fn context_exec(rendered: &str) -> (r: Vec<String>)
    ensures
        texts(r@) == context_of(rendered@),
{
    let ls = lines_exec(rendered);
    let ghost l = texts(ls@);
    let mut out: Vec<String> = Vec::new();
    if ls.len() <= 1 {
        assert(texts(out@) =~= Seq::<Seq<char>>::empty());
        return out;
    }
    let end: usize = if ls.len() <= 5 { ls.len() } else { 5 };
    let mut i: usize = 1;
    assert(texts(out@) =~= l.subrange(1, 1));
    while i < end
        invariant
            1 <= i <= end,
            end <= ls@.len(),
            l == texts(ls@),
            texts(out@) =~= l.subrange(1, i as int),
        decreases end - i,
    {
        let ghost before = texts(out@);
        out.push(String::from_str(ls[i].as_str()));
        assert(texts(out@) =~= before.push(l[i as int]));
        i = i + 1;
    }
    out
}

/// What one diagnostic says: its call site (file and line), its source
/// excerpt, and its shape; `None` where a field is missing, the message has
/// no recognised shape, or the span chain reaches no call.
pub open spec fn extraction(message: Json) -> Option<(Seq<char>, u64, Seq<Seq<char>>, ShapeModel)> {
    match (as_text(field(message, "message"@)), as_text(field(message, "rendered"@)), as_items(field(message, "spans"@))) {
        (Some(short), Some(rendered), Some(spans)) => {
            if shape_of(short) is NoMatch || spans.len() == 0 {
                None
            } else {
                match resolve(spans[0], MAX_HOPS as nat) {
                    Some(site) => match (as_text(field(site, "file_name"@)), as_count(field(site, "line_start"@))) {
                        (Some(file), Some(line)) => Some((file, line, context_of(rendered), shape_of(short))),
                        _ => None,
                    },
                    None => None,
                }
            }
        },
        _ => None,
    }
}

/// The holes after one diagnostic.
pub open spec fn take_in(hs: Seq<crate::hole::HoleModel>, message: Json) -> Seq<crate::hole::HoleModel> {
    match extraction(message) {
        Some((file, line, context, shape)) => record(hs, file, line, context, shape),
        None => hs,
    }
}

/// Takes one diagnostic into the holes; `false`, with the holes left as they
/// were, where it says nothing usable.
pub fn parse_hole(message: &Json, holes: &mut Holes) -> (r: bool)
    requires
        old(holes).wf(),
    ensures
        final(holes).wf(),
        r == extraction(*message) is Some,
        final(holes)@ == take_in(old(holes)@, *message),
{
    let short = match get(message, "message") {
        Some(s) => match text_of(s) {
            Some(s) => s,
            None => return false,
        },
        None => return false,
    };
    let shape = shape_of_message(short);
    if let Shape::NoMatch = shape {
        return false;
    }
    let rendered = match get(message, "rendered") {
        Some(s) => match text_of(s) {
            Some(s) => s,
            None => return false,
        },
        None => return false,
    };
    let spans = match get(message, "spans") {
        Some(Json::Array(spans)) => spans,
        _ => return false,
    };
    if spans.len() == 0 {
        return false;
    }
    let site = match resolve_site(&spans[0]) {
        Some(site) => site,
        None => return false,
    };
    let file = match get(site, "file_name") {
        Some(s) => match text_of(s) {
            Some(s) => s,
            None => return false,
        },
        None => return false,
    };
    let line = match get(site, "line_start") {
        Some(Json::Number(Some(n))) => *n,
        _ => return false,
    };
    let context = context_exec(rendered);
    holes.record(file, line, context, shape);
    true
}

/// The holes after one line of the message stream.
pub open spec fn after_line(hs: Seq<crate::hole::HoleModel>, line: Seq<char>) -> Seq<crate::hole::HoleModel> {
    match classify(line) {
        Some(message) => take_in(hs, message),
        None => hs,
    }
}

/// Takes one line of the message stream into the holes.
pub fn process_line(holes: &mut Holes, line: &str) -> (r: bool)
    requires
        old(holes).wf(),
    ensures
        final(holes).wf(),
        final(holes)@ == after_line(old(holes)@, line@),
        r == (classify(line@) matches Some(message) && extraction(message) is Some),
{
    match parse_message(line) {
        Some(message) => parse_hole(&message, holes),
        None => false,
    }
}

} // verus!
