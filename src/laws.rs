//! What holds of the extraction and aggregation of holes across calls.

use vstd::prelude::*;
use crate::extract::{after_line, classify, expansion_of, extraction, is_call_site, is_record, nth_expansion, resolve, take_in, MAX_HOPS};
use crate::hole::{apply_shape, at, distinct_sites, fresh, one_kind, record, HoleModel};
use crate::json::{as_text, field, Json};
use crate::pattern::{shape_of, ShapeModel};

verus! {

/// The hole at `file`, `line`, if there is one.
pub open spec fn hole_at(hs: Seq<HoleModel>, file: Seq<char>, line: u64) -> Option<HoleModel> {
    if exists|i: int| 0 <= i < hs.len() && at(#[trigger] hs[i], file, line) {
        let i = choose|i: int| 0 <= i < hs.len() && at(#[trigger] hs[i], file, line);
        Some(hs[i])
    } else {
        None
    }
}

/// The hole that a diagnostic for `file`, `line` goes to: the one there, or
/// a new one.
pub open spec fn target(hs: Seq<HoleModel>, file: Seq<char>, line: u64, context: Seq<Seq<char>>) -> HoleModel {
    match hole_at(hs, file, line) {
        Some(h) => h,
        None => fresh(file, line, context),
    }
}

/// Recording a diagnostic keeps the sites distinct, and the hole at its
/// site afterwards is the one it went to, with the diagnostic taken in.
pub proof fn lemma_record_at(hs: Seq<HoleModel>, file: Seq<char>, line: u64, context: Seq<Seq<char>>, s: ShapeModel)
    requires
        distinct_sites(hs),
    ensures
        distinct_sites(record(hs, file, line, context, s)),
        hole_at(record(hs, file, line, context, s), file, line) == Some(apply_shape(target(hs, file, line, context), s)),
{
    let r = record(hs, file, line, context, s);
    if exists|i: int| 0 <= i < hs.len() && at(#[trigger] hs[i], file, line) {
        let i = choose|i: int| 0 <= i < hs.len() && at(#[trigger] hs[i], file, line);
        assert(at(r[i], file, line));
        let j = choose|j: int| 0 <= j < r.len() && at(#[trigger] r[j], file, line);
        if j != i {
            assert(!at(hs[j], hs[i].file, hs[i].line));
        }
    } else {
        let n = hs.len() as int;
        assert(at(r[n], file, line));
        let j = choose|j: int| 0 <= j < r.len() && at(#[trigger] r[j], file, line);
        if j != n {
            assert(at(hs[j], file, line));
        }
    }
}

/// Whatever diagnostics come, in whatever order, no hole ever knows both a
/// type and a capability: the later of the two replaces the earlier.
pub proof fn lemma_one_kind_kept(hs: Seq<HoleModel>, message: Json)
    requires
        forall|i: int| 0 <= i < hs.len() ==> one_kind(#[trigger] hs[i]),
    ensures
        forall|i: int| 0 <= i < take_in(hs, message).len() ==> one_kind(#[trigger] take_in(hs, message)[i]),
{
}

/// A line that is not a JSON object is no diagnostic, and leaves the holes
/// as they were.
pub proof fn lemma_non_record_ignored(hs: Seq<HoleModel>, line: Seq<char>)
    requires
        !is_record(line),
    ensures
        classify(line) is None,
        after_line(hs, line) == hs,
{
}

/// A diagnostic whose message names a concrete type for the whole call sets
/// that type on its hole, exactly as captured, and leaves no capability.
pub proof fn lemma_concrete_type_sets_type(hs: Seq<HoleModel>, message: Json, t: Seq<char>)
    requires
        distinct_sites(hs),
        extraction(message) is Some,
        shape_of(as_text(field(message, "message"@))->Some_0) == ShapeModel::ConcreteType(t),
    ensures
        ({
            let (file, line, context, s) = extraction(message)->Some_0;
            let h = hole_at(take_in(hs, message), file, line);
            &&& h is Some
            &&& h->Some_0.ty == Some(t)
            &&& h->Some_0.tr is None
        }),
{
    let (file, line, context, s) = extraction(message)->Some_0;
    lemma_record_at(hs, file, line, context, s);
}

/// A diagnostic whose message names a capability, in any of its phrasings,
/// sets that capability on its hole and leaves no type.
pub proof fn lemma_capability_sets_capability(hs: Seq<HoleModel>, message: Json, c: Seq<char>)
    requires
        distinct_sites(hs),
        extraction(message) is Some,
        shape_of(as_text(field(message, "message"@))->Some_0) == ShapeModel::Capability(c),
    ensures
        ({
            let (file, line, context, s) = extraction(message)->Some_0;
            let h = hole_at(take_in(hs, message), file, line);
            &&& h is Some
            &&& h->Some_0.tr == Some(c)
            &&& h->Some_0.ty is None
        }),
{
    let (file, line, context, s) = extraction(message)->Some_0;
    lemma_record_at(hs, file, line, context, s);
}

/// Following a chain of `n` expansions whose spans do not call the
/// placeholder, to a span that does, resolves to that outermost span.
pub proof fn lemma_resolve_chain(span: Json, n: nat, site: Json, hops: nat)
    requires
        n <= hops,
        forall|k: nat| k < n ==> ((#[trigger] nth_expansion(span, k)) matches Some(s) && !is_call_site(s)),
        nth_expansion(span, n) == Some(site),
        is_call_site(site),
    ensures
        resolve(span, hops) == Some(site),
    decreases n,
{
    if n > 0 {
        assert(nth_expansion(span, 0) == Some(span));
        let e = expansion_of(span)->Some_0;
        assert forall|k: nat| k < (n - 1) as nat implies ((#[trigger] nth_expansion(e, k)) matches Some(s) && !is_call_site(s)) by {
            assert(nth_expansion(span, k + 1) == nth_expansion(e, k));
        }
        assert(nth_expansion(span, n) == nth_expansion(e, (n - 1) as nat));
        lemma_resolve_chain(e, (n - 1) as nat, site, (hops - 1) as nat);
    } else {
        assert(nth_expansion(span, 0) == Some(span));
    }
}

/// A diagnostic whose first span sits `n` macro expansions below the
/// literal call is placed at that call: `n` steps are followed, not fewer.
pub proof fn lemma_nested_call_site(span: Json, n: nat, site: Json)
    requires
        n <= MAX_HOPS,
        forall|k: nat| k < n ==> ((#[trigger] nth_expansion(span, k)) matches Some(s) && !is_call_site(s)),
        nth_expansion(span, n) == Some(site),
        is_call_site(site),
    ensures
        resolve(span, MAX_HOPS as nat) == Some(site),
{
    lemma_resolve_chain(span, n, site, MAX_HOPS as nat);
}

/// A second diagnostic for a site leaves the excerpt captured by the first.
pub proof fn lemma_context_kept(hs: Seq<HoleModel>, message: Json)
    requires
        distinct_sites(hs),
        extraction(message) is Some,
        hole_at(hs, extraction(message)->Some_0.0, extraction(message)->Some_0.1) is Some,
    ensures
        ({
            let (file, line, context, s) = extraction(message)->Some_0;
            hole_at(take_in(hs, message), file, line)->Some_0.context == hole_at(hs, file, line)->Some_0.context
        }),
{
    let (file, line, context, s) = extraction(message)->Some_0;
    lemma_record_at(hs, file, line, context, s);
}

/// Three diagnostics for one site, one naming the call's type and two naming
/// argument types, leave that type and both arguments on the hole, whichever
/// order they come in.
pub proof fn lemma_three_diagnostics(hs: Seq<HoleModel>, ms: Seq<Json>, file: Seq<char>, line: u64, t: Seq<char>, c: int)
    requires
        distinct_sites(hs),
        hole_at(hs, file, line) is None,
        ms.len() == 3,
        0 <= c < 3,
        forall|i: int| 0 <= i < 3 ==> ((#[trigger] extraction(ms[i])) matches Some(e) && e.0 == file && e.1 == line),
        extraction(ms[c])->Some_0.3 == ShapeModel::ConcreteType(t),
        forall|i: int| 0 <= i < 3 && i != c ==> (#[trigger] extraction(ms[i]))->Some_0.3 is NamedArgument,
    ensures
        ({
            let h = hole_at(take_in(take_in(take_in(hs, ms[0]), ms[1]), ms[2]), file, line);
            &&& h is Some
            &&& h->Some_0.ty == Some(t)
            &&& h->Some_0.args.len() == 2
        }),
{
    let e0 = extraction(ms[0])->Some_0;
    let e1 = extraction(ms[1])->Some_0;
    let e2 = extraction(ms[2])->Some_0;
    let h1 = take_in(hs, ms[0]);
    lemma_record_at(hs, file, line, e0.2, e0.3);
    let h2 = take_in(h1, ms[1]);
    lemma_record_at(h1, file, line, e1.2, e1.3);
    lemma_record_at(h2, file, line, e2.2, e2.3);
}

} // verus!
