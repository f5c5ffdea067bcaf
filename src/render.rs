//! Lays a hole out as an annotated source excerpt: a header naming what the
//! call site expects, the excerpt with its gutter and underline marked, and
//! one note per argument. The output is a list of lines, each a list of
//! segments that carry the tone they are painted in.

use vstd::prelude::*;
use crate::hole::{Hole, HoleModel};
use crate::pattern::{find_split, regex_find_of, GUTTER_PATTERN, SQUIGGLE_PATTERN};
use crate::text::texts;

verus! {

/// How a segment is painted.
#[derive(PartialEq, Eq, Structural, Clone, Copy, Debug)]
pub enum Tone {
    Plain,
    /// The word that opens a hole's block.
    Label,
    /// Text that stands out: what the site expects, the word "note".
    Emphasis,
    /// The line-number gutter and its bars.
    Gutter,
    /// The underline of the call site.
    Squiggle,
}

/// A run of text in one tone.
pub struct Segment {
    pub text: String,
    pub tone: Tone,
}

impl View for Segment {
    type V = (Seq<char>, Tone);

    open spec fn view(&self) -> (Seq<char>, Tone) {
        (self.text@, self.tone)
    }
}

/// A line, as pairs of text and tone.
pub open spec fn line_view(l: Seq<Segment>) -> Seq<(Seq<char>, Tone)> {
    l.map_values(|s: Segment| s@)
}

/// Lines, as pairs of text and tone.
pub open spec fn lines_view(ls: Seq<Vec<Segment>>) -> Seq<Seq<(Seq<char>, Tone)>> {
    ls.map_values(|l: Vec<Segment>| line_view(l@))
}

/// `piece`, `n` times over.
pub open spec fn repeated(piece: Seq<char>, n: nat) -> Seq<char>
    decreases n,
{
    if n == 0 {
        Seq::empty()
    } else {
        repeated(piece, (n - 1) as nat) + piece
    }
}

/// `n - 1`, or 0.
pub open spec fn pred(n: nat) -> nat {
    if n > 0 { (n - 1) as nat } else { 0 }
}

/// What the header says the site expects: its type, else `impl` and its
/// capability, else `_`.
pub open spec fn expectation(h: HoleModel) -> Seq<char> {
    match h.ty {
        Some(t) => t,
        None => match h.tr {
            Some(c) => "impl "@ + c,
            None => "_"@,
        },
    }
}

/// The first line of a block: what the site expects.
pub open spec fn header(h: HoleModel) -> Seq<(Seq<char>, Tone)> {
    seq![("hole"@, Tone::Label), (": expecting `"@ + expectation(h) + "`"@, Tone::Emphasis)]
}

/// Where the gutter of a line ends, or 0 where it has none.
pub open spec fn gutter_end(l: Seq<char>) -> nat {
    match regex_find_of(GUTTER_PATTERN@, l) {
        Some((s, e)) => e as nat,
        None => 0,
    }
}

/// Match positions, as integers.
pub open spec fn pos(p: Option<(usize, usize)>) -> Option<(int, int)> {
    match p {
        Some((a, b)) => Some((a as int, b as int)),
        None => None,
    }
}

/// `p` marks a stretch of a line of `n` characters.
pub open spec fn in_line(n: int, p: Option<(int, int)>) -> bool {
    match p {
        Some((a, b)) => 0 <= a <= b <= n,
        None => true,
    }
}

/// One line of the excerpt, given where its gutter was found and, on the
/// last line, its underline. The gutter is marked, and an underline that
/// follows it; all the line's text is kept, in order.
pub open spec fn body_line_from(l: Seq<char>, g: Option<(int, int)>, sq: Option<(int, int)>) -> Seq<(Seq<char>, Tone)> {
    match g {
        None => seq![(l, Tone::Plain)],
        Some((gs, ge)) => {
            if sq is Some && sq->Some_0.0 >= ge {
                let (ss, se) = sq->Some_0;
                seq![
                    (l.subrange(0, gs), Tone::Plain),
                    (l.subrange(gs, ge), Tone::Gutter),
                    (l.subrange(ge, ss), Tone::Plain),
                    (l.subrange(ss, se), Tone::Squiggle),
                    (l.subrange(se, l.len() as int), Tone::Plain),
                ]
            } else {
                seq![
                    (l.subrange(0, gs), Tone::Plain),
                    (l.subrange(gs, ge), Tone::Gutter),
                    (l.subrange(ge, l.len() as int), Tone::Plain),
                ]
            }
        },
    }
}

/// One line of the excerpt; only the last one has its underline marked.
pub open spec fn body_line(l: Seq<char>, last: bool) -> Seq<(Seq<char>, Tone)> {
    body_line_from(
        l,
        regex_find_of(GUTTER_PATTERN@, l),
        if last { regex_find_of(SQUIGGLE_PATTERN@, l) } else { None },
    )
}

/// The texts of a line's segments, one after another.
pub open spec fn joined(line: Seq<(Seq<char>, Tone)>) -> Seq<char>
    decreases line.len(),
{
    if line.len() == 0 {
        Seq::empty()
    } else {
        joined(line.drop_last()) + line.last().0
    }
}

/// An excerpt line is only cut into segments: joined, they give the line
/// back unchanged.
pub proof fn lemma_body_line_keeps_text(l: Seq<char>, g: Option<(int, int)>, sq: Option<(int, int)>)
    requires
        in_line(l.len() as int, g),
        in_line(l.len() as int, sq),
    ensures
        joined(body_line_from(l, g, sq)) == l,
{
    let b = body_line_from(l, g, sq);
    reveal_with_fuel(joined, 6);
    match g {
        None => {
            assert(b.drop_last() =~= Seq::empty());
            assert(joined(b) =~= l);
        },
        Some((gs, ge)) => {
            if sq is Some && sq->Some_0.0 >= ge {
                let (ss, se) = sq->Some_0;
                assert(b.drop_last() =~= seq![b[0], b[1], b[2], b[3]]);
                assert(b.drop_last().drop_last() =~= seq![b[0], b[1], b[2]]);
                assert(b.drop_last().drop_last().drop_last() =~= seq![b[0], b[1]]);
                assert(b.drop_last().drop_last().drop_last().drop_last() =~= seq![b[0]]);
                assert(seq![b[0]].drop_last() =~= Seq::empty());
                assert(joined(b) =~= l.subrange(0, gs) + l.subrange(gs, ge) + l.subrange(ge, ss) + l.subrange(ss, se) + l.subrange(se, l.len() as int));
                assert(joined(b) =~= l);
            } else {
                assert(b.drop_last() =~= seq![b[0], b[1]]);
                assert(b.drop_last().drop_last() =~= seq![b[0]]);
                assert(seq![b[0]].drop_last() =~= Seq::empty());
                assert(joined(b) =~= l.subrange(0, gs) + l.subrange(gs, ge) + l.subrange(ge, l.len() as int));
                assert(joined(b) =~= l);
            }
        },
    }
}

/// How many excerpt lines are shown: three at most.
pub open spec fn shown(ctx: Seq<Seq<char>>) -> nat {
    if ctx.len() < 3 { ctx.len() } else { 3 }
}

/// The excerpt lines shown, the last line of the excerpt with its underline.
pub open spec fn body(ctx: Seq<Seq<char>>) -> Seq<Seq<(Seq<char>, Tone)>> {
    Seq::new(shown(ctx), |i: int| body_line(ctx[i], i == ctx.len() - 1))
}

/// The widest gutter among the first `k` lines.
pub open spec fn max_gutter(ctx: Seq<Seq<char>>, k: nat) -> nat
    decreases k,
{
    if k == 0 {
        0
    } else {
        let m = max_gutter(ctx, (k - 1) as nat);
        let g = gutter_end(ctx[k - 1]);
        if g > m { g } else { m }
    }
}

/// The column that the annotation lines are aligned to.
pub open spec fn width(ctx: Seq<Seq<char>>) -> nat {
    pred(max_gutter(ctx, shown(ctx)))
}

/// A bar in the gutter column, then the given segments.
pub open spec fn gutter_mark(w: nat, mark: Seq<char>) -> Seq<(Seq<char>, Tone)> {
    seq![(repeated(" "@, pred(w)), Tone::Plain), (mark, Tone::Gutter)]
}

/// Where the fourth excerpt line has an underline, it is drawn again under
/// the third line, a one-character underline stretched to the third line's
/// end.
pub open spec fn underline(ctx: Seq<Seq<char>>, w: nat) -> Seq<Seq<(Seq<char>, Tone)>> {
    if ctx.len() >= 4 {
        underline_from(ctx, w, regex_find_of(SQUIGGLE_PATTERN@, ctx[3]))
    } else {
        Seq::empty()
    }
}

/// The underline drawn again, given where the fourth excerpt line's
/// underline was found.
pub open spec fn underline_from(ctx: Seq<Seq<char>>, w: nat, sq: Option<(int, int)>) -> Seq<Seq<(Seq<char>, Tone)>> {
    if ctx.len() >= 4 && sq is Some {
        let (s, e) = sq->Some_0;
        let b: int = if e - s == 1 { ctx[2].len() as int } else { e };
        let count: nat = if b > s { (b - s) as nat } else { 0 };
        let room: nat = if b > w { (b - w) as nat } else { 0 };
        let pad: nat = if room > count { (room - count) as nat } else { 0 };
        seq![gutter_mark(w, "|"@) + seq![(repeated(" "@, pad), Tone::Plain), (repeated("^"@, count), Tone::Squiggle)]]
    } else {
        Seq::empty()
    }
}

/// The note for one argument: its name and type.
pub open spec fn note(w: nat, arg: (Seq<char>, Seq<char>)) -> Seq<(Seq<char>, Tone)> {
    gutter_mark(w, "="@) + seq![
        (" "@, Tone::Plain),
        ("note"@, Tone::Emphasis),
        (": "@ + arg.0 + " is `"@ + arg.1 + "`"@, Tone::Plain),
    ]
}

/// A bar line, then one note per argument; nothing where there are none.
pub open spec fn notes(args: Seq<(Seq<char>, Seq<char>)>, w: nat) -> Seq<Seq<(Seq<char>, Tone)>> {
    if args.len() == 0 {
        Seq::empty()
    } else {
        seq![gutter_mark(w, "|"@)] + Seq::new(args.len(), |i: int| note(w, args[i]))
    }
}

/// The block for a hole; `None` where nothing at all is known of it.
pub open spec fn rendering(h: HoleModel) -> Option<Seq<Seq<(Seq<char>, Tone)>>> {
    if h.ty is None && h.tr is None && h.args.len() == 0 {
        None
    } else {
        let w = width(h.context);
        Some(seq![header(h)] + body(h.context) + underline(h.context, w) + notes(h.args, w) + seq![Seq::empty()])
    }
}

/// A segment of `text` in `tone`.
fn seg(text: String, tone: Tone) -> (r: Segment)
    ensures
        r@ == (text@, tone),
{
    Segment { text, tone }
}

/// `piece`, `n` times over.
pub fn repeat(piece: &str, n: usize) -> (r: String)
    ensures
        r@ == repeated(piece@, n as nat),
{
    let mut s = String::new();
    let mut i: usize = 0;
    while i < n
        invariant
            i <= n,
            s@ == repeated(piece@, i as nat),
        decreases n - i,
    {
        s.append(piece);
        i = i + 1;
    }
    s
}

/// The header of a block.
fn header_line(h: &Hole) -> (r: Vec<Segment>)
    ensures
        line_view(r@) == header(h@),
{
    let mut e = String::from_str(": expecting `");
    match &h.ty {
        Some(t) => e.append(t.as_str()),
        None => match &h.tr {
            Some(c) => {
                let ghost e0 = e@;
                e.append("impl ");
                e.append(c.as_str());
                assert(e@ =~= e0 + ("impl "@ + c@));
            },
            None => e.append("_"),
        },
    }
    e.append("`");
    let r = vec![seg(String::from_str("hole"), Tone::Label), seg(e, Tone::Emphasis)];
    assert(line_view(r@) =~= header(h@));
    r
}

/// Where `pattern` first matches in `text`, in characters.
fn positions(pattern: &str, text: &str) -> (r: Option<(usize, usize)>)
    ensures
        pos(r) == regex_find_of(pattern@, text@),
        in_line(text@.len() as int, pos(r)),
{
    let n = text.unicode_len();
    match find_split(pattern, text) {
        Some((pre, _, post)) => Some((pre.as_str().unicode_len(), n - post.as_str().unicode_len())),
        None => None,
    }
}

/// Lays out one excerpt line, given where its gutter and its underline
/// (if it is to be marked) stand.
pub fn body_line_at(l: &str, g: Option<(usize, usize)>, sq: Option<(usize, usize)>) -> (r: Vec<Segment>)
    requires
        in_line(l@.len() as int, pos(g)),
        in_line(l@.len() as int, pos(sq)),
    ensures
        line_view(r@) == body_line_from(l@, pos(g), pos(sq)),
        joined(line_view(r@)) == l@,
{
    proof {
        lemma_body_line_keeps_text(l@, pos(g), pos(sq));
    }
    let n = l.unicode_len();
    match g {
        None => {
            let r = vec![seg(String::from_str(l), Tone::Plain)];
            assert(line_view(r@) =~= body_line_from(l@, pos(g), pos(sq)));
            r
        },
        Some((gs, ge)) => {
            let head = seg(String::from_str(l.substring_char(0, gs)), Tone::Plain);
            let gutter = seg(String::from_str(l.substring_char(gs, ge)), Tone::Gutter);
            let r = match sq {
                Some((ss, se)) if ss >= ge => vec![
                    head,
                    gutter,
                    seg(String::from_str(l.substring_char(ge, ss)), Tone::Plain),
                    seg(String::from_str(l.substring_char(ss, se)), Tone::Squiggle),
                    seg(String::from_str(l.substring_char(se, n)), Tone::Plain),
                ],
                _ => vec![head, gutter, seg(String::from_str(l.substring_char(ge, n)), Tone::Plain)],
            };
            assert(line_view(r@) =~= body_line_from(l@, pos(g), pos(sq)));
            r
        },
    }
}

/// One excerpt line, and where its gutter ends.
fn body_line_exec(l: &str, last: bool) -> (r: (Vec<Segment>, usize))
    ensures
        line_view(r.0@) == body_line(l@, last),
        joined(line_view(r.0@)) == l@,
        r.1 == gutter_end(l@),
{
    let g = positions(GUTTER_PATTERN, l);
    let sq = if last { positions(SQUIGGLE_PATTERN, l) } else { None };
    let line = body_line_at(l, g, sq);
    let end = match g {
        Some((_, ge)) => ge,
        None => 0,
    };
    (line, end)
}

/// A mark in the gutter column.
fn gutter_mark_exec(w: usize, mark: &str) -> (r: Vec<Segment>)
    ensures
        line_view(r@) == gutter_mark(w as nat, mark@),
{
    let pad = if w > 0 { w - 1 } else { 0 };
    let r = vec![seg(repeat(" ", pad), Tone::Plain), seg(String::from_str(mark), Tone::Gutter)];
    assert(line_view(r@) =~= gutter_mark(w as nat, mark@));
    r
}

/// Lays out the underline drawn again under the third excerpt line, given
/// where the fourth line's underline stands; `None` where none is drawn.
pub fn underline_at(ctx: &Vec<String>, w: usize, sq: Option<(usize, usize)>) -> (r: Option<Vec<Segment>>)
    requires
        ctx@.len() >= 4 ==> in_line(ctx@[3]@.len() as int, pos(sq)),
    ensures
        match r {
            Some(l) => underline_from(texts(ctx@), w as nat, pos(sq)) == seq![line_view(l@)],
            None => underline_from(texts(ctx@), w as nat, pos(sq)) == Seq::<Seq<(Seq<char>, Tone)>>::empty(),
        },
{
    if ctx.len() < 4 {
        return None;
    }
    assert(texts(ctx@)[2] == ctx@[2]@);
    let (s, e) = match sq {
        Some(p) => p,
        None => return None,
    };
    let b = if e - s == 1 { ctx[2].as_str().unicode_len() } else { e };
    let count = if b > s { b - s } else { 0 };
    let room = if b > w { b - w } else { 0 };
    let pad = if room > count { room - count } else { 0 };
    let mut line = gutter_mark_exec(w, "|");
    let ghost g = line_view(line@);
    line.push(seg(repeat(" ", pad), Tone::Plain));
    line.push(seg(repeat("^", count), Tone::Squiggle));
    assert(line_view(line@) =~= g + seq![(repeated(" "@, pad as nat), Tone::Plain), (repeated("^"@, count as nat), Tone::Squiggle)]);
    Some(line)
}

/// The underline drawn again under the third excerpt line, if any.
fn underline_exec(ctx: &Vec<String>, w: usize) -> (r: Option<Vec<Segment>>)
    ensures
        match r {
            Some(l) => underline(texts(ctx@), w as nat) == seq![line_view(l@)],
            None => underline(texts(ctx@), w as nat) == Seq::<Seq<(Seq<char>, Tone)>>::empty(),
        },
{
    if ctx.len() < 4 {
        return None;
    }
    assert(texts(ctx@)[3] == ctx@[3]@);
    let sq = positions(SQUIGGLE_PATTERN, ctx[3].as_str());
    underline_at(ctx, w, sq)
}

/// The note for one argument.
fn note_exec(w: usize, name: &str, ty: &str) -> (r: Vec<Segment>)
    ensures
        line_view(r@) == note(w as nat, (name@, ty@)),
{
    let mut line = gutter_mark_exec(w, "=");
    let ghost g = line_view(line@);
    let mut t = String::from_str(": ");
    t.append(name);
    t.append(" is `");
    t.append(ty);
    t.append("`");
    line.push(seg(String::from_str(" "), Tone::Plain));
    line.push(seg(String::from_str("note"), Tone::Emphasis));
    line.push(seg(t, Tone::Plain));
    assert(line_view(line@) =~= note(w as nat, (name@, ty@)));
    line
}

/// Lays out the block for one hole; `None`, and nothing to show, where no
/// type, capability or argument is known of it.
pub fn render_hole(h: &Hole) -> (r: Option<Vec<Vec<Segment>>>)
    ensures
        match r {
            Some(ls) => rendering(h@) == Some(lines_view(ls@)),
            None => rendering(h@) is None,
        },
        r is Some ==> forall|j: int|
            0 <= j < shown(h@.context) ==> joined(#[trigger] lines_view(r->Some_0@)[j + 1]) == h@.context[j],
{
    if h.ty.is_none() && h.tr.is_none() && h.args.len() == 0 {
        assert(h@.args.len() == 0);
        return None;
    }
    let ghost hm = h@;
    let ghost ctx = hm.context;
    let mut out: Vec<Vec<Segment>> = Vec::new();
    out.push(header_line(h));
    let n = h.context.len();
    let k: usize = if n < 3 { n } else { 3 };
    let mut widest: usize = 0;
    let mut i: usize = 0;
    assert(lines_view(out@) =~= seq![header(hm)] + body(ctx).subrange(0, 0));
    while i < k
        invariant
            hm == h@,
            ctx == hm.context,
            n == ctx.len(),
            n == h.context@.len(),
            k == shown(ctx),
            i <= k,
            widest == max_gutter(ctx, i as nat),
            lines_view(out@) =~= seq![header(hm)] + body(ctx).subrange(0, i as int),
            forall|j: int| 0 <= j < i ==> joined(#[trigger] body(ctx)[j]) == ctx[j],
        decreases k - i,
    {
        assert(ctx[i as int] == h.context@[i as int]@);
        let (line, g) = body_line_exec(h.context[i].as_str(), i == n - 1);
        let ghost before = lines_view(out@);
        out.push(line);
        assert(lines_view(out@) =~= before.push(body_line(ctx[i as int], i == n - 1)));
        assert(body(ctx).subrange(0, i + 1) =~= body(ctx).subrange(0, i as int).push(body_line(ctx[i as int], i == n - 1)));
        if g > widest {
            widest = g;
        }
        i = i + 1;
    }
    assert(body(ctx).subrange(0, k as int) =~= body(ctx));
    assert(forall|j: int| 0 <= j < k ==> lines_view(out@)[j + 1] == #[trigger] body(ctx)[j]);
    let w = if widest > 0 { widest - 1 } else { 0 };
    let ghost upto_body = lines_view(out@);
    assert(upto_body.len() == k + 1);
    match underline_exec(&h.context, w) {
        Some(l) => {
            out.push(l);
        },
        None => {},
    }
    assert(lines_view(out@) =~= upto_body + underline(ctx, w as nat));
    let ghost upto_underline = lines_view(out@);
    assert(forall|j: int| 0 <= j < k ==> upto_underline[j + 1] == #[trigger] upto_body[j + 1]);
    if h.args.len() > 0 {
        out.push(gutter_mark_exec(w, "|"));
        let mut j: usize = 0;
        while j < h.args.len()
            invariant
                hm == h@,
                j <= h.args@.len(),
                hm.args.len() == h.args@.len(),
                lines_view(out@) =~= upto_underline + seq![gutter_mark(w as nat, "|"@)] + Seq::new(j as nat, |a: int| note(w as nat, hm.args[a])),
            decreases h.args.len() - j,
        {
            assert(hm.args[j as int] == (h.args@[j as int].0@, h.args@[j as int].1@));
            let ghost before = lines_view(out@);
            out.push(note_exec(w, h.args[j].0.as_str(), h.args[j].1.as_str()));
            assert(lines_view(out@) =~= before.push(note(w as nat, hm.args[j as int])));
            j = j + 1;
        }
        assert(lines_view(out@) =~= upto_underline + notes(hm.args, w as nat));
    } else {
        assert(lines_view(out@) =~= upto_underline + notes(hm.args, w as nat));
    }
    let ghost upto_notes = lines_view(out@);
    assert(forall|j: int| 0 <= j < k ==> upto_notes[j + 1] == #[trigger] upto_body[j + 1]);
    let blank: Vec<Segment> = Vec::new();
    assert(line_view(blank@) =~= Seq::empty());
    out.push(blank);
    assert(lines_view(out@) =~= upto_notes + seq![Seq::empty()]);
    assert(forall|j: int| 0 <= j < k ==> lines_view(out@)[j + 1] == #[trigger] upto_body[j + 1]);
    assert(lines_view(out@) =~= upto_notes + seq![Seq::empty()]);
    Some(out)
}

/// The blocks of `hs`, one after another, in order; a hole that has no block
/// adds nothing.
pub open spec fn blocks(hs: Seq<HoleModel>) -> Seq<Seq<(Seq<char>, Tone)>>
    decreases hs.len(),
{
    if hs.len() == 0 {
        Seq::empty()
    } else {
        blocks(hs.drop_last()) + match rendering(hs.last()) {
            Some(b) => b,
            None => Seq::empty(),
        }
    }
}

/// Lays out the blocks of all holes, in the order given.
pub fn render_all(hs: &Vec<Hole>) -> (r: Vec<Vec<Segment>>)
    ensures
        lines_view(r@) == blocks(hs@.map_values(|h: Hole| h@)),
{
    let ghost ms = hs@.map_values(|h: Hole| h@);
    let mut out: Vec<Vec<Segment>> = Vec::new();
    let mut i: usize = 0;
    assert(ms.subrange(0, 0) =~= Seq::<HoleModel>::empty());
    assert(lines_view(out@) =~= Seq::empty());
    while i < hs.len()
        invariant
            i <= hs@.len(),
            ms == hs@.map_values(|h: Hole| h@),
            lines_view(out@) == blocks(ms.subrange(0, i as int)),
        decreases hs.len() - i,
    {
        assert(ms.subrange(0, i + 1).drop_last() =~= ms.subrange(0, i as int));
        assert(ms.subrange(0, i + 1).last() == hs@[i as int]@);
        let ghost before = lines_view(out@);
        match render_hole(&hs[i]) {
            Some(block) => {
                let mut block = block;
                let ghost b = lines_view(block@);
                out.append(&mut block);
                assert(lines_view(out@) =~= before + b);
            },
            None => {
                assert(lines_view(out@) =~= before + Seq::empty());
            },
        }
        i = i + 1;
    }
    assert(ms.subrange(0, i as int) =~= ms);
    out
}

} // verus!
