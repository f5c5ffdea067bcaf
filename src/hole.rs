//! Holes, one per call site of the placeholder, and the table that gathers
//! them while the diagnostics come in.

use vstd::prelude::*;
use crate::pattern::{Shape, ShapeModel};
use crate::text::{text_eq, texts};

verus! {

/// What is known of one call site.
pub struct Hole {
    /// The type expected of the whole call.
    pub ty: Option<String>,
    /// A capability expected of the whole call, where no concrete type is.
    pub tr: Option<String>,
    /// Argument names and their types, in the order the diagnostics came.
    pub args: Vec<(String, String)>,
    pub file: String,
    pub line: u64,
    /// The rendered source lines, from the first diagnostic of the site.
    pub context: Vec<String>,
}

/// `Hole`, over character sequences.
pub ghost struct HoleModel {
    pub ty: Option<Seq<char>>,
    pub tr: Option<Seq<char>>,
    pub args: Seq<(Seq<char>, Seq<char>)>,
    pub file: Seq<char>,
    pub line: u64,
    pub context: Seq<Seq<char>>,
}

/// An optional string, as characters.
pub open spec fn opt_text(o: Option<String>) -> Option<Seq<char>> {
    match o {
        Some(s) => Some(s@),
        None => None,
    }
}

/// Pairs of strings, as characters.
pub open spec fn pairs(v: Seq<(String, String)>) -> Seq<(Seq<char>, Seq<char>)> {
    v.map_values(|p: (String, String)| (p.0@, p.1@))
}

impl View for Hole {
    type V = HoleModel;

    open spec fn view(&self) -> HoleModel {
        HoleModel {
            ty: opt_text(self.ty),
            tr: opt_text(self.tr),
            args: pairs(self.args@),
            file: self.file@,
            line: self.line,
            context: texts(self.context@),
        }
    }
}

/// A new hole at `file`, `line`, with nothing known of it yet.
pub open spec fn fresh(file: Seq<char>, line: u64, context: Seq<Seq<char>>) -> HoleModel {
    HoleModel { ty: None, tr: None, args: Seq::empty(), file, line, context }
}

/// What one diagnostic adds to its hole: a concrete type or a capability
/// replaces whichever of the two was known before, an argument is appended.
pub open spec fn apply_shape(h: HoleModel, s: ShapeModel) -> HoleModel {
    match s {
        ShapeModel::ConcreteType(t) => HoleModel { ty: Some(t), tr: None, ..h },
        ShapeModel::NamedArgument(n, t) => HoleModel { args: h.args.push((n, t)), ..h },
        ShapeModel::Capability(c) => HoleModel { ty: None, tr: Some(c), ..h },
        ShapeModel::NoMatch => h,
    }
}

/// At most one of the type and the capability is known.
pub open spec fn one_kind(h: HoleModel) -> bool {
    !(h.ty is Some && h.tr is Some)
}

/// `h` sits at `file`, `line`.
pub open spec fn at(h: HoleModel, file: Seq<char>, line: u64) -> bool {
    h.file == file && h.line == line
}

/// No two holes share a site.
pub open spec fn distinct_sites(hs: Seq<HoleModel>) -> bool {
    forall|i: int, j: int|
        0 <= i < hs.len() && 0 <= j < hs.len() && i != j ==> !at(#[trigger] hs[i], hs[j].file, #[trigger] hs[j].line)
}

/// `hs` after one diagnostic for `file`, `line`: the hole there takes it in,
/// or a new hole with `context` is added at the end and takes it in.
pub open spec fn record(hs: Seq<HoleModel>, file: Seq<char>, line: u64, context: Seq<Seq<char>>, s: ShapeModel) -> Seq<HoleModel> {
    if exists|i: int| 0 <= i < hs.len() && at(#[trigger] hs[i], file, line) {
        let i = choose|i: int| 0 <= i < hs.len() && at(#[trigger] hs[i], file, line);
        hs.update(i, apply_shape(hs[i], s))
    } else {
        hs.push(apply_shape(fresh(file, line, context), s))
    }
}

impl Hole {
    /// Takes in what one diagnostic says of this hole.
    pub fn apply(&mut self, s: Shape)
        ensures
            final(self)@ == apply_shape(old(self)@, s@),
    {
        match s {
            Shape::ConcreteType(t) => {
                self.ty = Some(t);
                self.tr = None;
            },
            Shape::NamedArgument(n, t) => {
                self.args.push((n, t));
                assert(pairs(self.args@) =~= pairs(old(self).args@).push((s@->NamedArgument_0, s@->NamedArgument_1)));
            },
            Shape::Capability(c) => {
                self.ty = None;
                self.tr = Some(c);
            },
            Shape::NoMatch => {},
        }
    }
}

/// The holes gathered so far, in the order their sites first came up.
pub struct Holes {
    pub entries: Vec<Hole>,
}

impl View for Holes {
    type V = Seq<HoleModel>;

    open spec fn view(&self) -> Seq<HoleModel> {
        self.entries@.map_values(|h: Hole| h@)
    }
}

impl Holes {
    /// Each site has one hole at most, and no hole knows both a type and a
    /// capability.
    pub open spec fn wf(&self) -> bool {
        distinct_sites(self@) && forall|i: int| 0 <= i < self@.len() ==> one_kind(#[trigger] self@[i])
    }

    /// An empty table.
    pub fn new() -> (r: Holes)
        ensures
            r@ == Seq::<HoleModel>::empty(),
            r.wf(),
    {
        let r = Holes { entries: Vec::new() };
        assert(r@ =~= Seq::<HoleModel>::empty());
        r
    }

    /// Where the hole at `file`, `line` stands, if there is one.
    pub fn find(&self, file: &str, line: u64) -> (r: Option<usize>)
        ensures
            match r {
                Some(i) => i < self@.len() && at(self@[i as int], file@, line),
                None => forall|i: int| 0 <= i < self@.len() ==> !at(#[trigger] self@[i], file@, line),
            },
    {
        let mut i: usize = 0;
        while i < self.entries.len()
            invariant
                i <= self@.len(),
                self@.len() == self.entries@.len(),
                forall|j: int| 0 <= j < i ==> !at(#[trigger] self@[j], file@, line),
            decreases self.entries.len() - i,
        {
            if self.entries[i].line == line && text_eq(self.entries[i].file.as_str(), file) {
                return Some(i);
            }
            i = i + 1;
        }
        None
    }

    /// Takes in one diagnostic for the call site at `file`, `line`;
    /// `context` is kept only where the site is new.
    pub fn record(&mut self, file: &str, line: u64, context: Vec<String>, s: Shape)
        requires
            old(self).wf(),
        ensures
            final(self).wf(),
            final(self)@ == record(old(self)@, file@, line, texts(context@), s@),
    {
        let ghost hs = self@;
        match self.find(file, line) {
            Some(i) => {
                assert(exists|k: int| 0 <= k < hs.len() && at(#[trigger] hs[k], file@, line)) by {
                    assert(at(hs[i as int], file@, line));
                }
                let ghost k = choose|k: int| 0 <= k < hs.len() && at(#[trigger] hs[k], file@, line);
                assert(k == i) by {
                    if k != i {
                        assert(!at(hs[k], hs[i as int].file, hs[i as int].line));
                    }
                }
                self.entries[i].apply(s);
                assert(self@ =~= hs.update(i as int, apply_shape(hs[i as int], s@)));
            },
            None => {
                let mut h = Hole {
                    ty: None,
                    tr: None,
                    args: Vec::new(),
                    file: String::from_str(file),
                    line,
                    context,
                };
                assert(h@ == fresh(file@, line, texts(context@))) by {
                    assert(pairs(h.args@) =~= Seq::empty());
                }
                h.apply(s);
                self.entries.push(h);
                assert(self@ =~= hs.push(apply_shape(fresh(file@, line, texts(context@)), s@)));
            },
        }
    }
}

} // verus!
