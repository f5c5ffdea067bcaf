//! The shapes of the diagnostics that a placeholder induces, recognised with
//! regular expressions.

use vstd::prelude::*;

verus! {

/// The expression that tells the shapes of an induced diagnostic apart: a
/// concrete type for the whole call or for one named (or positional)
/// argument, or a capability in one of three phrasings.
pub const TYPE_PATTERN: &'static str = "(?:`(.*): .*::What(?:_([a-zA-Z_][a-zA-Z_0-9]*)|_(0+))?`|`.*::WhatTrait: (.*)`|`.*::WhatTrait` doesn't implement `(.*)`|expected.*`(.*)`.*found `.*::WhatTrait`)";

/// A literal call of the placeholder: `what!(` that is not followed by `@`,
/// which marks the placeholder's own inner expansions.
pub const SITE_PATTERN: &'static str = "what!\\((?:[^@]|$)";

/// The gutter at the start of a rendered source line: line number and bar.
pub const GUTTER_PATTERN: &'static str = "^[ 0-9-]+[|>]";

/// An underline.
pub const SQUIGGLE_PATTERN: &'static str = "\\^+";

/// The groups that a regular expression captures at its first match in a
/// text (group 0 is the whole match), or `None` where it does not match.
pub uninterp spec fn regex_captures_of(pattern: Seq<char>, text: Seq<char>) -> Option<Seq<Option<Seq<char>>>>;

/// Where the first match of a regular expression in a text starts and ends,
/// counted in characters.
pub uninterp spec fn regex_find_of(pattern: Seq<char>, text: Seq<char>) -> Option<(int, int)>;

/// A captured group, as characters.
pub open spec fn group_view(g: Option<String>) -> Option<Seq<char>> {
    match g {
        Some(s) => Some(s@),
        None => None,
    }
}

/// All captured groups, as characters.
pub open spec fn groups_view(r: Option<Vec<Option<String>>>) -> Option<Seq<Option<Seq<char>>>> {
    match r {
        Some(v) => Some(v@.map_values(|g: Option<String>| group_view(g))),
        None => None,
    }
}

/// Relies on regex::Regex::new and Regex::captures: the groups of the first
/// match of `pattern` in `text`, as texts (`None` also where `pattern` does
/// not compile).
#[verifier::external_body]
fn regex_captures(pattern: &str, text: &str) -> (r: Option<Vec<Option<String>>>)
    ensures
        groups_view(r) == regex_captures_of(pattern@, text@),
{
    let re = regex::Regex::new(pattern).ok()?;
    let caps = re.captures(text)?;
    Some(caps.iter().map(|g| g.map(|m| m.as_str().to_string())).collect())
}

/// Relies on regex::Regex::new and Regex::find: the first match of `pattern`
/// in `text`, handed back as the text before it, the match, and the text
/// after it (`None` also where `pattern` does not compile).
#[verifier::external_body]
fn regex_find(pattern: &str, text: &str) -> (r: Option<(String, String, String)>)
    ensures
        match regex_find_of(pattern@, text@) {
            Some((a, b)) => {
                &&& 0 <= a <= b <= text@.len()
                &&& r matches Some(p)
                &&& p.0@ == text@.subrange(0, a)
                &&& p.1@ == text@.subrange(a, b)
                &&& p.2@ == text@.subrange(b, text@.len() as int)
            },
            None => r is None,
        },
{
    let re = regex::Regex::new(pattern).ok()?;
    let m = re.find(text)?;
    Some((text[..m.start()].to_string(), m.as_str().to_string(), text[m.end()..].to_string()))
}

/// The first match of `pattern` in `text`, split as `regex_find` splits it.
pub fn find_split(pattern: &str, text: &str) -> (r: Option<(String, String, String)>)
    ensures
        match regex_find_of(pattern@, text@) {
            Some((a, b)) => {
                &&& 0 <= a <= b <= text@.len()
                &&& r matches Some(p)
                &&& p.0@ == text@.subrange(0, a)
                &&& p.1@ == text@.subrange(a, b)
                &&& p.2@ == text@.subrange(b, text@.len() as int)
            },
            None => r is None,
        },
{
    regex_find(pattern, text)
}

/// `pattern` matches somewhere in `text`.
pub open spec fn matches_in(pattern: Seq<char>, text: Seq<char>) -> bool {
    regex_captures_of(pattern, text) is Some
}

/// Whether `pattern` matches somewhere in `text`.
pub fn is_match(pattern: &str, text: &str) -> (r: bool)
    ensures
        r == matches_in(pattern@, text@),
{
    regex_captures(pattern, text).is_some()
}

/// The decimal digit `d`.
pub open spec fn digit(d: nat) -> char {
    if d == 0 { '0' } else if d == 1 { '1' } else if d == 2 { '2' } else if d == 3 { '3' }
    else if d == 4 { '4' } else if d == 5 { '5' } else if d == 6 { '6' } else if d == 7 { '7' }
    else if d == 8 { '8' } else { '9' }
}

/// `n` written in decimal, without leading zeros.
pub open spec fn decimal(n: nat) -> Seq<char>
    decreases n,
{
    if n < 10 {
        seq![digit(n)]
    } else {
        decimal(n / 10).push(digit(n % 10))
    }
}

/// The decimal digit `d`, as a string.
fn digit_text(d: usize) -> (r: &'static str)
    requires
        d < 10,
    ensures
        r@ == seq![digit(d as nat)],
{
    proof {
        reveal_strlit("0");
        reveal_strlit("1");
        reveal_strlit("2");
        reveal_strlit("3");
        reveal_strlit("4");
        reveal_strlit("5");
        reveal_strlit("6");
        reveal_strlit("7");
        reveal_strlit("8");
        reveal_strlit("9");
    }
    let r = if d == 0 { "0" } else if d == 1 { "1" } else if d == 2 { "2" } else if d == 3 { "3" }
        else if d == 4 { "4" } else if d == 5 { "5" } else if d == 6 { "6" } else if d == 7 { "7" }
        else if d == 8 { "8" } else { "9" };
    assert(r@ =~= seq![digit(d as nat)]);
    r
}

/// `n` in decimal.
pub fn decimal_string(n: usize) -> (r: String)
    ensures
        r@ == decimal(n as nat),
    decreases n,
{
    if n < 10 {
        String::from_str(digit_text(n))
    } else {
        let mut s = decimal_string(n / 10);
        s.append(digit_text(n % 10));
        s
    }
}

/// What one induced diagnostic says of its call site.
pub enum Shape {
    /// The type expected of the whole call.
    ConcreteType(String),
    /// The type of one argument: its name (or position), then its type.
    NamedArgument(String, String),
    /// A capability that the value at the call site must have.
    Capability(String),
    NoMatch,
}

/// `Shape`, over character sequences.
pub ghost enum ShapeModel {
    ConcreteType(Seq<char>),
    NamedArgument(Seq<char>, Seq<char>),
    Capability(Seq<char>),
    NoMatch,
}

impl View for Shape {
    type V = ShapeModel;

    open spec fn view(&self) -> ShapeModel {
        match self {
            Shape::ConcreteType(t) => ShapeModel::ConcreteType(t@),
            Shape::NamedArgument(n, t) => ShapeModel::NamedArgument(n@, t@),
            Shape::Capability(c) => ShapeModel::Capability(c@),
            Shape::NoMatch => ShapeModel::NoMatch,
        }
    }
}

/// Group `i`, where there is one.
pub open spec fn group(g: Seq<Option<Seq<char>>>, i: int) -> Option<Seq<char>> {
    if 0 <= i < g.len() { g[i] } else { None }
}

/// The argument's name: a named one as written, or a run of `k` zeros, which
/// stands for position `k - 1`.
pub open spec fn argument_of(g: Seq<Option<Seq<char>>>) -> Option<Seq<char>> {
    match group(g, 2) {
        Some(a) => Some(a),
        None => match group(g, 3) {
            Some(z) => if z.len() > 0 { Some(decimal((z.len() - 1) as nat)) } else { None },
            None => None,
        },
    }
}

/// The capability, in whichever of the three phrasings matched.
pub open spec fn capability_of(g: Seq<Option<Seq<char>>>) -> Option<Seq<char>> {
    match group(g, 4) {
        Some(c) => Some(c),
        None => match group(g, 5) {
            Some(c) => Some(c),
            None => group(g, 6),
        },
    }
}

/// The shape that the captured groups of `TYPE_PATTERN` describe.
pub open spec fn shape_of_groups(g: Seq<Option<Seq<char>>>) -> ShapeModel {
    match group(g, 1) {
        Some(t) => match argument_of(g) {
            Some(a) => ShapeModel::NamedArgument(a, t),
            None => ShapeModel::ConcreteType(t),
        },
        None => match capability_of(g) {
            Some(c) => ShapeModel::Capability(c),
            None => ShapeModel::NoMatch,
        },
    }
}

/// The shape of a diagnostic's short message.
pub open spec fn shape_of(message: Seq<char>) -> ShapeModel {
    match regex_captures_of(TYPE_PATTERN@, message) {
        Some(g) => shape_of_groups(g),
        None => ShapeModel::NoMatch,
    }
}

/// Takes group `i` out of `groups`.
fn take_group(groups: &mut Vec<Option<String>>, i: usize) -> (r: Option<String>)
    ensures
        group_view(r) == group(old(groups)@.map_values(|g: Option<String>| group_view(g)), i as int),
        final(groups)@.len() == old(groups)@.len(),
        forall|j: int| 0 <= j < old(groups)@.len() && j != i ==> #[trigger] final(groups)@[j] == old(groups)@[j],
{
    if i < groups.len() {
        let mut out: Option<String> = None;
        std::mem::swap(&mut out, &mut groups[i]);
        out
    } else {
        None
    }
}

/// Tells the shape apart from what `TYPE_PATTERN` captured.
pub fn shape_from_groups(groups: Vec<Option<String>>) -> (r: Shape)
    ensures
        r@ == shape_of_groups(groups@.map_values(|g: Option<String>| group_view(g))),
{
    let ghost g = groups@.map_values(|g: Option<String>| group_view(g));
    let mut groups = groups;
    let ty = take_group(&mut groups, 1);
    let named = take_group(&mut groups, 2);
    let zeros = take_group(&mut groups, 3);
    let c4 = take_group(&mut groups, 4);
    let c5 = take_group(&mut groups, 5);
    let c6 = take_group(&mut groups, 6);
    let arg = match named {
        Some(a) => Some(a),
        None => match zeros {
            Some(z) => {
                let k = z.as_str().unicode_len();
                if k > 0 {
                    Some(decimal_string(k - 1))
                } else {
                    None
                }
            },
            None => None,
        },
    };
    assert(group_view(arg) == argument_of(g));
    match ty {
        Some(t) => match arg {
            Some(a) => Shape::NamedArgument(a, t),
            None => Shape::ConcreteType(t),
        },
        None => match c4 {
            Some(c) => Shape::Capability(c),
            None => match c5 {
                Some(c) => Shape::Capability(c),
                None => match c6 {
                    Some(c) => Shape::Capability(c),
                    None => Shape::NoMatch,
                },
            },
        },
    }
}

/// The shape of a diagnostic's short message, as `TYPE_PATTERN` tells it.
pub fn shape_of_message(message: &str) -> (r: Shape)
    ensures
        r@ == shape_of(message@),
{
    match regex_captures(TYPE_PATTERN, message) {
        Some(groups) => shape_from_groups(groups),
        None => Shape::NoMatch,
    }
}

} // verus!
