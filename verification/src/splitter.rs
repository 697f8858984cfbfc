//! Tells a single expression from a list of bindings, and cuts the list into
//! its names and expressions.
//!
//! A binding starts at a marker: a name at the start of a line, optional white
//! space, an equals sign and one space. The expression bound to the name is
//! what stands between the end of its marker and two characters before the
//! next marker, or two characters before the end of the text, without the
//! white space around it. The two characters are the `;` and the line break
//! that the caller is expected to end a binding with. Where less than that is
//! left, the expression is empty.

use crate::text::{chars_of, string_of_range, trim, trim_bounds};
use vstd::prelude::*;

verus! {

/// One `name = ` marker, by byte offsets into the UTF-8 text that holds it.
#[derive(Clone, Copy, Debug, PartialEq, Eq, Structural)]
pub struct Marker {
    /// Where the marker, and with it the name, starts.
    pub start: usize,
    /// Where the name ends.
    pub name_end: usize,
    /// Where the marker ends.
    pub end: usize,
}

/// A name and the source of the expression bound to it.
#[derive(Clone, Debug, PartialEq, Eq)]
pub struct Assignment {
    pub name: String,
    pub value: String,
}

/// What is to be evaluated.
#[derive(Clone, Debug, PartialEq, Eq)]
pub enum EvaluationUnit {
    /// The whole input, as one expression.
    Expression(String),
    /// The bindings of the input, in source order.
    Assignment(Vec<Assignment>),
}

/// The mathematical content of an [`EvaluationUnit`]; a binding is its name
/// and its expression.
pub enum UnitView {
    Expression(Seq<char>),
    Assignment(Seq<(Seq<char>, Seq<char>)>),
}

/// The bindings of `v` as pairs of name and expression.
pub open spec fn bindings(v: Seq<Assignment>) -> Seq<(Seq<char>, Seq<char>)> {
    v.map_values(|a: Assignment| (a.name@, a.value@))
}

impl View for EvaluationUnit {
    type V = UnitView;

    open spec fn view(&self) -> UnitView {
        match self {
            EvaluationUnit::Expression(e) => UnitView::Expression(e@),
            EvaluationUnit::Assignment(list) => UnitView::Assignment(bindings(list@)),
        }
    }
}

/// The pattern of a marker.
pub open spec fn marker_pattern() -> Seq<char> {
    "(?m)^(?P<assignment>(?P<variable_name>[^\\s]+)\\s*= )"@
}

/// The group of the pattern that spans the whole marker.
pub open spec fn marker_group() -> Seq<char> {
    "assignment"@
}

/// The group of the pattern that spans the name.
pub open spec fn name_group() -> Seq<char> {
    "variable_name"@
}

/// The number of bytes that `c` takes in UTF-8.
pub open spec fn utf8_width(c: char) -> int {
    let u = c as u32;
    if u < 0x80 {
        1
    } else if u < 0x800 {
        2
    } else if u < 0x10000 {
        3
    } else {
        4
    }
}

/// The number of characters of `s` that start before the byte offset `offset`
/// of its UTF-8 form: the index of the character that starts at `offset`, and
/// the length of `s` for an offset at or past its end.
pub open spec fn char_index(s: Seq<char>, offset: int) -> int
    decreases s.len(),
{
    if s.len() == 0 || offset <= 0 {
        0
    } else {
        1 + char_index(s.skip(1), offset - utf8_width(s[0]))
    }
}

/// The larger of `a` and `b`.
pub open spec fn at_least(a: int, b: int) -> int {
    if a >= b {
        a
    } else {
        b
    }
}

/// The name that the marker `i` binds.
pub open spec fn name_at(text: Seq<char>, markers: Seq<Marker>, i: int) -> Seq<char> {
    let from = char_index(text, markers[i].start as int);
    let to = at_least(from, char_index(text, markers[i].name_end as int));
    text.subrange(from, to)
}

/// The expression that the marker `i` binds.
pub open spec fn value_at(text: Seq<char>, markers: Seq<Marker>, i: int) -> Seq<char> {
    let from = char_index(text, markers[i].end as int);
    let bound = if i + 1 < markers.len() {
        char_index(text, markers[i + 1].start as int)
    } else {
        text.len() as int
    };
    let to = at_least(from, bound - 2);
    trim(text.subrange(from, to))
}

/// What `text` with the markers `markers` is cut into: without a marker the
/// text itself, as one expression; else one binding for each marker, in
/// order.
pub open spec fn split_spec(text: Seq<char>, markers: Seq<Marker>) -> UnitView {
    if markers.len() == 0 {
        UnitView::Expression(text)
    } else {
        UnitView::Assignment(
            Seq::new(markers.len(), |i: int| (name_at(text, markers, i), value_at(text, markers, i))),
        )
    }
}

/// The markers among the matches of the pattern: each match in which both
/// groups took part, in order. A pattern that does not compile has none.
pub open spec fn markers_of(
    found: Option<Seq<(Option<(usize, usize)>, Option<(usize, usize)>)>>,
) -> Seq<Marker> {
    match found {
        Some(spans) => marked(spans),
        None => seq![],
    }
}

/// The markers among `spans`, in order.
pub open spec fn marked(spans: Seq<(Option<(usize, usize)>, Option<(usize, usize)>)>) -> Seq<
    Marker,
>
    decreases spans.len(),
{
    if spans.len() == 0 {
        seq![]
    } else {
        let head = marked(spans.drop_last());
        match spans.last() {
            (Some(whole), Some(name)) => head.push(
                Marker { start: whole.0, name_end: name.1, end: whole.1 },
            ),
            _ => head,
        }
    }
}

/// For each match of the regular expression `pattern` in `text`, in the order
/// in which the `regex` crate finds them, the byte offsets of the start and
/// the end of what the groups named `whole` and `part` matched, `None` for a
/// group that took no part in the match or that the pattern does not have;
/// `None` for all of it where the crate does not take `pattern` for a regular
/// expression.
pub uninterp spec fn regex_group_spans(
    pattern: Seq<char>,
    whole: Seq<char>,
    part: Seq<char>,
    text: Seq<char>,
) -> Option<Seq<(Option<(usize, usize)>, Option<(usize, usize)>)>>;

/// Runs `regex::Regex::new` on `pattern` and `Regex::captures_iter` on
/// `text`, and reads from each `Captures` the groups named `whole` and `part`
/// with `Captures::name`, `Match::start` and `Match::end`. The contract only
/// names what comes back, which the four texts alone decide; it says nothing
/// of where the matches lie.
#[verifier::external_body]
fn group_spans(pattern: &str, whole: &str, part: &str, text: &str) -> (out: Option<
    Vec<(Option<(usize, usize)>, Option<(usize, usize)>)>,
>)
    ensures
        match out {
            Some(spans) => regex_group_spans(pattern@, whole@, part@, text@) == Some(spans@),
            None => regex_group_spans(pattern@, whole@, part@, text@) is None,
        },
{
    let compiled = regex::Regex::new(pattern).ok()?;
    let mut out = Vec::new();
    for found in compiled.captures_iter(text) {
        let outer = found.name(whole).map(|m| (m.start(), m.end()));
        let inner = found.name(part).map(|m| (m.start(), m.end()));
        out.push((outer, inner));
    }
    Some(out)
}

/// The markers of `text`, in order.
pub fn find_markers(text: &str) -> (out: Vec<Marker>)
    ensures
        out@ == markers_of(
            regex_group_spans(marker_pattern(), marker_group(), name_group(), text@),
        ),
{
    let found = group_spans(
        "(?m)^(?P<assignment>(?P<variable_name>[^\\s]+)\\s*= )",
        "assignment",
        "variable_name",
        text,
    );
    let mut out: Vec<Marker> = Vec::new();
    match found {
        None => {},
        Some(spans) => {
            let mut i: usize = 0;
            while i < spans.len()
                invariant
                    i <= spans@.len(),
                    out@ == marked(spans@.take(i as int)),
                decreases spans@.len() - i,
            {
                assert(spans@.take(i + 1).drop_last() == spans@.take(i as int));
                match spans[i] {
                    (Some(whole), Some(name)) => {
                        out.push(Marker { start: whole.0, name_end: name.1, end: whole.1 });
                    },
                    _ => {},
                }
                i += 1;
            }
            assert(spans@.take(spans@.len() as int) == spans@);
        },
    }
    out
}

/// The width of `c` in UTF-8.
fn width_of(c: char) -> (w: usize)
    ensures
        w == utf8_width(c),
{
    let u: u32 = c as u32;
    if u < 0x80 {
        1
    } else if u < 0x800 {
        2
    } else if u < 0x10000 {
        3
    } else {
        4
    }
}

/// The index of the character at the byte offset `offset`.
pub fn char_index_of(chars: &Vec<char>, offset: usize) -> (index: usize)
    ensures
        index == char_index(chars@, offset as int),
        index <= chars@.len(),
{
    let mut index: usize = 0;
    let mut left: usize = offset;
    assert(chars@.skip(0) == chars@);
    while index < chars.len() && left > 0
        invariant
            index <= chars@.len(),
            char_index(chars@, offset as int) == index + char_index(
                chars@.skip(index as int),
                left as int,
            ),
        decreases chars@.len() - index,
    {
        let w = width_of(chars[index]);
        assert(chars@.skip(index as int).skip(1) == chars@.skip(index + 1));
        assert(chars@.skip(index as int)[0] == chars@[index as int]);
        if left > w {
            left = left - w;
        } else {
            proof {
                lemma_char_index_spent(chars@.skip(index + 1), left - w);
            }
            left = 0;
        }
        index += 1;
    }
    proof {
        lemma_char_index_spent(chars@.skip(index as int), left as int);
        if left > 0 {
            assert(chars@.skip(index as int).len() == 0);
        }
    }
    index
}

/// No character starts before an offset that is not positive.
proof fn lemma_char_index_spent(s: Seq<char>, offset: int)
    ensures
        offset <= 0 || s.len() == 0 ==> char_index(s, offset) == 0,
        offset <= 0 ==> char_index(s, offset) == char_index(s, 0),
{
}

/// Whether every character of `s` takes one byte in UTF-8.
pub open spec fn single_bytes(s: Seq<char>) -> bool {
    forall|i: int| 0 <= i < s.len() ==> utf8_width(#[trigger] s[i]) == 1
}

/// In a text of one-byte characters a byte offset is a character index: the
/// offset itself, or the length of the text where the offset lies past it.
pub proof fn lemma_char_index_single_bytes(s: Seq<char>, offset: int)
    requires
        single_bytes(s),
        0 <= offset,
    ensures
        char_index(s, offset) == if offset <= s.len() {
            offset
        } else {
            s.len() as int
        },
    decreases s.len(),
{
    if s.len() > 0 && offset > 0 {
        assert(utf8_width(s[0]) == 1);
        assert forall|i: int| 0 <= i < s.skip(1).len() implies utf8_width(
            #[trigger] s.skip(1)[i],
        ) == 1 by {
            assert(s.skip(1)[i] == s[i + 1]);
        }
        lemma_char_index_single_bytes(s.skip(1), offset - 1);
    }
}

/// Cuts `text` at `markers`, which are byte offsets into it.
pub fn split_at_markers(text: &str, markers: &Vec<Marker>) -> (unit: EvaluationUnit)
    ensures
        unit@ == split_spec(text@, markers@),
        markers@.len() == 0 ==> unit@ == UnitView::Expression(text@),
        markers@.len() > 0 ==> unit@ is Assignment && unit@->Assignment_0.len() == markers@.len(),
{
    if markers.len() == 0 {
        return EvaluationUnit::Expression(text.to_owned());
    }
    let chars = chars_of(text);
    let mut list: Vec<Assignment> = Vec::new();
    let mut i: usize = 0;
    while i < markers.len()
        invariant
            i <= markers@.len(),
            chars@ == text@,
            list@.len() == i,
            forall|k: int|
                0 <= k < i ==> #[trigger] bindings(list@)[k] == (
                    name_at(text@, markers@, k),
                    value_at(text@, markers@, k),
                ),
        decreases markers@.len() - i,
    {
        let m = markers[i];
        let name_from = char_index_of(&chars, m.start);
        let name_stop = char_index_of(&chars, m.name_end);
        let name_to = if name_stop >= name_from {
            name_stop
        } else {
            name_from
        };
        let from = char_index_of(&chars, m.end);
        let bound = if i + 1 < markers.len() {
            char_index_of(&chars, markers[i + 1].start)
        } else {
            chars.len()
        };
        let to = if bound >= 2 && bound - 2 >= from {
            bound - 2
        } else {
            from
        };
        let (lo, hi) = trim_bounds(&chars, from, to);
        let name = string_of_range(&chars, name_from, name_to);
        let value = string_of_range(&chars, lo, hi);
        let ghost before = list@;
        list.push(Assignment { name, value });
        assert forall|k: int| 0 <= k < i + 1 implies #[trigger] bindings(list@)[k] == (
            name_at(text@, markers@, k),
            value_at(text@, markers@, k),
        ) by {
            if k < i {
                assert(bindings(list@)[k] == bindings(before)[k]);
            }
        }
        i += 1;
    }
    assert(bindings(list@) =~= Seq::new(
        markers@.len(),
        |k: int| (name_at(text@, markers@, k), value_at(text@, markers@, k)),
    ));
    EvaluationUnit::Assignment(list)
}

/// Cuts `text` into what is to be evaluated: the text itself where it holds
/// no marker, else one binding for each of its markers, in source order.
pub fn split(text: &str) -> (unit: EvaluationUnit)
    ensures
        unit@ == split_spec(
            text@,
            markers_of(regex_group_spans(marker_pattern(), marker_group(), name_group(), text@)),
        ),
        markers_of(
            regex_group_spans(marker_pattern(), marker_group(), name_group(), text@),
        ).len() == 0 ==> unit@ == UnitView::Expression(text@),
{
    let markers = find_markers(text);
    split_at_markers(text, &markers)
}

} // verus!
