//! From evaluated text to the reply: the set literal of a list of bindings,
//! the formatter, and the code fence.
//!
//! The formatter is not handed every text. It panics on some, ends the
//! process on texts that nest too deep, and takes minutes over others, so
//! [`can_format`] looks at a text first and [`format`] hands back unchanged
//! what does not pass: a reply is then shown as the evaluator wrote it.

use crate::outcome::{reply_of, reply_view, EvaluationOutcome, OutcomeView};
use crate::text::{
    chars_of, is_space, is_white_space, join, join_all, lemma_texts_push, matches_at, occurs_at,
    texts,
};
use vstd::prelude::*;

verus! {

/// `text` in a fence that marks it as Nix source.
pub open spec fn code_block(text: Seq<char>) -> Seq<char> {
    "```nix\n"@ + text + "\n```"@
}

/// The line of a set literal that binds `name` to `value`.
pub open spec fn attr_line(name: Seq<char>, value: Seq<char>) -> Seq<char> {
    "  "@ + name + " = "@ + value + ";"@
}

/// The set literal that holds each of `entries`, a name and a value, on a
/// line of its own, in order.
pub open spec fn attr_set(entries: Seq<(Seq<char>, Seq<char>)>) -> Seq<char> {
    "{\n"@ + join(entries.map_values(|e: (Seq<char>, Seq<char>)| attr_line(e.0, e.1)), "\n"@)
        + "\n}"@
}

/// The views of pairs of strings.
pub open spec fn pairs(v: Seq<(String, String)>) -> Seq<(Seq<char>, Seq<char>)> {
    v.map_values(|e: (String, String)| (e.0@, e.1@))
}

/// The names and the views of the outcomes of `v`.
pub open spec fn named_outcomes(v: Seq<(String, EvaluationOutcome)>) -> Seq<
    (Seq<char>, OutcomeView),
> {
    v.map_values(|e: (String, EvaluationOutcome)| (e.0@, e.1@))
}

/// The longest text, in characters, that is handed to the formatter.
pub const MAX_FORMAT_CHARS: usize = 16384;

/// The heaviest text that is handed to the formatter: the most signs, names,
/// numbers and strings that it may hold.
pub const MAX_FORMAT_WEIGHT: usize = 256;

/// The heaviest path in a text that is handed to the formatter: the most
/// signs, names, numbers and strings that may lie on the way from the outside
/// of the text into any one place of it, and so the deepest that the text can
/// nest and the longest that a chain in it can be.
pub const MAX_FORMAT_PATH: usize = 10;

/// Whether `c` is a letter of the Latin alphabet.
pub open spec fn is_letter(c: char) -> bool {
    ('a' <= c && c <= 'z') || ('A' <= c && c <= 'Z')
}

/// `word` stands in `s` at index `i` with no letter before it and none after
/// it.
pub open spec fn whole_word_at(s: Seq<char>, word: Seq<char>, i: int) -> bool {
    &&& occurs_at(s, word, i)
    &&& (i == 0 || !is_letter(s[i - 1]))
    &&& (i + word.len() == s.len() || !is_letter(s[i + word.len()]))
}

/// A keyword of the language stands in `s` at index `i`, as a whole word.
pub open spec fn keyword_at(s: Seq<char>, i: int) -> bool {
    ||| whole_word_at(s, "assert"@, i)
    ||| whole_word_at(s, "else"@, i)
    ||| whole_word_at(s, "if"@, i)
    ||| whole_word_at(s, "in"@, i)
    ||| whole_word_at(s, "inherit"@, i)
    ||| whole_word_at(s, "let"@, i)
    ||| whole_word_at(s, "or"@, i)
    ||| whole_word_at(s, "rec"@, i)
    ||| whole_word_at(s, "then"@, i)
    ||| whole_word_at(s, "with"@, i)
}

/// Whether the character at index `i` of `s` stands inside a plain string,
/// and whether a backslash before it takes its meaning away. A plain string
/// runs from a double quote to the next double quote that no backslash
/// guards; the quote that opens it counts as outside, the one that closes it
/// as inside.
pub open spec fn in_string(s: Seq<char>, i: int) -> (bool, bool)
    decreases i,
{
    if i <= 0 {
        (false, false)
    } else {
        let (inside, escaped) = in_string(s, i - 1);
        let c = s[i - 1];
        if !inside {
            (c == '"', false)
        } else if escaped {
            (true, false)
        } else if c == '\\' {
            (true, true)
        } else {
            (c != '"', false)
        }
    }
}

/// At index `i` of `s` something starts that the formatter is not trusted
/// with: an interpolation or a dynamic key (`${`), wherever it stands; or,
/// outside a plain string, a comment (`#`, `/*`), an indented string (`''`),
/// a function or an address (`:`, `@`), or a keyword.
pub open spec fn bad_at(s: Seq<char>, i: int) -> bool {
    ||| (i + 1 < s.len() && s[i] == '$' && s[i + 1] == '{')
    ||| !in_string(s, i).0 && {
        ||| s[i] == '#'
        ||| s[i] == ':'
        ||| s[i] == '@'
        ||| (i + 1 < s.len() && s[i] == '/' && s[i + 1] == '*')
        ||| (i + 1 < s.len() && s[i] == '\'' && s[i + 1] == '\'')
        ||| keyword_at(s, i)
    }
}

/// Whether `c` is a letter, a digit or an underscore.
pub open spec fn is_word_char(c: char) -> bool {
    is_letter(c) || is_digit(c) || c == '_'
}

/// Whether `c` is a decimal digit.
pub open spec fn is_digit(c: char) -> bool {
    '0' <= c && c <= '9'
}

/// Whether something may start at index `i` of `s` that makes the formatter
/// go one step deeper: a sign outside the plain strings, the start of a name
/// or a number, or the quote that opens a plain string. What stands inside a
/// plain string, white space, and the rest of a name or a number do not.
pub open spec fn starts_token(s: Seq<char>, i: int) -> bool {
    &&& !in_string(s, i).0
    &&& !is_space(s[i])
    &&& (!is_word_char(s[i]) || i == 0 || !is_word_char(s[i - 1]) || (is_digit(s[i - 1])
        && !is_digit(s[i])))
}

/// How many of the first `n` characters of `s` start something.
pub open spec fn weight(s: Seq<char>, n: int) -> int
    decreases n,
{
    if n <= 0 {
        0
    } else {
        weight(s, n - 1) + if starts_token(s, n - 1) {
            1int
        } else {
            0int
        }
    }
}

/// Where a scan of a text stands: how many brackets are open, whether the
/// outermost of them opened a set, the weight of what stands outside all
/// brackets, the weight of what stands inside them since the last binding
/// of an outermost set ended, and the largest that this has been.
pub struct Levels {
    pub depth: int,
    pub in_set: bool,
    pub top: int,
    pub segment: int,
    pub worst: int,
}

/// Whether `c` opens a bracket.
pub open spec fn is_opener(c: char) -> bool {
    c == '(' || c == '[' || c == '{'
}

/// Whether `c` closes a bracket.
pub open spec fn is_closer(c: char) -> bool {
    c == ')' || c == ']' || c == '}'
}

/// Where the scan stands after the first `n` characters of `s`. Brackets
/// are counted as they open and close, whatever their kind; what stands in a
/// plain string is passed over. The bindings of a set that lies outside all
/// other brackets are weighed one by one: each `;` directly in it starts a
/// new segment. Everything else inside brackets is one segment from the
/// outermost bracket on.
pub open spec fn levels(s: Seq<char>, n: int) -> Levels
    decreases n,
{
    if n <= 0 {
        Levels { depth: 0, in_set: false, top: 0, segment: 0, worst: 0 }
    } else {
        let l = levels(s, n - 1);
        let c = s[n - 1];
        let w = if starts_token(s, n - 1) {
            1int
        } else {
            0int
        };
        if in_string(s, n - 1).0 {
            l
        } else if l.depth <= 0 {
            Levels {
                depth: if is_opener(c) {
                    1
                } else {
                    0
                },
                in_set: c == '{',
                top: l.top + w,
                segment: 0,
                worst: l.worst,
            }
        } else {
            let heavier = l.segment + w;
            Levels {
                depth: if is_opener(c) {
                    l.depth + 1
                } else if is_closer(c) {
                    l.depth - 1
                } else {
                    l.depth
                },
                in_set: l.in_set,
                top: l.top,
                segment: if l.depth == 1 && (is_closer(c) || (c == ';' && l.in_set)) {
                    0
                } else {
                    heavier
                },
                worst: if heavier > l.worst {
                    heavier
                } else {
                    l.worst
                },
            }
        }
    }
}

/// The weight of the heaviest path of `s`: of what stands outside all
/// brackets, together with the heaviest segment inside them.
pub open spec fn path_weight(s: Seq<char>) -> int {
    levels(s, s.len() as int).top + levels(s, s.len() as int).worst
}

/// The texts that are handed to the formatter: no longer than
/// [`MAX_FORMAT_CHARS`], no heavier than [`MAX_FORMAT_WEIGHT`], with no path
/// heavier than [`MAX_FORMAT_PATH`], and without anything that [`bad_at`]
/// names. What is left of the language are literals, names, plain strings,
/// paths, lists, sets, selections, applications, operators and parentheses,
/// in small texts, and in sets of any number of small bindings.
pub open spec fn formattable(nix: Seq<char>) -> bool {
    &&& nix.len() <= MAX_FORMAT_CHARS
    &&& weight(nix, nix.len() as int) <= MAX_FORMAT_WEIGHT
    &&& path_weight(nix) <= MAX_FORMAT_PATH
    &&& forall|i: int| 0 <= i < nix.len() ==> !bad_at(nix, i)
}

/// The weight of a text does not shrink as more of it is counted.
proof fn lemma_weight_grows(s: Seq<char>, i: int, n: int)
    requires
        0 <= i <= n,
    ensures
        weight(s, i) <= weight(s, n),
    decreases n - i,
{
    if i < n {
        lemma_weight_grows(s, i, n - 1);
    }
}

/// What the formatter makes of the Nix source `nix`, which it takes to come
/// from the file `path`.
pub uninterp spec fn formatted(path: Seq<char>, nix: Seq<char>) -> Seq<char>;

/// What a text looks like after formatting: what the formatter makes of it
/// where it is handed over, and the text itself where it is not.
pub open spec fn pretty(nix: Seq<char>) -> Seq<char> {
    if formattable(nix) {
        formatted(Seq::empty(), nix)
    } else {
        nix
    }
}

/// Calls `alejandra::format::in_memory` and keeps the text of what it hands
/// back. The text is decided by the two arguments alone; the contract says no
/// more of it than that.
///
/// The formatter panics on some texts that parse: on an indented string that
/// holds its stand-in for an interpolation, on a block comment indented with
/// characters of several bytes, on a dynamic key without an expression; and
/// the tree library under it counts text in 32 bits. `requires` leaves out
/// every text with a `${`, every text that has a comment, an indented
/// string, a function or a keyword outside its plain strings, and every long
/// one. On what is left the rules of the formatter that run find every child
/// they unwrap, because the parser either built it or recorded an error, and
/// with an error the formatter hands the text back untouched.
///
/// Parser and formatter both descend once for each bracket, operator,
/// selection and argument: a text that nests a thousand deep uses up a stack
/// of two megabytes and ends the process. And the formatter lays out what
/// lies inside a bracket, or before an argument, more than once for each
/// level, so that its time doubles, and more, with each: twenty arguments on
/// lines of their own keep it busy for a minute. Nothing nests deeper, and no
/// chain is longer, than the path has signs, names, numbers and strings that
/// leads to it, so `requires` bounds the weight of every path, and with it
/// the weight of the whole, where the formatter was seen to answer within a
/// fraction of a second. The bindings of an outermost set lie on paths of
/// their own: the formatter takes them one after the other.
#[verifier::external_body]
fn format_in_memory(path: String, nix: String) -> (out: String)
    requires
        formattable(nix@),
    ensures
        out@ == formatted(path@, nix@),
{
    alejandra::format::in_memory(path, nix).1
}

/// Whether `word` stands in `hay` at `at` as a whole word.
fn whole_word(hay: &Vec<char>, word: &Vec<char>, at: usize) -> (r: bool)
    ensures
        r == whole_word_at(hay@, word@, at as int),
{
    if !matches_at(hay, word, at) {
        return false;
    }
    let n = hay.len();
    assert(at + word@.len() <= n);
    let end = at + word.len();
    (at == 0 || !is_latin_letter(hay[at - 1])) && (end == n || !is_latin_letter(hay[end]))
}

/// Whether `c` is a letter of the Latin alphabet.
fn is_latin_letter(c: char) -> (r: bool)
    ensures
        r == is_letter(c),
{
    ('a' <= c && c <= 'z') || ('A' <= c && c <= 'Z')
}

/// Whether a keyword stands in `hay` at `at` as a whole word.
fn keyword_here(hay: &Vec<char>, at: usize) -> (r: bool)
    ensures
        r == keyword_at(hay@, at as int),
{
    whole_word(hay, &chars_of("assert"), at) || whole_word(hay, &chars_of("else"), at)
        || whole_word(hay, &chars_of("if"), at) || whole_word(hay, &chars_of("in"), at)
        || whole_word(hay, &chars_of("inherit"), at) || whole_word(hay, &chars_of("let"), at)
        || whole_word(hay, &chars_of("or"), at) || whole_word(hay, &chars_of("rec"), at)
        || whole_word(hay, &chars_of("then"), at) || whole_word(hay, &chars_of("with"), at)
}

/// Whether `c` is a letter, a digit or an underscore.
fn is_word(c: char) -> (r: bool)
    ensures
        r == is_word_char(c),
{
    is_latin_letter(c) || is_decimal_digit(c) || c == '_'
}

/// Whether `c` is a decimal digit.
fn is_decimal_digit(c: char) -> (r: bool)
    ensures
        r == is_digit(c),
{
    '0' <= c && c <= '9'
}

/// Whether `c` opens or closes a bracket.
fn bracket(c: char) -> (r: (bool, bool))
    ensures
        r.0 == is_opener(c),
        r.1 == is_closer(c),
{
    (c == '(' || c == '[' || c == '{', c == ')' || c == ']' || c == '}')
}

/// Whether `nix` is handed to the formatter.
pub fn can_format(nix: &str) -> (r: bool)
    ensures
        r == formattable(nix@),
{
    let chars = chars_of(nix);
    let n = chars.len();
    if n > MAX_FORMAT_CHARS {
        return false;
    }
    let mut inside = false;
    let mut escaped = false;
    let mut heavy: usize = 0;
    let mut depth: usize = 0;
    let mut in_set = false;
    let mut top: usize = 0;
    let mut segment: usize = 0;
    let mut worst: usize = 0;
    let mut i: usize = 0;
    while i < n
        invariant
            i <= n,
            n == chars@.len(),
            n <= MAX_FORMAT_CHARS,
            chars@ == nix@,
            (inside, escaped) == in_string(chars@, i as int),
            heavy == weight(chars@, i as int),
            heavy <= MAX_FORMAT_WEIGHT,
            levels(chars@, i as int) == (Levels {
                depth: depth as int,
                in_set,
                top: top as int,
                segment: segment as int,
                worst: worst as int,
            }),
            depth <= i,
            top <= i,
            segment <= i,
            worst <= i,
            forall|j: int| 0 <= j < i ==> !bad_at(chars@, j),
        decreases n - i,
    {
        let c = chars[i];
        let next = i + 1 < n;
        if next && c == '$' && chars[i + 1] == '{' {
            assert(bad_at(chars@, i as int));
            return false;
        }
        if !inside {
            let marks = c == '#' || c == ':' || c == '@';
            let opens = next && ((c == '/' && chars[i + 1] == '*') || (c == '\'' && chars[i + 1]
                == '\''));
            if marks || opens || keyword_here(&chars, i) {
                assert(bad_at(chars@, i as int));
                return false;
            }
            let starts = !is_white_space(c) && (!is_word(c) || i == 0 || !is_word(chars[i - 1])
                || (is_decimal_digit(chars[i - 1]) && !is_decimal_digit(c)));
            assert(starts == starts_token(chars@, i as int));
            let w: usize = if starts {
                1
            } else {
                0
            };
            if starts {
                if heavy == MAX_FORMAT_WEIGHT {
                    proof {
                        lemma_weight_grows(chars@, i + 1, n as int);
                    }
                    return false;
                }
                heavy += 1;
            }
            let (opener, closer) = bracket(c);
            if depth == 0 {
                depth = if opener {
                    1
                } else {
                    0
                };
                in_set = c == '{';
                top = top + w;
                segment = 0;
            } else {
                let heavier = segment + w;
                if heavier > worst {
                    worst = heavier;
                }
                segment = if depth == 1 && (closer || (c == ';' && in_set)) {
                    0
                } else {
                    heavier
                };
                if opener {
                    depth = depth + 1;
                } else if closer {
                    depth = depth - 1;
                }
            }
        }
        assert(!bad_at(chars@, i as int));
        if !inside {
            inside = c == '"';
            escaped = false;
        } else if escaped {
            escaped = false;
        } else if c == '\\' {
            escaped = true;
        } else {
            inside = c != '"';
        }
        i += 1;
    }
    top + worst <= MAX_FORMAT_PATH
}

/// Formats Nix source that comes from no file. A text that is not handed to
/// the formatter comes back as it is.
pub fn format(nix: String) -> (out: String)
    ensures
        out@ == pretty(nix@),
{
    if can_format(nix.as_str()) {
        format_in_memory(String::new(), nix)
    } else {
        nix
    }
}

/// Puts `string` in a fence that marks it as Nix source.
pub fn make_code_block(string: &str) -> (out: String)
    ensures
        out@ == code_block(string@),
{
    let mut out = String::from_str("```nix\n");
    out.append(string);
    out.append("\n```");
    out
}

/// The set literal that lists `name = value;` for each entry, in order.
pub fn render_attr_set(entries: &Vec<(String, String)>) -> (out: String)
    ensures
        out@ == attr_set(pairs(entries@)),
{
    let ghost lines_of = pairs(entries@).map_values(
        |e: (Seq<char>, Seq<char>)| attr_line(e.0, e.1),
    );
    let mut lines: Vec<String> = Vec::new();
    let mut i: usize = 0;
    while i < entries.len()
        invariant
            i <= entries@.len(),
            lines_of == pairs(entries@).map_values(
                |e: (Seq<char>, Seq<char>)| attr_line(e.0, e.1),
            ),
            texts(lines@) == lines_of.take(i as int),
        decreases entries@.len() - i,
    {
        let mut line = String::from_str("  ");
        line.append(entries[i].0.as_str());
        line.append(" = ");
        line.append(entries[i].1.as_str());
        line.append(";");
        let ghost before = lines@;
        proof {
            lemma_texts_push(before, line);
            assert(lines_of.take(i + 1) =~= lines_of.take(i as int).push(line@));
        }
        lines.push(line);
        i += 1;
    }
    assert(lines_of.take(entries@.len() as int) == lines_of);
    let body = join_all(&lines, "\n");
    let mut out = String::from_str("{\n");
    out.append(body.as_str());
    out.append("\n}");
    out
}

/// The reply to a single expression: its formatted value in a code fence, or
/// the message of its failure.
pub open spec fn expression_reply_spec(outcome: OutcomeView) -> Result<Seq<char>, Seq<char>> {
    match reply_of(outcome) {
        Ok(value) => Ok(code_block(pretty(value))),
        Err(message) => Err(message),
    }
}

/// The index of the first of `outcomes` that is no value, or their number
/// where all are values.
pub open spec fn first_failure(outcomes: Seq<(Seq<char>, OutcomeView)>) -> int
    decreases outcomes.len(),
{
    if outcomes.len() == 0 {
        0
    } else if !(outcomes[0].1 is Value) {
        0
    } else {
        1 + first_failure(outcomes.skip(1))
    }
}

/// The names of `outcomes` with the values they hold.
pub open spec fn values_of(outcomes: Seq<(Seq<char>, OutcomeView)>) -> Seq<
    (Seq<char>, Seq<char>),
> {
    outcomes.map_values(|e: (Seq<char>, OutcomeView)| (e.0, e.1->Value_0))
}

/// The reply to a list of bindings: where one of them failed, the message of
/// the first that did, in source order, and nothing of the others; else the
/// formatted set literal of all of them, in a code fence.
pub open spec fn assignment_reply_spec(outcomes: Seq<(Seq<char>, OutcomeView)>) -> Result<
    Seq<char>,
    Seq<char>,
> {
    let failed = first_failure(outcomes);
    if failed < outcomes.len() {
        reply_of(outcomes[failed].1)
    } else {
        Ok(code_block(pretty(attr_set(values_of(outcomes)))))
    }
}

/// The reply to a single expression that ended in `outcome`.
pub fn expression_reply(outcome: EvaluationOutcome) -> (reply: Result<String, String>)
    ensures
        reply_view(reply) == expression_reply_spec(outcome@),
{
    match outcome.into_reply() {
        Ok(value) => {
            let pretty = format(value);
            Ok(make_code_block(pretty.as_str()))
        },
        Err(message) => Err(message),
    }
}

/// The reply to a list of bindings that ended in `evaluated`, each with its
/// name, in source order.
pub fn assignment_reply(evaluated: Vec<(String, EvaluationOutcome)>) -> (reply: Result<
    String,
    String,
>)
    ensures
        reply_view(reply) == assignment_reply_spec(named_outcomes(evaluated@)),
{
    let ghost all = named_outcomes(evaluated@);
    let ghost n = all.len();
    let mut entries: Vec<(String, String)> = Vec::new();
    assert(all.skip(0) == all);
    for entry in it: evaluated
        invariant
            it.seq() == evaluated@,
            all == named_outcomes(evaluated@),
            n == all.len(),
            first_failure(all) == it.index() + first_failure(all.skip(it.index() as int)),
            pairs(entries@) == values_of(all.take(it.index() as int)),
    {
        let ghost i = it.index() as int;
        let ghost before = entries@;
        let (name, outcome) = entry;
        assert(all.skip(i)[0] == all[i]);
        assert(all.skip(i).skip(1) == all.skip(i + 1));
        assert(all[i] == (name@, outcome@));
        match outcome {
            EvaluationOutcome::Value(value) => {
                entries.push((name, value));
                assert(pairs(entries@) =~= values_of(all.take(i + 1))) by {
                    assert(pairs(entries@) =~= pairs(before).push((name@, value@)));
                    assert(all.take(i + 1) =~= all.take(i).push(all[i]));
                }
            },
            other => {
                return other.into_reply();
            },
        }
    }
    assert(all.skip(n as int).len() == 0);
    assert(all.take(n as int) == all);
    let literal = render_attr_set(&entries);
    let pretty = format(literal);
    Ok(make_code_block(pretty.as_str()))
}

/// The first failure is a failure, and comes no later than any other.
proof fn lemma_first_failure(outcomes: Seq<(Seq<char>, OutcomeView)>, i: int)
    requires
        0 <= i < outcomes.len(),
        !(outcomes[i].1 is Value),
    ensures
        0 <= first_failure(outcomes) <= i,
        !(outcomes[first_failure(outcomes)].1 is Value),
    decreases outcomes.len(),
{
    if outcomes[0].1 is Value {
        lemma_first_failure(outcomes.skip(1), i - 1);
    }
}

/// There is no partial success: where any one binding failed, the reply to
/// the whole list is a failure, and it holds no value of the others.
pub proof fn lemma_one_failure_fails_all(outcomes: Seq<(Seq<char>, OutcomeView)>, i: int)
    requires
        0 <= i < outcomes.len(),
        !(outcomes[i].1 is Value),
    ensures
        assignment_reply_spec(outcomes) is Err,
        assignment_reply_spec(outcomes) == reply_of(outcomes[first_failure(outcomes)].1),
{
    lemma_first_failure(outcomes, i);
}

} // verus!
