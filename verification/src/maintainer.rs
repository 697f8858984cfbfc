//! What is shown of a maintainer of nixpkgs: the expression that looks one up,
//! the names offered while the caller types, and the card with the details.

use crate::text::{chars_of, lemma_texts_push, matches_at, starts_with, string_of_range, texts};
use vstd::prelude::*;

verus! {

/// A line of a card: a name and a value.
#[derive(Clone, Debug, PartialEq, Eq)]
pub struct EmbedField {
    pub name: String,
    pub value: String,
    /// Whether the line may share its row with others.
    pub inline: bool,
}

/// A card: a title, a colour as red, green and blue, lines in order, and the
/// address of a picture.
#[derive(Debug, PartialEq, Eq)]
pub struct Embed {
    pub title: String,
    pub color: (u8, u8, u8),
    pub fields: Vec<EmbedField>,
    pub thumbnail: Option<String>,
}

/// The details of a maintainer, each as the evaluator renders it, where the
/// maintainer has it.
#[derive(Clone, Debug, PartialEq, Eq)]
pub struct MaintainerDetails {
    pub name: Option<String>,
    pub email: Option<String>,
    pub github: Option<String>,
    pub github_id: Option<String>,
    pub matrix: Option<String>,
}

/// `s` without one double quote at its start and one at its end, where they
/// are there.
pub open spec fn unquoted(s: Seq<char>) -> Seq<char> {
    let rest = if s.len() > 0 && s[0] == '"' {
        s.skip(1)
    } else {
        s
    };
    if rest.len() > 0 && rest.last() == '"' {
        rest.drop_last()
    } else {
        rest
    }
}

/// The value of a line: `s` without its quotes, as code.
pub open spec fn field_value(s: Seq<char>) -> Seq<char> {
    "`"@ + unquoted(s) + "`"@
}

/// The expression that looks up the maintainer `name`.
pub open spec fn maintainer_source(name: Seq<char>) -> Seq<char> {
    "(import ./maintainers/maintainer-list.nix)."@ + name
}

/// The expression that lists all maintainers.
pub open spec fn maintainers_source() -> Seq<char> {
    "(import ./lib).maintainers"@
}

/// `s` without its first and its last character, where it has both.
pub open spec fn inner(s: Seq<char>) -> Option<Seq<char>> {
    if s.len() >= 2 {
        Some(s.subrange(1, s.len() - 1))
    } else {
        None
    }
}

/// The names to offer for what was typed so far: each key without its
/// quotes, if it starts with `partial`, in the order of the keys.
pub open spec fn choices(keys: Seq<Seq<char>>, partial: Seq<char>) -> Seq<Seq<char>> {
    keys.map_values(|k: Seq<char>| unquoted(k)).filter(|k: Seq<char>| starts_with(k, partial))
}

/// The views of the lines of a card, as name, value and whether inline.
pub open spec fn lines(fields: Seq<EmbedField>) -> Seq<(Seq<char>, Seq<char>, bool)> {
    fields.map_values(|f: EmbedField| (f.name@, f.value@, f.inline))
}

/// The lines of a card with one more for `value` under `name`, where there is
/// a value.
pub open spec fn with_field(
    fields: Seq<(Seq<char>, Seq<char>, bool)>,
    name: Seq<char>,
    value: Option<Seq<char>>,
) -> Seq<(Seq<char>, Seq<char>, bool)> {
    match value {
        Some(v) => fields.push((name, field_value(v), false)),
        None => fields,
    }
}

/// The view of a text that may be there.
pub open spec fn optional_text(s: Option<String>) -> Option<Seq<char>> {
    match s {
        Some(text) => Some(text@),
        None => None,
    }
}

/// The lines of the card of a maintainer, in their fixed order.
pub open spec fn maintainer_lines(
    name: Option<Seq<char>>,
    email: Option<Seq<char>>,
    github: Option<Seq<char>>,
    github_id: Option<Seq<char>>,
    matrix: Option<Seq<char>>,
) -> Seq<(Seq<char>, Seq<char>, bool)> {
    with_field(
        with_field(
            with_field(
                with_field(with_field(seq![], "Name"@, name), "Email"@, email),
                "GitHub Username"@,
                github,
            ),
            "GitHub ID"@,
            github_id,
        ),
        "Matrix"@,
        matrix,
    )
}

/// Where `chars` without its quotes starts and ends.
fn unquoted_bounds(chars: &Vec<char>) -> (r: (usize, usize))
    ensures
        r.0 <= r.1 <= chars@.len(),
        chars@.subrange(r.0 as int, r.1 as int) == unquoted(chars@),
{
    let n = chars.len();
    let lo: usize = if n > 0 && chars[0] == '"' {
        1
    } else {
        0
    };
    let ghost rest = chars@.skip(lo as int);
    let hi: usize = if n > lo && chars[n - 1] == '"' {
        n - 1
    } else {
        n
    };
    proof {
        assert(chars@.skip(0) == chars@);
        if n > lo {
            assert(rest.last() == chars@[n - 1]);
        }
        assert(chars@.subrange(lo as int, hi as int) =~= unquoted(chars@));
    }
    (lo, hi)
}

/// `string` without one double quote at its start and one at its end.
pub fn strip_quotes(string: &str) -> (out: String)
    ensures
        out@ == unquoted(string@),
{
    let chars = chars_of(string);
    let (lo, hi) = unquoted_bounds(&chars);
    string_of_range(&chars, lo, hi)
}

/// The value of a line of a card: `string` without its quotes, between
/// backticks.
pub fn format_field_value(string: &str) -> (out: String)
    ensures
        out@ == field_value(string@),
{
    let mut out = String::from_str("`");
    let bare = strip_quotes(string);
    out.append(bare.as_str());
    out.append("`");
    out
}

/// The expression that looks up the maintainer `name`.
pub fn maintainer_expression(name: &str) -> (out: String)
    ensures
        out@ == maintainer_source(name@),
{
    let mut out = String::from_str("(import ./maintainers/maintainer-list.nix).");
    out.append(name);
    out
}

/// The expression that lists all maintainers.
pub fn maintainers_expression() -> (out: String)
    ensures
        out@ == maintainers_source(),
{
    String::from_str("(import ./lib).maintainers")
}

/// The user name in `quoted`, the rendering of a string value: what stands
/// between its first and its last character. `None` where it has less than
/// two characters.
pub fn github_username(quoted: &str) -> (out: Option<String>)
    ensures
        optional_text(out) == inner(quoted@),
{
    let chars = chars_of(quoted);
    if chars.len() >= 2 {
        Some(string_of_range(&chars, 1, chars.len() - 1))
    } else {
        None
    }
}

/// The names to offer while the caller types `partial`, from the keys of the
/// set of maintainers as the evaluator renders them.
pub fn autocomplete_choices(keys: &Vec<String>, partial: &str) -> (out: Vec<String>)
    ensures
        texts(out@) == choices(texts(keys@), partial@),
{
    let wanted = chars_of(partial);
    let ghost bare = texts(keys@).map_values(|k: Seq<char>| unquoted(k));
    let ghost fits = |k: Seq<char>| starts_with(k, partial@);
    let mut out: Vec<String> = Vec::new();
    let mut i: usize = 0;
    proof {
        reveal(Seq::filter);
        assert(bare.take(0).filter(fits) =~= Seq::<Seq<char>>::empty());
        assert(texts(out@) =~= Seq::<Seq<char>>::empty());
    }
    while i < keys.len()
        invariant
            i <= keys@.len(),
            wanted@ == partial@,
            bare == texts(keys@).map_values(|k: Seq<char>| unquoted(k)),
            fits == (|k: Seq<char>| starts_with(k, partial@)),
            texts(out@) == bare.take(i as int).filter(fits),
        decreases keys@.len() - i,
    {
        let chars = chars_of(keys[i].as_str());
        let (lo, hi) = unquoted_bounds(&chars);
        let name = string_of_range(&chars, lo, hi);
        let candidate = chars_of(name.as_str());
        let ghost before = out@;
        proof {
            reveal(Seq::filter);
            assert(bare.take(i + 1).drop_last() == bare.take(i as int));
            assert(bare.take(i + 1).last() == name@);
        }
        if matches_at(&candidate, &wanted, 0) {
            proof {
                lemma_texts_push(before, name);
            }
            out.push(name);
        }
        i += 1;
    }
    assert(bare.take(keys@.len() as int) == bare);
    out
}

/// Adds a line for `value` under `name` to `embed`, where there is a value;
/// the line does not share its row.
pub fn add_embed_field(embed: Embed, name: &str, value: Option<&str>) -> (out: Embed)
    ensures
        out.title == embed.title,
        out.color == embed.color,
        out.thumbnail == embed.thumbnail,
        lines(out.fields@) == with_field(
            lines(embed.fields@),
            name@,
            match value {
                Some(v) => Some(v@),
                None => None,
            },
        ),
{
    let mut embed = embed;
    let ghost before = embed.fields@;
    match value {
        Some(v) => {
            let field = EmbedField {
                name: name.to_owned(),
                value: format_field_value(v),
                inline: false,
            };
            embed.fields.push(field);
            assert(lines(embed.fields@) =~= lines(before).push((name@, field_value(v@), false)));
        },
        None => {},
    }
    embed
}

/// What is there of an optional text, as a slice.
fn as_text(s: &Option<String>) -> (out: Option<&str>)
    ensures
        match out {
            Some(v) => optional_text(*s) == Some(v@),
            None => s is None,
        },
{
    match s {
        Some(text) => Some(text.as_str()),
        None => None,
    }
}

/// The card of a maintainer: titled, blue, and with one line for each detail
/// that the maintainer has, in the order name, e-mail, GitHub user name,
/// GitHub number, Matrix.
pub fn maintainer_embed(details: &MaintainerDetails) -> (out: Embed)
    ensures
        out.title@ == "Maintainer Info"@,
        out.color == (35u8, 127u8, 235u8),
        out.thumbnail is None,
        lines(out.fields@) == maintainer_lines(
            optional_text(details.name),
            optional_text(details.email),
            optional_text(details.github),
            optional_text(details.github_id),
            optional_text(details.matrix),
        ),
{
    let mut embed = Embed {
        title: String::from_str("Maintainer Info"),
        color: (35, 127, 235),
        fields: Vec::new(),
        thumbnail: None,
    };
    assert(lines(embed.fields@) =~= seq![]);
    embed = add_embed_field(embed, "Name", as_text(&details.name));
    embed = add_embed_field(embed, "Email", as_text(&details.email));
    embed = add_embed_field(embed, "GitHub Username", as_text(&details.github));
    embed = add_embed_field(embed, "GitHub ID", as_text(&details.github_id));
    embed = add_embed_field(embed, "Matrix", as_text(&details.matrix));
    embed
}

/// `embed` with the picture at `url`.
pub fn with_thumbnail(embed: Embed, url: String) -> (out: Embed)
    ensures
        out.title == embed.title,
        out.color == embed.color,
        out.fields == embed.fields,
        out.thumbnail == Some(url),
{
    let mut embed = embed;
    embed.thumbnail = Some(url);
    embed
}

} // verus!
