//! The text work of the commands: finding the source in a message, and the
//! address of a function's page in the Noogle index.

use crate::text::{
    absent, chars_of, find_first, find_last, is_first_occurrence, is_last_occurrence, occurs_at,
    string_of_range, trim, trim_bounds,
};
use vstd::prelude::*;

verus! {

/// Why a message holds no source.
#[derive(Clone, Copy, Debug, PartialEq, Eq, Structural)]
pub enum CodeBlockError {
    /// No fence opens a block of Nix source.
    MissingStart,
    /// A fence opens a block, and none closes it.
    MissingEnd,
}

/// What the index answered.
#[derive(Clone, Debug, PartialEq, Eq)]
pub enum NoogleAnswer {
    /// The page is there; this is its address.
    Found(String),
    /// The index has no such function.
    Missing,
    /// The index answered with a status that stands for neither.
    Unexpected,
}

/// The fence that opens a block of Nix source.
pub open spec fn fence_open() -> Seq<char> {
    "```nix\n"@
}

/// The fence that closes a block.
pub open spec fn fence_close() -> Seq<char> {
    "```"@
}

/// What follows the first opening fence in `content`, which starts at `i`.
pub open spec fn after_fence(content: Seq<char>, i: int) -> Seq<char> {
    content.skip(i + fence_open().len())
}

/// In `content` the first opening fence starts at `i`, and in what follows it
/// the last closing fence starts at `j`.
pub open spec fn fenced(content: Seq<char>, i: int, j: int) -> bool {
    &&& is_first_occurrence(content, fence_open(), i)
    &&& is_last_occurrence(after_fence(content, i), fence_close(), j)
}

/// In `content` the first opening fence starts at `i`, and no closing fence
/// follows it.
pub open spec fn unclosed(content: Seq<char>, i: int) -> bool {
    &&& is_first_occurrence(content, fence_open(), i)
    &&& absent(after_fence(content, i), fence_close())
}

/// The text that tells why a message holds no source.
pub open spec fn code_block_message(why: CodeBlockError) -> Seq<char> {
    match why {
        CodeBlockError::MissingStart => "Couldn't find Nix code block!"@,
        CodeBlockError::MissingEnd => "Couldn't find the end of the Nix code block!"@,
    }
}

/// Where the pages of the index start.
pub open spec fn noogle_base() -> Seq<char> {
    "https://noogle.dev/f/"@
}

/// The part of the address that names `function`: without the white space
/// around it, without spaces, and with each dot as a slash.
pub open spec fn noogle_path(function: Seq<char>) -> Seq<char> {
    trim(function).filter(|c: char| c != ' ').map_values(
        |c: char|
            if c == '.' {
                '/'
            } else {
                c
            },
    )
}

/// What a status of the index means for the page at `url`.
pub open spec fn noogle_answer_spec(url: Seq<char>, status: u16) -> Option<Option<Seq<char>>> {
    if 200 <= status <= 299 {
        Some(Some(url))
    } else if status == 404 {
        Some(None)
    } else {
        None
    }
}

/// The source in the message `content`: what stands between the first fence
/// that opens a block of Nix source and the last closing fence after it.
pub fn extract_code_block(content: &str) -> (r: Result<String, CodeBlockError>)
    ensures
        match r {
            Ok(body) => exists|i: int, j: int| #[trigger]
                fenced(content@, i, j) && body@ == after_fence(content@, i).take(j),
            Err(CodeBlockError::MissingStart) => absent(content@, fence_open()),
            Err(CodeBlockError::MissingEnd) => exists|i: int| #[trigger] unclosed(content@, i),
        },
{
    let chars = chars_of(content);
    let open = chars_of("```nix\n");
    let close = chars_of("```");
    match find_first(&chars, &open) {
        None => Err(CodeBlockError::MissingStart),
        Some(i) => {
            let mut rest: Vec<char> = Vec::new();
            let n = chars.len();
            assert(occurs_at(chars@, open@, i as int));
            let mut k: usize = i + open.len();
            while k < n
                invariant
                    i + open@.len() <= k <= chars@.len(),
                    n == chars@.len(),
                    rest@ == chars@.subrange(i + open@.len(), k as int),
                decreases chars@.len() - k,
            {
                rest.push(chars[k]);
                k += 1;
            }
            assert(rest@ == after_fence(content@, i as int));
            match find_last(&rest, &close) {
                None => {
                    assert(unclosed(content@, i as int));
                    Err(CodeBlockError::MissingEnd)
                },
                Some(j) => {
                    let body = string_of_range(&rest, 0, j);
                    assert(fenced(content@, i as int, j as int));
                    assert(rest@.subrange(0, j as int) == rest@.take(j as int));
                    Ok(body)
                },
            }
        },
    }
}

/// The text that tells why a message holds no source.
pub fn code_block_error_text(why: CodeBlockError) -> (out: String)
    ensures
        out@ == code_block_message(why),
{
    match why {
        CodeBlockError::MissingStart => String::from_str("Couldn't find Nix code block!"),
        CodeBlockError::MissingEnd => String::from_str(
            "Couldn't find the end of the Nix code block!",
        ),
    }
}

/// The address of the page of `function` in the index.
pub fn noogle_url(function: &str) -> (url: String)
    ensures
        url@ == noogle_base() + noogle_path(function@),
{
    let chars = chars_of(function);
    let (lo, hi) = trim_bounds(&chars, 0, chars.len());
    assert(chars@.subrange(0, chars@.len() as int) == chars@);
    let ghost kept = chars@.subrange(lo as int, hi as int);
    let ghost no_space = |c: char| c != ' ';
    let ghost slashed = |c: char|
        if c == '.' {
            '/'
        } else {
            c
        };
    let mut url = String::from_str("https://noogle.dev/f/");
    let mut i: usize = lo;
    proof {
        reveal(Seq::filter);
        assert(kept.take(0).filter(no_space).map_values(slashed) =~= Seq::<char>::empty());
    }
    while i < hi
        invariant
            lo <= i <= hi <= chars@.len(),
            kept == chars@.subrange(lo as int, hi as int),
            no_space == (|c: char| c != ' '),
            slashed == (|c: char|
                if c == '.' {
                    '/'
                } else {
                    c
                }),
            url@ == noogle_base() + kept.take(i - lo).filter(no_space).map_values(slashed),
        decreases hi - i,
    {
        let c = chars[i];
        proof {
            reveal(Seq::filter);
            assert(kept.take(i - lo + 1).drop_last() == kept.take(i - lo));
            assert(kept.take(i - lo + 1).last() == c);
        }
        let ghost before = kept.take(i - lo).filter(no_space);
        if c != ' ' {
            let d = if c == '.' {
                '/'
            } else {
                c
            };
            url.push(d);
            assert(before.push(c).map_values(slashed) =~= before.map_values(slashed).push(d));
            assert(url@ =~= noogle_base() + before.push(c).map_values(slashed));
        }
        i += 1;
    }
    assert(kept.take(hi - lo) == kept);
    url
}

/// What the status `status` of the index means for the page at `url`: a
/// status from 200 to 299 that the page is there, 404 that the index has no
/// such function.
pub fn noogle_answer(url: String, status: u16) -> (answer: NoogleAnswer)
    ensures
        match answer {
            NoogleAnswer::Found(page) => noogle_answer_spec(url@, status) == Some(Some(page@)),
            NoogleAnswer::Missing => noogle_answer_spec(url@, status) == Some(
                None::<Seq<char>>,
            ),
            NoogleAnswer::Unexpected => noogle_answer_spec(url@, status) is None,
        },
{
    if 200 <= status && status <= 299 {
        NoogleAnswer::Found(url)
    } else if status == 404 {
        NoogleAnswer::Missing
    } else {
        NoogleAnswer::Unexpected
    }
}

} // verus!
