//! The batch parser: turns the ordered list of raw tokens into an ordered
//! list of candidate items, enforcing one addressing mode for the whole
//! batch. The mode is decided by the first token alone and never revisited:
//! a first token containing `:` puts the batch in free-form mode, any other
//! first token is the fixed repository for all subsequent bare tags.

use vstd::prelude::*;

use crate::images::{
    fixed_parse_err,
    fixed_token_ok,
    free_parse_err,
    free_token_ok,
    is_fixed_parse,
    is_free_parse,
    Item,
    ParseError,
};
use crate::text::find_char;

verus! {

/// The addressing mode of the batch, decided once by the first token.
#[derive(Debug, Clone, PartialEq, Eq)]
pub enum State {
    /// Every subsequent token is a bare tag within this repository.
    ProcessingRepo(String),
    /// Every token must be a self-contained `repository:tag`, optionally
    /// aliased.
    Individual,
}

impl State {
    /// A fixed repository is non-empty and colon-free.
    pub open spec fn wf(&self) -> bool {
        match self {
            State::ProcessingRepo(repo) => repo@.len() > 0 && !repo@.contains(':'),
            State::Individual => true,
        }
    }

    /// This state is the mode that the first token `first` decides: free
    /// form when the token contains `:`, else the token itself as the fixed
    /// repository.
    pub open spec fn decided_by(&self, first: Seq<char>) -> bool {
        match self {
            State::ProcessingRepo(repo) => !first.contains(':') && repo@ == first,
            State::Individual => first.contains(':'),
        }
    }
}

/// The first token resolves and may open a batch: in free-form mode it must
/// itself resolve to a full reference; as a bare repository it must be
/// non-empty and must not carry an alias.
pub open spec fn first_token_ok(tok: Seq<char>) -> bool {
    if tok.contains(':') {
        free_token_ok(tok)
    } else {
        tok.len() > 0 && !tok.contains('=')
    }
}

/// The error reported for a first token that cannot open a batch.
pub open spec fn first_token_err(tok: Seq<char>, e: ParseError) -> bool {
    &&& !first_token_ok(tok)
    &&& if tok.contains(':') {
        free_parse_err(tok, e)
    } else if tok.len() == 0 {
        e matches ParseError::EmptySegment(t) && t@ == tok
    } else {
        e matches ParseError::AliasOnBareRepo(t) && t@ == tok && tok.contains('=')
    }
}

/// What `start` produces for a valid first token: the mode, and the one
/// item the token itself contributes in free-form mode.
pub open spec fn is_start_parse(state: State, items: Seq<Item>, tok: Seq<char>) -> bool {
    &&& state.decided_by(tok)
    &&& if tok.contains(':') {
        items.len() == 1 && is_free_parse(items[0], tok)
    } else {
        items.len() == 0
    }
}

/// Decides the addressing mode from the first token. A token containing `:`
/// opens a free-form batch and itself becomes the first candidate; any other
/// token fixes the repository for the rest of the batch and contributes no
/// candidate of its own.
pub fn start(first: &str) -> (r: Result<(State, Vec<Item>), ParseError>)
    ensures
        r is Ok <==> first_token_ok(first@),
        match r {
            Ok((state, items)) => is_start_parse(state, items@, first@) && state.wf(),
            Err(e) => first_token_err(first@, e),
        },
{
    match find_char(first, ':') {
        Some(_) => {
            match Item::new(first) {
                Ok(item) => {
                    let mut items: Vec<Item> = Vec::new();
                    items.push(item);
                    Ok((State::Individual, items))
                },
                Err(e) => Err(e),
            }
        },
        None => {
            if first.unicode_len() == 0 {
                Err(ParseError::EmptySegment(first.to_owned()))
            } else if find_char(first, '=').is_some() {
                Err(ParseError::AliasOnBareRepo(first.to_owned()))
            } else {
                Ok((State::ProcessingRepo(first.to_owned()), Vec::new()))
            }
        },
    }
}

/// A non-first token resolves under the batch's mode.
pub open spec fn next_token_ok(state: State, tok: Seq<char>) -> bool {
    match state {
        State::ProcessingRepo(_) => fixed_token_ok(tok),
        State::Individual => free_token_ok(tok),
    }
}

/// What `next` produces for a valid non-first token.
pub open spec fn is_next_parse(item: Item, state: State, tok: Seq<char>) -> bool {
    match state {
        State::ProcessingRepo(repo) => is_fixed_parse(item, repo@, tok),
        State::Individual => is_free_parse(item, tok),
    }
}

/// The error reported for a non-first token that does not resolve.
pub open spec fn next_token_err(state: State, tok: Seq<char>, e: ParseError) -> bool {
    match state {
        State::ProcessingRepo(repo) => fixed_parse_err(repo@, tok, e),
        State::Individual => free_parse_err(tok, e),
    }
}

/// Resolves one non-first token under the established mode. In fixed
/// repository mode the token must be a bare tag (a colon would override the
/// fixed repository mid-batch and is rejected); in free-form mode it must be
/// a full reference.
pub fn next(state: &State, item: &str) -> (r: Result<Item, ParseError>)
    requires
        state.wf(),
    ensures
        r is Ok <==> next_token_ok(*state, item@),
        match r {
            Ok(it) => is_next_parse(it, *state, item@),
            Err(e) => next_token_err(*state, item@, e),
        },
{
    match state {
        State::ProcessingRepo(repo) => Item::with_repo(repo.as_str(), item),
        State::Individual => Item::new(item),
    }
}

/// Token `tok` resolves under the mode that the first token `first`
/// decides.
pub open spec fn mode_token_ok(first: Seq<char>, tok: Seq<char>) -> bool {
    if first.contains(':') {
        free_token_ok(tok)
    } else {
        fixed_token_ok(tok)
    }
}

/// The error reported for `tok` under the mode that `first` decides.
pub open spec fn mode_token_err(first: Seq<char>, tok: Seq<char>, e: ParseError) -> bool {
    if first.contains(':') {
        free_parse_err(tok, e)
    } else {
        fixed_parse_err(first, tok, e)
    }
}

/// The whole batch resolves: there is at least one token, the first token
/// opens the batch, and every further token resolves under the mode the
/// first one decided.
pub open spec fn batch_ok(toks: Seq<Seq<char>>) -> bool {
    &&& toks.len() > 0
    &&& first_token_ok(toks[0])
    &&& forall|i: int| 1 <= i < toks.len() ==> mode_token_ok(toks[0], #[trigger] toks[i])
}

/// What the batch parse produces: in free-form mode one item per token, in
/// fixed-repository mode one item per token after the first, in input order.
pub open spec fn is_batch_parse(items: Seq<Item>, toks: Seq<Seq<char>>) -> bool {
    if toks[0].contains(':') {
        &&& items.len() == toks.len()
        &&& forall|i: int| 0 <= i < toks.len() ==> is_free_parse(#[trigger] items[i], toks[i])
    } else {
        &&& items.len() == toks.len() - 1
        &&& forall|i: int|
            1 <= i < toks.len() ==> is_fixed_parse(#[trigger] items[i - 1], toks[0], toks[i])
    }
}

/// Token `i` is the first token of the batch that does not resolve, and `e`
/// is its error.
pub open spec fn first_bad_at(toks: Seq<Seq<char>>, i: int, e: ParseError) -> bool {
    &&& 1 <= i < toks.len()
    &&& forall|j: int| 1 <= j < i ==> mode_token_ok(toks[0], #[trigger] toks[j])
    &&& !mode_token_ok(toks[0], toks[i])
    &&& mode_token_err(toks[0], toks[i], e)
}

/// The reported error names the offending input: either the list is empty,
/// or the first token cannot open a batch, or some token fails under the
/// decided mode while every token before it resolves.
pub open spec fn is_batch_err(e: ParseError, toks: Seq<Seq<char>>) -> bool {
    ||| (toks.len() == 0 && e == ParseError::NoImages)
    ||| (toks.len() > 0 && first_token_err(toks[0], e))
    ||| (toks.len() > 0 && first_token_ok(toks[0]) && exists|i: int| first_bad_at(toks, i, e))
}

/// The views of a list of tokens.
pub open spec fn views_of(args: Seq<String>) -> Seq<Seq<char>> {
    args.map_values(|s: String| s@)
}

/// Parses the whole batch of raw tokens, in input order. Succeeds if and
/// only if there is at least one token and every token resolves under the
/// mode the first token decides; any failure aborts the whole batch with an
/// error naming the offending token.
pub fn process_args(args: &Vec<String>) -> (r: Result<Vec<Item>, ParseError>)
    ensures
        r is Ok <==> batch_ok(views_of(args@)),
        match r {
            Ok(items) => is_batch_parse(items@, views_of(args@)),
            Err(e) => is_batch_err(e, views_of(args@)),
        },
{
    let ghost toks = views_of(args@);
    if args.len() == 0 {
        return Err(ParseError::NoImages);
    }
    assert(toks.len() == args@.len() && toks[0] == args@[0]@);
    let (state, mut res) = match start(args[0].as_str()) {
        Ok(p) => p,
        Err(e) => {
            return Err(e);
        },
    };
    let ghost fixed = !toks[0].contains(':');
    let mut i: usize = 1;
    while i < args.len()
        invariant
            1 <= i <= args@.len(),
            toks == views_of(args@),
            toks.len() == args@.len(),
            forall|k: int| 0 <= k < toks.len() ==> toks[k] == args@[k]@,
            state.wf(),
            first_token_ok(toks[0]),
            fixed == !toks[0].contains(':'),
            state.decided_by(toks[0]),
            !fixed ==> res@.len() == i && is_free_parse(res@[0], toks[0]),
            fixed ==> res@.len() == i - 1,
            forall|j: int| 1 <= j < i ==> mode_token_ok(toks[0], #[trigger] toks[j]),
            fixed ==> forall|j: int|
                1 <= j < i ==> is_fixed_parse(#[trigger] res@[j - 1], toks[0], toks[j]),
            !fixed ==> forall|j: int|
                1 <= j < i ==> is_free_parse(#[trigger] res@[j], toks[j]),
        decreases args@.len() - i,
    {
        match next(&state, args[i].as_str()) {
            Ok(item) => res.push(item),
            Err(e) => {
                proof {
                    assert(first_bad_at(toks, i as int, e));
                }
                return Err(e);
            },
        }
        i = i + 1;
    }
    Ok(res)
}

} // verus!
