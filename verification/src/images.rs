//! Image references and candidate items.
//!
//! An [`Image`] is a `(repository, tag)` pair whose serialized form is
//! `repository:tag`; the repository is non-empty and colon-free, the tag is
//! non-empty. An [`Item`] wraps one image together with an optional alias:
//! when present, the alias is what gets reported instead of the serialized
//! reference.

use vstd::prelude::*;

use crate::text::{find_char, first_at, first_index, lemma_first_index};

verus! {

/// One fully qualified image reference.
#[derive(Debug, Clone, PartialEq, Eq)]
pub struct Image {
    pub repo: String,
    pub tag: String,
}

/// Errors of the reference parser. Each variant that concerns one input
/// token carries that token, so that the surfaced message can name it.
#[derive(Debug, Clone, PartialEq, Eq)]
pub enum ParseError {
    /// No input tokens were supplied at all.
    NoImages,
    /// The first token is a bare repository, which cannot carry an alias.
    AliasOnBareRepo(String),
    /// A token whose image specifier should contain `:` does not.
    MissingTag(String),
    /// A non-first token contains `:` although the batch runs under a fixed
    /// repository; carries the token and that repository.
    RepoInFixedMode(String, String),
    /// A repository or tag segment of the token is empty.
    EmptySegment(String),
}

impl ParseError {
    /// The message surfaced for this error; it names the offending token,
    /// and the fixed repository where one is involved.
    pub open spec fn spec_describe(&self) -> Seq<char> {
        match self {
            ParseError::NoImages => "no images supplied"@,
            ParseError::AliasOnBareRepo(t) => "first argument is not a full image but has an alias: "@
                + t@,
            ParseError::MissingTag(t) => "argument is not provided with a tag: "@ + t@,
            ParseError::RepoInFixedMode(t, r) => "found repository in argument '"@ + t@
                + "' while processing with fixed repository "@ + r@,
            ParseError::EmptySegment(t) => "empty repository or tag in argument: "@ + t@,
        }
    }

    /// Renders the error message.
    pub fn describe(&self) -> (r: String)
        ensures
            r@ == self.spec_describe(),
    {
        match self {
            ParseError::NoImages => String::from_str("no images supplied"),
            ParseError::AliasOnBareRepo(t) => {
                let mut s = String::from_str("first argument is not a full image but has an alias: ");
                s.append(t.as_str());
                s
            },
            ParseError::MissingTag(t) => {
                let mut s = String::from_str("argument is not provided with a tag: ");
                s.append(t.as_str());
                s
            },
            ParseError::RepoInFixedMode(t, r) => {
                let mut s = String::from_str("found repository in argument '");
                s.append(t.as_str());
                s.append("' while processing with fixed repository ");
                s.append(r.as_str());
                s
            },
            ParseError::EmptySegment(t) => {
                let mut s = String::from_str("empty repository or tag in argument: ");
                s.append(t.as_str());
                s
            },
        }
    }
}

/// The image specifier of a token: what follows the first `=`, or the whole
/// token when there is no alias prefix.
pub open spec fn spec_specifier(tok: Seq<char>) -> Seq<char> {
    if tok.contains('=') {
        tok.subrange(first_index(tok, '=') + 1, tok.len() as int)
    } else {
        tok
    }
}

/// The alias prefix of a token: what precedes the first `=`; meaningful only
/// when the token contains `=`.
pub open spec fn spec_alias(tok: Seq<char>) -> Seq<char> {
    tok.subrange(0, first_index(tok, '='))
}

/// A well-formed `repository:tag` specifier: the first colon separates a
/// non-empty, colon-free repository from a non-empty tag.
pub open spec fn valid_specifier(s: Seq<char>) -> bool {
    exists|i: int| first_at(s, ':', i) && 0 < i && i + 1 < s.len()
}

impl Image {
    /// Both segments non-empty, and the repository free of colons (colons
    /// separate the repository from the tag in serialized form).
    pub open spec fn wf(&self) -> bool {
        &&& self.repo@.len() > 0
        &&& self.tag@.len() > 0
        &&& !self.repo@.contains(':')
    }

    /// The serialized form `repository:tag`.
    pub open spec fn spec_str(&self) -> Seq<char> {
        self.repo@ + seq![':'] + self.tag@
    }

    /// Builds an image from its two segments.
    pub fn new(repo: &str, tag: &str) -> (r: Image)
        requires
            repo@.len() > 0,
            !repo@.contains(':'),
            tag@.len() > 0,
        ensures
            r.repo@ == repo@,
            r.tag@ == tag@,
            r.wf(),
    {
        Image { repo: repo.to_owned(), tag: tag.to_owned() }
    }

    /// Splits a `repository:tag` specifier at its first colon. Fails with
    /// `MissingTag` when there is no colon at all, and with `EmptySegment`
    /// when the segment on either side of the first colon is empty.
    pub fn from_str(inp: &str) -> (r: Result<Image, ParseError>)
        ensures
            r is Ok <==> valid_specifier(inp@),
            match r {
                Ok(im) => im.wf() && inp@ == im.repo@ + seq![':'] + im.tag@,
                Err(e) => match e {
                    ParseError::MissingTag(t) => t@ == inp@ && !inp@.contains(':'),
                    ParseError::EmptySegment(t) => t@ == inp@ && inp@.contains(':'),
                    _ => false,
                },
            },
    {
        let n = inp.unicode_len();
        match find_char(inp, ':') {
            None => Err(ParseError::MissingTag(inp.to_owned())),
            Some(ix) => {
                if ix == 0 || ix + 1 == n {
                    proof {
                        assert forall|i: int| !(first_at(inp@, ':', i) && 0 < i && i + 1
                            < inp@.len()) by {
                            if first_at(inp@, ':', i) {
                                lemma_first_index(inp@, ':', i);
                                lemma_first_index(inp@, ':', ix as int);
                            }
                        }
                    }
                    Err(ParseError::EmptySegment(inp.to_owned()))
                } else {
                    let repo = inp.substring_char(0, ix).to_owned();
                    let tag = inp.substring_char(ix + 1, n).to_owned();
                    proof {
                        assert(!repo@.contains(':')) by {
                            assert(forall|j: int|
                                0 <= j < repo@.len() ==> repo@[j] == inp@[j] && inp@[j] != ':');
                        }
                        assert(inp@ =~= repo@ + seq![':'] + tag@);
                    }
                    Ok(Image { repo, tag })
                }
            },
        }
    }

    /// Serializes the image as `repository:tag`.
    pub fn to_str(&self) -> (r: String)
        ensures
            r@ == self.spec_str(),
    {
        let mut s = self.repo.clone();
        s.append(":");
        s.append(self.tag.as_str());
        proof {
            reveal_strlit(":");
            assert(":"@ =~= seq![':']);
        }
        s
    }
}

/// One candidate: an image reference, possibly under a caller-facing alias.
#[derive(Debug, Clone, PartialEq, Eq)]
pub enum Item {
    /// The alias and the image it stands for; the alias is what is reported.
    Tagged(String, Image),
    /// A plain image reference, reported in serialized form.
    Untagged(Image),
}

/// `item` is the parse of the free-form token `tok`: the optional alias is
/// everything before the first `=`, and the remainder splits into the
/// image's repository and tag at its first colon.
pub open spec fn is_free_parse(item: Item, tok: Seq<char>) -> bool {
    match item {
        Item::Tagged(alias, im) => {
            &&& tok.contains('=')
            &&& alias@ == spec_alias(tok)
            &&& im.wf()
            &&& spec_specifier(tok) == im.repo@ + seq![':'] + im.tag@
        },
        Item::Untagged(im) => {
            &&& !tok.contains('=')
            &&& im.wf()
            &&& tok == im.repo@ + seq![':'] + im.tag@
        },
    }
}

/// `item` is the parse of the token `tok` under the fixed repository `repo`:
/// the optional alias is everything before the first `=`, and the remainder
/// is the bare tag.
pub open spec fn is_fixed_parse(item: Item, repo: Seq<char>, tok: Seq<char>) -> bool {
    match item {
        Item::Tagged(alias, im) => {
            &&& tok.contains('=')
            &&& alias@ == spec_alias(tok)
            &&& im.wf()
            &&& im.repo@ == repo
            &&& im.tag@ == spec_specifier(tok)
        },
        Item::Untagged(im) => {
            &&& !tok.contains('=')
            &&& im.wf()
            &&& im.repo@ == repo
            &&& im.tag@ == tok
        },
    }
}

/// A free-form token resolves: its image specifier is `repository:tag`.
pub open spec fn free_token_ok(tok: Seq<char>) -> bool {
    valid_specifier(spec_specifier(tok))
}

/// A fixed-repository token resolves: no colon anywhere in the token, and a
/// non-empty bare tag in its image specifier.
pub open spec fn fixed_token_ok(tok: Seq<char>) -> bool {
    &&& !tok.contains(':')
    &&& spec_specifier(tok).len() > 0
}

/// The error reported for a free-form token that does not resolve.
pub open spec fn free_parse_err(tok: Seq<char>, e: ParseError) -> bool {
    &&& !free_token_ok(tok)
    &&& match e {
        ParseError::MissingTag(t) => t@ == tok && !spec_specifier(tok).contains(':'),
        ParseError::EmptySegment(t) => t@ == tok && spec_specifier(tok).contains(':'),
        _ => false,
    }
}

/// The error reported for a fixed-repository token that does not resolve.
pub open spec fn fixed_parse_err(repo: Seq<char>, tok: Seq<char>, e: ParseError) -> bool {
    &&& !fixed_token_ok(tok)
    &&& match e {
        ParseError::RepoInFixedMode(t, r) => t@ == tok && r@ == repo && tok.contains(':'),
        ParseError::EmptySegment(t) => t@ == tok && !tok.contains(':') && spec_specifier(
            tok,
        ).len() == 0,
        _ => false,
    }
}

impl Item {
    /// The image this candidate refers to.
    pub open spec fn spec_image(&self) -> Image {
        match self {
            Item::Tagged(_, im) => *im,
            Item::Untagged(im) => *im,
        }
    }

    /// What is reported when this candidate is selected: the alias when
    /// there is one, else the serialized image reference.
    pub open spec fn spec_name(&self) -> Seq<char> {
        match self {
            Item::Tagged(alias, _) => alias@,
            Item::Untagged(im) => im.spec_str(),
        }
    }

    /// The image of every well-parsed item satisfies the image invariant.
    pub open spec fn wf(&self) -> bool {
        self.spec_image().wf()
    }

    /// Parses a free-form token: an optional `alias=` prefix followed by a
    /// full `repository:tag` specifier.
    pub fn new(val: &str) -> (r: Result<Item, ParseError>)
        ensures
            r is Ok <==> free_token_ok(val@),
            match r {
                Ok(item) => is_free_parse(item, val@),
                Err(e) => free_parse_err(val@, e),
            },
    {
        match find_char(val, '=') {
            Some(ix) => {
                let n = val.unicode_len();
                let alias = val.substring_char(0, ix).to_owned();
                let specifier = val.substring_char(ix + 1, n);
                proof {
                    lemma_first_index(val@, '=', ix as int);
                    assert(specifier@ == spec_specifier(val@));
                    assert(alias@ == spec_alias(val@));
                }
                match Image::from_str(specifier) {
                    Ok(im) => Ok(Item::Tagged(alias, im)),
                    Err(e) => match e {
                        ParseError::MissingTag(_) => Err(
                            ParseError::MissingTag(val.to_owned()),
                        ),
                        _ => Err(ParseError::EmptySegment(val.to_owned())),
                    },
                }
            },
            None => {
                proof {
                    assert(spec_specifier(val@) == val@);
                }
                match Image::from_str(val) {
                    Ok(im) => Ok(Item::Untagged(im)),
                    Err(e) => Err(e),
                }
            },
        }
    }

    /// Parses a token under the fixed repository `repo`: an optional
    /// `alias=` prefix followed by a bare tag. Any colon in the token
    /// signals an attempt to override the fixed repository and is rejected.
    pub fn with_repo(repo: &str, val: &str) -> (r: Result<Item, ParseError>)
        requires
            repo@.len() > 0,
            !repo@.contains(':'),
        ensures
            r is Ok <==> fixed_token_ok(val@),
            match r {
                Ok(item) => is_fixed_parse(item, repo@, val@),
                Err(e) => fixed_parse_err(repo@, val@, e),
            },
    {
        if find_char(val, ':').is_some() {
            return Err(ParseError::RepoInFixedMode(val.to_owned(), repo.to_owned()));
        }
        let n = val.unicode_len();
        match find_char(val, '=') {
            Some(ix) => {
                proof {
                    lemma_first_index(val@, '=', ix as int);
                }
                if ix + 1 == n {
                    Err(ParseError::EmptySegment(val.to_owned()))
                } else {
                    let alias = val.substring_char(0, ix).to_owned();
                    let tag = val.substring_char(ix + 1, n);
                    proof {
                        assert(tag@ == spec_specifier(val@));
                        assert(!tag@.contains(':')) by {
                            assert(forall|j: int|
                                0 <= j < tag@.len() ==> tag@[j] == val@[j + ix + 1] && val@[j + ix
                                    + 1] != ':');
                        }
                    }
                    Ok(Item::Tagged(alias, Image::new(repo, tag)))
                }
            },
            None => {
                if n == 0 {
                    Err(ParseError::EmptySegment(val.to_owned()))
                } else {
                    Ok(Item::Untagged(Image::new(repo, val)))
                }
            },
        }
    }

    /// The image this candidate refers to.
    pub fn image(&self) -> (r: &Image)
        ensures
            *r == self.spec_image(),
    {
        match self {
            Item::Tagged(_, im) => im,
            Item::Untagged(im) => im,
        }
    }

    /// The reported name: the alias when there is one, else the serialized
    /// image reference.
    pub fn name(&self) -> (r: String)
        ensures
            r@ == self.spec_name(),
    {
        match self {
            Item::Tagged(alias, _) => alias.clone(),
            Item::Untagged(im) => im.to_str(),
        }
    }
}

/// Round-trip law: an unaliased candidate reports exactly
/// `repository + ":" + tag`, and an aliased candidate reports its alias,
/// whatever the underlying image reference is.
pub proof fn lemma_name_round_trip(item: Item)
    ensures
        item matches Item::Untagged(im) ==> item.spec_name() == im.repo@ + seq![':'] + im.tag@,
        item matches Item::Tagged(alias, im) ==> item.spec_name() == alias@,
{
}

} // verus!
