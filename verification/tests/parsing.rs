use image_probe::args::{process_args, State};
use image_probe::images::{Image, Item, ParseError};

fn strings(toks: &[&str]) -> Vec<String> {
    toks.iter().map(|s| s.to_string()).collect()
}

#[test]
fn free_form_mode_when_first_token_has_colon() {
    let items = process_args(&strings(&["a:1", "b:2"])).unwrap();
    assert_eq!(items.len(), 2);
    assert_eq!(items[0].name(), "a:1");
    assert_eq!(items[1].name(), "b:2");
    assert_eq!(items[0].image().repo, "a");
    assert_eq!(items[0].image().tag, "1");
}

#[test]
fn fixed_mode_when_first_token_lacks_colon() {
    let items = process_args(&strings(&["myrepo", "v1", "v2"])).unwrap();
    assert_eq!(items.len(), 2);
    assert_eq!(items[0].name(), "myrepo:v1");
    assert_eq!(items[1].name(), "myrepo:v2");
    assert_eq!(items[0].image().repo, "myrepo");
    assert_eq!(items[1].image().tag, "v2");
}

#[test]
fn free_form_rejects_token_without_colon() {
    let err = process_args(&strings(&["a:1", "b"])).unwrap_err();
    assert!(matches!(err, ParseError::MissingTag(ref t) if t == "b"));
}

#[test]
fn fixed_mode_rejects_token_with_colon() {
    let err = process_args(&strings(&["myrepo", "tag=with:colon"])).unwrap_err();
    match err {
        ParseError::RepoInFixedMode(tok, repo) => {
            assert_eq!(tok, "tag=with:colon");
            assert_eq!(repo, "myrepo");
        }
        other => panic!("unexpected error: {:?}", other),
    }
}

#[test]
fn bare_repository_cannot_carry_alias() {
    let err = process_args(&strings(&["myrepo=x", "v1"])).unwrap_err();
    assert!(matches!(err, ParseError::AliasOnBareRepo(ref t) if t == "myrepo=x"));
}

#[test]
fn empty_input_is_fatal() {
    let err = process_args(&strings(&[])).unwrap_err();
    assert_eq!(err, ParseError::NoImages);
}

#[test]
fn empty_first_token_is_fatal() {
    let err = process_args(&strings(&[""])).unwrap_err();
    assert!(matches!(err, ParseError::EmptySegment(ref t) if t.is_empty()));
}

#[test]
fn unaliased_name_is_serialized_reference() {
    let item = Item::new("myrepo:v1").unwrap();
    assert_eq!(item.name(), "myrepo:v1");
    assert_eq!(item.image().repo, "myrepo");
    assert_eq!(item.image().tag, "v1");
}

#[test]
fn aliased_name_is_alias_regardless_of_image() {
    let a = Item::new("alias=myrepo:v1").unwrap();
    let b = Item::new("alias=other:v9").unwrap();
    assert_eq!(a.name(), "alias");
    assert_eq!(b.name(), "alias");
    assert_eq!(a.image().repo, "myrepo");
    assert_eq!(b.image().repo, "other");
}

#[test]
fn empty_alias_is_kept() {
    let item = Item::new("=myrepo:v1").unwrap();
    assert_eq!(item.name(), "");
    assert_eq!(item.image().tag, "v1");
}

#[test]
fn with_repo_scopes_bare_tag() {
    let item = Item::with_repo("myrepo", "v1").unwrap();
    assert_eq!(item.name(), "myrepo:v1");
}

#[test]
fn with_repo_scopes_aliased_tag() {
    let item = Item::with_repo("myrepo", "latest=v1").unwrap();
    assert_eq!(item.name(), "latest");
    assert_eq!(item.image().repo, "myrepo");
    assert_eq!(item.image().tag, "v1");
}

#[test]
fn with_repo_rejects_empty_tag() {
    let err = Item::with_repo("myrepo", "").unwrap_err();
    assert!(matches!(err, ParseError::EmptySegment(ref t) if t.is_empty()));
    let err = Item::with_repo("myrepo", "alias=").unwrap_err();
    assert!(matches!(err, ParseError::EmptySegment(ref t) if t == "alias="));
}

#[test]
fn specifier_with_empty_repository_is_malformed() {
    let err = Image::from_str(":v1").unwrap_err();
    assert!(matches!(err, ParseError::EmptySegment(ref t) if t == ":v1"));
}

#[test]
fn specifier_with_empty_tag_is_malformed() {
    let err = Image::from_str("myrepo:").unwrap_err();
    assert!(matches!(err, ParseError::EmptySegment(ref t) if t == "myrepo:"));
}

#[test]
fn tag_may_contain_further_colons() {
    let im = Image::from_str("a:b:c").unwrap();
    assert_eq!(im.repo, "a");
    assert_eq!(im.tag, "b:c");
    assert_eq!(im.to_str(), "a:b:c");
}

#[test]
fn aliased_token_with_colon_in_alias_is_free_form() {
    // The mode looks at the whole first token; this one contains a colon,
    // so the batch is free form, and the token's own specifier must still
    // resolve to repository:tag.
    let err = process_args(&strings(&["a:b=c"])).unwrap_err();
    assert!(matches!(err, ParseError::MissingTag(ref t) if t == "a:b=c"));
}

#[test]
fn mode_state_is_decided_by_first_token() {
    let (state, items) = image_probe::args::start("myrepo").unwrap();
    assert_eq!(state, State::ProcessingRepo("myrepo".to_string()));
    assert!(items.is_empty());

    let (state, items) = image_probe::args::start("a:1").unwrap();
    assert_eq!(state, State::Individual);
    assert_eq!(items.len(), 1);
}

#[test]
fn next_follows_the_fixed_mode() {
    let state = State::ProcessingRepo("myrepo".to_string());
    let item = image_probe::args::next(&state, "v1").unwrap();
    assert_eq!(item.name(), "myrepo:v1");
    let err = image_probe::args::next(&state, "other:v1").unwrap_err();
    assert!(matches!(err, ParseError::RepoInFixedMode(_, _)));
}

#[test]
fn next_follows_the_free_form_mode() {
    let state = State::Individual;
    let item = image_probe::args::next(&state, "other:v1").unwrap();
    assert_eq!(item.name(), "other:v1");
    let err = image_probe::args::next(&state, "v1").unwrap_err();
    assert!(matches!(err, ParseError::MissingTag(ref t) if t == "v1"));
}

#[test]
fn error_messages_name_the_offending_token() {
    let err = process_args(&strings(&["myrepo", "tag=with:colon"])).unwrap_err();
    let msg = err.describe();
    assert!(msg.contains("tag=with:colon"));
    assert!(msg.contains("myrepo"));

    let err = process_args(&strings(&["a:1", "b"])).unwrap_err();
    assert!(err.describe().contains("b"));

    let err = process_args(&strings(&[])).unwrap_err();
    assert_eq!(err.describe(), "no images supplied");
}
