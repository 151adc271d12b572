use image_probe::args::process_args;
use image_probe::images::Item;
use image_probe::probe::{
    auth_scopes, distinct_repos, initial_state, is_terminal, next_action, step, ProbeAction,
    ProbeEvent, ProbeState,
};

fn strings(toks: &[&str]) -> Vec<String> {
    toks.iter().map(|s| s.to_string()).collect()
}

/// Drives the probe machine over a fake registry that reports existence per
/// `existing` pairs; returns the terminal state and the indices queried, in
/// order.
fn run_probe(
    items: &[Item],
    existing: &[(&str, &str)],
    auth_ok: bool,
) -> (ProbeState, Vec<usize>) {
    let mut state = initial_state();
    let mut queried: Vec<usize> = Vec::new();
    loop {
        match next_action(state) {
            ProbeAction::Authenticate => {
                let event = if auth_ok {
                    ProbeEvent::AuthOk
                } else {
                    ProbeEvent::AuthFailed
                };
                state = step(items.len(), state, event);
            }
            ProbeAction::Query(i) => {
                queried.push(i);
                let image = items[i].image();
                let exists = existing
                    .iter()
                    .any(|(r, t)| *r == image.repo && *t == image.tag);
                let event = if exists {
                    ProbeEvent::ManifestExists
                } else {
                    ProbeEvent::ManifestAbsent
                };
                state = step(items.len(), state, event);
            }
            ProbeAction::Stop => break,
        }
    }
    assert!(is_terminal(state));
    (state, queried)
}

/// The reported name for a terminal state, mirroring the output contract:
/// the found item's name, or nothing.
fn reported(items: &[Item], state: ProbeState) -> Option<String> {
    match state {
        ProbeState::Found(i) => Some(items[i].name()),
        _ => None,
    }
}

#[test]
fn probing_respects_input_order_and_short_circuits() {
    // Candidates [A, B, C] where B and C exist but A does not: the result is
    // B and C is never queried.
    let items = process_args(&strings(&["r:a", "r:b", "r:c"])).unwrap();
    let existing = [("r", "b"), ("r", "c")];
    let (state, queried) = run_probe(&items, &existing, true);
    assert_eq!(state, ProbeState::Found(1));
    assert_eq!(reported(&items, state), Some("r:b".to_string()));
    assert_eq!(queried, vec![0, 1]);
}

#[test]
fn exhaustion_queries_every_item_exactly_once() {
    let items = process_args(&strings(&["r:a", "r:b", "r:c"])).unwrap();
    let (state, queried) = run_probe(&items, &[], true);
    assert_eq!(state, ProbeState::Exhausted);
    assert_eq!(reported(&items, state), None);
    assert_eq!(queried, vec![0, 1, 2]);
}

#[test]
fn auth_failure_makes_no_existence_checks() {
    let items = process_args(&strings(&["r:a", "r:b"])).unwrap();
    let (state, queried) = run_probe(&items, &[("r", "a")], false);
    assert_eq!(state, ProbeState::Failed);
    assert_eq!(queried.len(), 0);
}

#[test]
fn scenario_fixed_repo_second_tag_exists() {
    // Input ["myrepo", "v1", "v2"]; the registry has myrepo:v2 but not
    // myrepo:v1.
    let items = process_args(&strings(&["myrepo", "v1", "v2"])).unwrap();
    let existing = [("myrepo", "v2")];
    let (state, queried) = run_probe(&items, &existing, true);
    assert_eq!(reported(&items, state), Some("myrepo:v2".to_string()));
    assert_eq!(queried, vec![0, 1]);
}

#[test]
fn scenario_free_form_none_exist() {
    let items = process_args(&strings(&["a:1", "b:2"])).unwrap();
    let (state, queried) = run_probe(&items, &[], true);
    assert_eq!(state, ProbeState::Exhausted);
    assert_eq!(reported(&items, state), None);
    assert_eq!(queried, vec![0, 1]);
}

#[test]
fn scenario_alias_is_reported() {
    let items =
        process_args(&strings(&["alias1=myrepo:v1", "alias2=myrepo:v2"])).unwrap();
    let existing = [("myrepo", "v1")];
    let (state, _) = run_probe(&items, &existing, true);
    assert_eq!(reported(&items, state), Some("alias1".to_string()));
}

#[test]
fn scenario_single_token_with_auth_failure() {
    let items = process_args(&strings(&["myrepo:v1"])).unwrap();
    let (state, queried) = run_probe(&items, &[("myrepo", "v1")], false);
    assert_eq!(state, ProbeState::Failed);
    assert_eq!(queried, Vec::<usize>::new());
    assert_eq!(reported(&items, state), None);
}

#[test]
fn transport_error_is_fatal_mid_probe() {
    let items = process_args(&strings(&["r:a", "r:b"])).unwrap();
    let mut state = initial_state();
    state = step(items.len(), state, ProbeEvent::AuthOk);
    assert_eq!(state, ProbeState::Probing(0));
    state = step(items.len(), state, ProbeEvent::TransportError);
    assert_eq!(state, ProbeState::Failed);
    assert_eq!(next_action(state), ProbeAction::Stop);
}

#[test]
fn empty_candidate_list_exhausts_after_auth() {
    let state = step(0, initial_state(), ProbeEvent::AuthOk);
    assert_eq!(state, ProbeState::Exhausted);
}

#[test]
fn terminal_states_request_stop() {
    assert_eq!(next_action(ProbeState::Found(3)), ProbeAction::Stop);
    assert_eq!(next_action(ProbeState::Exhausted), ProbeAction::Stop);
    assert_eq!(next_action(ProbeState::Failed), ProbeAction::Stop);
    assert_eq!(next_action(ProbeState::Unauthenticated), ProbeAction::Authenticate);
    assert_eq!(next_action(ProbeState::Probing(2)), ProbeAction::Query(2));
}

#[test]
fn distinct_repos_deduplicates() {
    let items = process_args(&strings(&["a:1", "b:2", "a:3"])).unwrap();
    let repos = distinct_repos(&items);
    assert_eq!(repos.len(), 2);
    assert!(repos.contains(&"a".to_string()));
    assert!(repos.contains(&"b".to_string()));
}

#[test]
fn auth_scope_strings_request_pull_access() {
    let repos = vec!["myrepo".to_string(), "other".to_string()];
    let scopes = auth_scopes(&repos);
    assert_eq!(
        scopes,
        vec![
            "repository:myrepo:pull".to_string(),
            "repository:other:pull".to_string()
        ]
    );
}
