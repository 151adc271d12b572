//! The existence prober's decision core.
//!
//! Per run the prober authenticates once, then asks the registry about each
//! candidate strictly in input order and stops at the first hit. The network
//! exchanges themselves are outside work: the surrounding application owns
//! the registry client, performs the action the machine requests
//! ([`next_action`]), and feeds the outcome back in as an event ([`step`]).
//! Everything decided here — which candidate to query next, when to stop,
//! that a failure is terminal — is verified, for every possible sequence of
//! outcomes.

use vstd::prelude::*;

use crate::images::Item;
use crate::text::first_at;

verus! {

/// The prober's state. `Found`, `Exhausted` and `Failed` are terminal.
#[derive(Debug, Clone, Copy, PartialEq, Eq, Structural)]
pub enum ProbeState {
    /// No authentication exchange has completed yet.
    Unauthenticated,
    /// Authenticated; the candidate at this index is queried next.
    Probing(usize),
    /// The candidate at this index is the first one that exists.
    Found(usize),
    /// Every candidate was queried and none exists.
    Exhausted,
    /// The authentication exchange or an existence check failed.
    Failed,
}

/// The outcome of one network exchange, fed back into the machine.
#[derive(Debug, Clone, Copy, PartialEq, Eq, Structural)]
pub enum ProbeEvent {
    /// The authentication exchange succeeded.
    AuthOk,
    /// The authentication exchange was rejected or did not complete.
    AuthFailed,
    /// The queried candidate has a manifest on the registry.
    ManifestExists,
    /// The registry answered cleanly that the candidate has no manifest.
    ManifestAbsent,
    /// An existence check did not complete.
    TransportError,
}

/// What the machine asks the surrounding application to do next.
#[derive(Debug, Clone, Copy, PartialEq, Eq, Structural)]
pub enum ProbeAction {
    /// Perform the single authentication exchange.
    Authenticate,
    /// Ask the registry whether the candidate at this index exists.
    Query(usize),
    /// Terminal state reached; perform no further exchange.
    Stop,
}

/// The transition function over `n` candidates. Errors are terminal from
/// any state; a negative existence answer advances the index by one; an
/// event that its state cannot answer counts as a failure.
pub open spec fn spec_step(n: int, s: ProbeState, e: ProbeEvent) -> ProbeState {
    match (s, e) {
        (ProbeState::Unauthenticated, ProbeEvent::AuthOk) => if n == 0 {
            ProbeState::Exhausted
        } else {
            ProbeState::Probing(0)
        },
        (ProbeState::Unauthenticated, ProbeEvent::AuthFailed) => ProbeState::Failed,
        (ProbeState::Probing(i), ProbeEvent::ManifestExists) => ProbeState::Found(i),
        (ProbeState::Probing(i), ProbeEvent::ManifestAbsent) => if i + 1 < n {
            ProbeState::Probing((i + 1) as usize)
        } else {
            ProbeState::Exhausted
        },
        (ProbeState::Probing(_), ProbeEvent::TransportError) => ProbeState::Failed,
        (_, _) => ProbeState::Failed,
    }
}

/// Every index the machine carries stays below the candidate count.
pub open spec fn state_wf(n: int, s: ProbeState) -> bool {
    match s {
        ProbeState::Probing(i) => i < n,
        ProbeState::Found(i) => i < n,
        _ => true,
    }
}

/// The action requested in a state: authenticate first, then query the
/// current candidate, and stop in the terminal states.
pub open spec fn spec_action(s: ProbeState) -> ProbeAction {
    match s {
        ProbeState::Unauthenticated => ProbeAction::Authenticate,
        ProbeState::Probing(i) => ProbeAction::Query(i),
        _ => ProbeAction::Stop,
    }
}

/// The state every run begins in.
pub fn initial_state() -> (r: ProbeState)
    ensures
        r == ProbeState::Unauthenticated,
{
    ProbeState::Unauthenticated
}

/// One transition of the prober over `n` candidates.
pub fn step(n: usize, s: ProbeState, e: ProbeEvent) -> (r: ProbeState)
    ensures
        r == spec_step(n as int, s, e),
        state_wf(n as int, s) ==> state_wf(n as int, r),
{
    match (s, e) {
        (ProbeState::Unauthenticated, ProbeEvent::AuthOk) => {
            if n == 0 {
                ProbeState::Exhausted
            } else {
                ProbeState::Probing(0)
            }
        },
        (ProbeState::Unauthenticated, ProbeEvent::AuthFailed) => ProbeState::Failed,
        (ProbeState::Probing(i), ProbeEvent::ManifestExists) => ProbeState::Found(i),
        (ProbeState::Probing(i), ProbeEvent::ManifestAbsent) => {
            if n > 0 && i < n - 1 {
                ProbeState::Probing(i + 1)
            } else {
                ProbeState::Exhausted
            }
        },
        (ProbeState::Probing(_), ProbeEvent::TransportError) => ProbeState::Failed,
        (_, _) => ProbeState::Failed,
    }
}

/// The action the machine requests in state `s`.
pub fn next_action(s: ProbeState) -> (r: ProbeAction)
    ensures
        r == spec_action(s),
{
    match s {
        ProbeState::Unauthenticated => ProbeAction::Authenticate,
        ProbeState::Probing(i) => ProbeAction::Query(i),
        _ => ProbeAction::Stop,
    }
}

/// Whether `s` is terminal: no further exchange is performed from it.
pub fn is_terminal(s: ProbeState) -> (r: bool)
    ensures
        r == (spec_action(s) == ProbeAction::Stop),
{
    match s {
        ProbeState::Found(_) => true,
        ProbeState::Exhausted => true,
        ProbeState::Failed => true,
        _ => false,
    }
}

/// The event a clean registry produces for the candidate at index `i`,
/// given which candidates exist.
pub open spec fn event_at(answers: Seq<bool>, i: int) -> ProbeEvent {
    if 0 <= i < answers.len() && answers[i] {
        ProbeEvent::ManifestExists
    } else {
        ProbeEvent::ManifestAbsent
    }
}

/// The event the authentication exchange produces.
pub open spec fn auth_event(ok: bool) -> ProbeEvent {
    if ok {
        ProbeEvent::AuthOk
    } else {
        ProbeEvent::AuthFailed
    }
}

/// The terminal state the machine reaches when probing starts at index `i`
/// over `n` candidates and the registry answers cleanly per `answers`.
pub open spec fn spec_run_from(n: usize, answers: Seq<bool>, i: usize) -> ProbeState
    decreases n - i,
{
    if i < n {
        match spec_step(n as int, ProbeState::Probing(i), event_at(answers, i as int)) {
            ProbeState::Probing(i2) => spec_run_from(n, answers, i2),
            s => s,
        }
    } else {
        ProbeState::Exhausted
    }
}

/// The indices the machine queries, in order, when probing starts at index
/// `i` over `n` candidates and the registry answers cleanly per `answers`.
pub open spec fn spec_queries_from(n: usize, answers: Seq<bool>, i: usize) -> Seq<int>
    decreases n - i,
{
    if i < n {
        match spec_step(n as int, ProbeState::Probing(i), event_at(answers, i as int)) {
            ProbeState::Probing(i2) => seq![i as int] + spec_queries_from(n, answers, i2),
            _ => seq![i as int],
        }
    } else {
        Seq::empty()
    }
}

/// The terminal state of a whole run over `n` candidates: the
/// authentication exchange first, then clean existence answers per
/// `answers`.
pub open spec fn spec_run(n: usize, answers: Seq<bool>, auth_ok: bool) -> ProbeState {
    match spec_step(n as int, ProbeState::Unauthenticated, auth_event(auth_ok)) {
        ProbeState::Probing(i0) => spec_run_from(n, answers, i0),
        s => s,
    }
}

/// The indices queried over a whole run, in order.
pub open spec fn spec_run_queries(n: usize, answers: Seq<bool>, auth_ok: bool) -> Seq<int> {
    match spec_step(n as int, ProbeState::Unauthenticated, auth_event(auth_ok)) {
        ProbeState::Probing(i0) => spec_queries_from(n, answers, i0),
        _ => Seq::empty(),
    }
}

proof fn lemma_run_from_found(n: usize, answers: Seq<bool>, i: usize, k: int)
    requires
        answers.len() == n,
        i <= k < n,
        answers[k],
        forall|j: int| i <= j < k ==> !answers[j],
    ensures
        spec_run_from(n, answers, i) == ProbeState::Found(k as usize),
        spec_queries_from(n, answers, i) =~= Seq::new((k - i + 1) as nat, |j: int| i + j),
    decreases n - i,
{
    if i as int == k {
        assert(spec_queries_from(n, answers, i) =~= Seq::new(1, |j: int| i + j));
    } else {
        lemma_run_from_found(n, answers, (i + 1) as usize, k);
        assert(spec_queries_from(n, answers, i) =~= seq![i as int] + Seq::new(
            (k - i) as nat,
            |j: int| i + 1 + j,
        ));
    }
}

proof fn lemma_run_from_exhausted(n: usize, answers: Seq<bool>, i: usize)
    requires
        answers.len() == n,
        i <= n,
        forall|j: int| i <= j < n ==> !answers[j],
    ensures
        spec_run_from(n, answers, i) == ProbeState::Exhausted,
        spec_queries_from(n, answers, i) =~= Seq::new((n - i) as nat, |j: int| i + j),
    decreases n - i,
{
    if i < n {
        lemma_run_from_exhausted(n, answers, (i + 1) as usize);
        if i + 1 < n {
            assert(spec_queries_from(n, answers, i) =~= seq![i as int] + Seq::new(
                (n - i - 1) as nat,
                |j: int| i + 1 + j,
            ));
        } else {
            assert(spec_queries_from(n, answers, i) =~= Seq::new(1, |j: int| i + j));
        }
    }
}

/// Probing respects input order and short-circuits: when the first existing
/// candidate is at index `k`, the run ends in `Found(k)` having queried
/// exactly the indices `0, 1, ..., k` in that order — candidates past the
/// first match are never queried.
pub proof fn lemma_probe_first_match(n: usize, answers: Seq<bool>, k: int)
    requires
        answers.len() == n,
        first_at(answers, true, k),
    ensures
        spec_run(n, answers, true) == ProbeState::Found(k as usize),
        spec_run_queries(n, answers, true) =~= Seq::new((k + 1) as nat, |j: int| j),
        forall|q: int| k < q < n ==> !spec_run_queries(n, answers, true).contains(q),
{
    assert(forall|j: int| 0 <= j < k ==> !answers[j]);
    lemma_run_from_found(n, answers, 0, k);
    assert(spec_run_queries(n, answers, true) =~= Seq::new((k + 1) as nat, |j: int| j));
    assert forall|q: int| k < q < n implies !spec_run_queries(n, answers, true).contains(q) by {
        let qs = spec_run_queries(n, answers, true);
        assert(forall|x: int| 0 <= x < qs.len() ==> qs[x] == x && x <= k);
    }
}

/// Exhaustion: when no candidate exists, the run ends in `Exhausted` and
/// every candidate was queried exactly once, in input order.
pub proof fn lemma_probe_exhaustion(n: usize, answers: Seq<bool>)
    requires
        answers.len() == n,
        forall|j: int| 0 <= j < n ==> !answers[j],
    ensures
        spec_run(n, answers, true) == ProbeState::Exhausted,
        spec_run_queries(n, answers, true) =~= Seq::new(n as nat, |j: int| j),
{
    if n == 0 {
        assert(spec_run_queries(n, answers, true) =~= Seq::new(0, |j: int| j));
    } else {
        lemma_run_from_exhausted(n, answers, 0);
    }
}

/// Fatal short-circuit: when the authentication exchange fails, the run
/// ends in `Failed` and no existence check is ever made.
pub proof fn lemma_auth_failure_no_queries(n: usize, answers: Seq<bool>)
    ensures
        spec_run(n, answers, false) == ProbeState::Failed,
        spec_run_queries(n, answers, false) == Seq::<int>::empty(),
{
}

/// The scope string requesting pull access to one repository.
pub open spec fn spec_scope(repo: Seq<char>) -> Seq<char> {
    "repository:"@ + repo + ":pull"@
}

/// Whether some string of `v` views as `s`.
pub open spec fn contains_view(v: Seq<String>, s: Seq<char>) -> bool {
    exists|i: int| 0 <= i < v.len() && v[i]@ == s
}

fn vec_contains_str(v: &Vec<String>, s: &String) -> (r: bool)
    ensures
        r == contains_view(v@, s@),
{
    let mut i: usize = 0;
    while i < v.len()
        invariant
            i <= v@.len(),
            forall|j: int| 0 <= j < i ==> v@[j]@ != s@,
        decreases v@.len() - i,
    {
        if v[i] == *s {
            return true;
        }
        i = i + 1;
    }
    false
}

/// The distinct repository names across all candidates: every candidate's
/// repository occurs, nothing else occurs, and no name occurs twice. This
/// is the set the single authentication exchange requests pull access for.
pub fn distinct_repos(items: &Vec<Item>) -> (r: Vec<String>)
    ensures
        forall|i: int|
            0 <= i < r@.len() ==> contains_view(
                items@.map_values(|it: Item| it.spec_image().repo),
                #[trigger] r@[i]@,
            ),
        forall|j: int|
            0 <= j < items@.len() ==> contains_view(
                r@,
                #[trigger] items@[j].spec_image().repo@,
            ),
        forall|i1: int, i2: int| 0 <= i1 < i2 < r@.len() ==> r@[i1]@ != r@[i2]@,
{
    let mut out: Vec<String> = Vec::new();
    let mut i: usize = 0;
    while i < items.len()
        invariant
            i <= items@.len(),
            forall|x: int|
                0 <= x < out@.len() ==> contains_view(
                    items@.map_values(|it: Item| it.spec_image().repo),
                    #[trigger] out@[x]@,
                ),
            forall|j: int|
                0 <= j < i ==> contains_view(out@, #[trigger] items@[j].spec_image().repo@),
            forall|i1: int, i2: int| 0 <= i1 < i2 < out@.len() ==> out@[i1]@ != out@[i2]@,
        decreases items@.len() - i,
    {
        let repo = &items[i].image().repo;
        if !vec_contains_str(&out, repo) {
            let ghost pre = out@;
            out.push(repo.clone());
            proof {
                let ghost m = items@.map_values(|it: Item| it.spec_image().repo);
                assert(m[i as int]@ == items@[i as int].spec_image().repo@);
                assert(out@[pre.len() as int]@ == items@[i as int].spec_image().repo@);
                assert forall|j: int| 0 <= j <= i implies contains_view(
                    out@,
                    #[trigger] items@[j].spec_image().repo@,
                ) by {
                    if j < i {
                        let w = choose|w: int|
                            0 <= w < pre.len() && pre[w]@ == items@[j].spec_image().repo@;
                        assert(out@[w]@ == items@[j].spec_image().repo@);
                    }
                }
            }
        }
        i = i + 1;
    }
    out
}

/// The scope strings handed to the single authentication exchange: one
/// `repository:<name>:pull` entry per repository, in the given order.
pub fn auth_scopes(repos: &Vec<String>) -> (r: Vec<String>)
    ensures
        r@.len() == repos@.len(),
        forall|i: int| 0 <= i < r@.len() ==> #[trigger] r@[i]@ == spec_scope(repos@[i]@),
{
    let mut out: Vec<String> = Vec::new();
    let mut i: usize = 0;
    while i < repos.len()
        invariant
            i <= repos@.len(),
            out@.len() == i,
            forall|j: int| 0 <= j < i ==> #[trigger] out@[j]@ == spec_scope(repos@[j]@),
        decreases repos@.len() - i,
    {
        let mut s = String::from_str("repository:");
        s.append(repos[i].as_str());
        s.append(":pull");
        out.push(s);
        i = i + 1;
    }
    out
}

} // verus!
