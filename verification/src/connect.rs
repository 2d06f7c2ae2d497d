//! The multi-candidate connect strategy: which resolved address an
//! establishment uses, and which error it fails with.
//!
//! The unverified edge performs resolution and the socket connects; it
//! reports each attempt's outcome and follows the decisions made here.

use vstd::prelude::*;
use crate::errors::{ConnectKind, Error};

verus! {

/// How one connect attempt against a single candidate address ended.
#[derive(Clone, Copy, Debug, PartialEq, Eq, Structural)]
pub enum AttemptOutcome {
    /// The attempt produced an open connection.
    Connected,
    /// The attempt failed with a timeout-kind error.
    TimedOut,
    /// The attempt failed with any other error.
    Failed,
}

/// What the connect loop does after one attempt.
#[derive(Clone, Copy, Debug, PartialEq, Eq, Structural)]
pub enum ConnectDecision {
    /// Use the connection this attempt opened.
    UseThis,
    /// Stop at once: a timeout-kind failure is never retried on a later
    /// candidate.
    FailTimeout,
    /// Try the next candidate.
    TryNext,
    /// The failed attempt was the last candidate; propagate its error.
    FailExhausted,
}

/// The decision the connect loop takes after an attempt with outcome
/// `outcome`, when `is_last` says no candidate follows.
pub open spec fn connect_step_spec(outcome: AttemptOutcome, is_last: bool) -> ConnectDecision {
    match outcome {
        AttemptOutcome::Connected => ConnectDecision::UseThis,
        AttemptOutcome::TimedOut => ConnectDecision::FailTimeout,
        AttemptOutcome::Failed => if is_last {
            ConnectDecision::FailExhausted
        } else {
            ConnectDecision::TryNext
        },
    }
}

/// One step of the connect loop. The unverified edge calls this after each
/// socket attempt and obeys the returned decision.
pub fn connect_step(outcome: AttemptOutcome, is_last: bool) -> (d: ConnectDecision)
    ensures
        d == connect_step_spec(outcome, is_last),
{
    match outcome {
        AttemptOutcome::Connected => ConnectDecision::UseThis,
        AttemptOutcome::TimedOut => ConnectDecision::FailTimeout,
        AttemptOutcome::Failed => if is_last {
            ConnectDecision::FailExhausted
        } else {
            ConnectDecision::TryNext
        },
    }
}

/// The result of establishing over a candidate sequence whose attempts
/// would end as `outcomes`: the index of the candidate used, or the error.
///
/// Candidates are consumed left to right. A connection is used at once; a
/// timeout-kind failure aborts the whole establishment; any other failure
/// moves on to the next candidate, and is propagated when it was the last.
/// An empty sequence means resolution produced no usable endpoint.
pub open spec fn establish_spec(outcomes: Seq<AttemptOutcome>) -> Result<int, Error>
    decreases outcomes.len(),
{
    if outcomes.len() == 0 {
        Err(Error::AddressResolution)
    } else {
        match outcomes[0] {
            AttemptOutcome::Connected => Ok(0),
            AttemptOutcome::TimedOut => Err(Error::Connect(ConnectKind::TimedOut)),
            AttemptOutcome::Failed => if outcomes.len() == 1 {
                Err(Error::Connect(ConnectKind::Exhausted))
            } else {
                match establish_spec(outcomes.drop_first()) {
                    Ok(i) => Ok(i + 1),
                    Err(e) => Err(e),
                }
            },
        }
    }
}

/// Selects the candidate an establishment uses, given how each attempt
/// would end. This is the connect strategy itself, applied when all
/// outcomes are known; the live connect loop reaches the same result one
/// `connect_step` at a time.
pub fn select_candidate(outcomes: &Vec<AttemptOutcome>) -> (r: Result<usize, Error>)
    ensures
        match r {
            Ok(i) => establish_spec(outcomes@) == Ok::<int, Error>(i as int),
            Err(e) => establish_spec(outcomes@) == Err::<int, Error>(e),
        },
{
    let n = outcomes.len();
    let mut idx: usize = 0;
    while idx < n
        invariant
            0 <= idx <= n == outcomes@.len(),
            n == 0 || idx < n,
            forall|j: int| 0 <= j < idx ==> outcomes@[j] == AttemptOutcome::Failed,
        decreases n - idx,
    {
        let is_last = idx + 1 == n;
        match connect_step(outcomes[idx], is_last) {
            ConnectDecision::UseThis => {
                proof {
                    lemma_establish_skips_failed(outcomes@, idx as int);
                }
                return Ok(idx);
            },
            ConnectDecision::FailTimeout => {
                proof {
                    lemma_establish_prefix_failed(outcomes@, idx as int);
                }
                return Err(Error::Connect(ConnectKind::TimedOut));
            },
            ConnectDecision::FailExhausted => {
                proof {
                    lemma_establish_prefix_failed(outcomes@, idx as int);
                }
                return Err(Error::Connect(ConnectKind::Exhausted));
            },
            ConnectDecision::TryNext => {
                idx = idx + 1;
            },
        }
    }
    // The loop leaves normally only when there was no candidate at all:
    // a plain failure on the last candidate returns from inside it.
    Err(Error::AddressResolution)
}

/// If every candidate before `n` fails with a non-timeout error, the
/// establishment behaves as if the sequence started at `n`, with indices
/// shifted.
proof fn lemma_establish_shift(outcomes: Seq<AttemptOutcome>, n: int)
    requires
        0 <= n < outcomes.len(),
        forall|j: int| 0 <= j < n ==> outcomes[j] == AttemptOutcome::Failed,
    ensures
        establish_spec(outcomes) == match establish_spec(outcomes.skip(n)) {
            Ok(i) => Ok::<int, Error>(i + n),
            Err(e) => Err::<int, Error>(e),
        },
    decreases n,
{
    if n > 0 {
        assert(outcomes[0] == AttemptOutcome::Failed);
        assert(outcomes.len() > 1);
        lemma_establish_shift(outcomes.drop_first(), n - 1);
        assert(outcomes.drop_first().skip(n - 1) =~= outcomes.skip(n));
    } else {
        assert(outcomes.skip(0) =~= outcomes);
    }
}

/// If the first `n` candidates fail with non-timeout errors and the
/// candidate at `n` connects, the establishment succeeds using exactly
/// that candidate.
pub proof fn lemma_establish_skips_failed(outcomes: Seq<AttemptOutcome>, n: int)
    requires
        0 <= n < outcomes.len(),
        forall|j: int| 0 <= j < n ==> outcomes[j] == AttemptOutcome::Failed,
        outcomes[n] == AttemptOutcome::Connected,
    ensures
        establish_spec(outcomes) == Ok::<int, Error>(n),
{
    lemma_establish_shift(outcomes, n);
    assert(outcomes.skip(n)[0] == outcomes[n]);
}

/// If the first `n` candidates fail with non-timeout errors, the final
/// result is decided at candidate `n` alone: a timeout there fails the
/// whole establishment at once, and a plain failure on the last candidate
/// is propagated.
proof fn lemma_establish_prefix_failed(outcomes: Seq<AttemptOutcome>, n: int)
    requires
        0 <= n < outcomes.len(),
        forall|j: int| 0 <= j < n ==> outcomes[j] == AttemptOutcome::Failed,
    ensures
        outcomes[n] == AttemptOutcome::TimedOut ==> establish_spec(outcomes) == Err::<int, Error>(
            Error::Connect(ConnectKind::TimedOut),
        ),
        outcomes[n] == AttemptOutcome::Failed && n + 1 == outcomes.len()
            ==> establish_spec(outcomes) == Err::<int, Error>(Error::Connect(ConnectKind::Exhausted)),
{
    lemma_establish_shift(outcomes, n);
    assert(outcomes.skip(n)[0] == outcomes[n]);
    assert(outcomes.skip(n).len() == outcomes.len() - n);
}

/// A timeout-kind failure on the very first candidate fails the whole
/// establishment at once with that error, whatever the later candidates
/// would have done.
pub proof fn lemma_establish_timeout_is_final(outcomes: Seq<AttemptOutcome>)
    requires
        outcomes.len() > 0,
        outcomes[0] == AttemptOutcome::TimedOut,
    ensures
        establish_spec(outcomes) == Err::<int, Error>(Error::Connect(ConnectKind::TimedOut)),
{
}

/// Whether an upgrade to a secure channel is a handshake or keeps the
/// transport as it is: already-secured transports and targets that do not
/// ask for a secure scheme are left untouched.
#[derive(Clone, Copy, Debug, PartialEq, Eq, Structural)]
pub enum UpgradeAction {
    /// Return the transport unchanged.
    Keep,
    /// Hand the plain connection to the secure-channel capability.
    Handshake,
}

/// Decides whether `try_to_https` performs a handshake: only a plain
/// transport whose target's scheme asks for a secure channel is upgraded.
pub fn plan_upgrade(already_secured: bool, scheme_is_https: bool) -> (a: UpgradeAction)
    ensures
        a == UpgradeAction::Handshake <==> (!already_secured && scheme_is_https),
{
    if !already_secured && scheme_is_https {
        UpgradeAction::Handshake
    } else {
        UpgradeAction::Keep
    }
}

} // verus!
