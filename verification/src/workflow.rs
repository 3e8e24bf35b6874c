//! Decisions of a `cargo budget-report` run: which network and source to
//! use, and when a failed deploy is retried.
use vstd::prelude::*;

verus! {

/// A setting that neither the command line nor `budget.toml` provides.
#[derive(Debug, Clone, Copy, PartialEq, Eq, Structural)]
pub enum MissingSetting {
    Network,
    Source,
}

/// A command-line flag overrides the value from `budget.toml`.
pub open spec fn chosen(flag: Option<String>, file: Option<String>) -> Option<String> {
    match flag {
        Some(v) => Some(v),
        None => file,
    }
}

/// The network and source identity of the run: each from its flag when
/// given, else from `budget.toml`; an error names the first one missing,
/// the network before the source.
pub fn resolve_target(
    flag_network: Option<String>,
    flag_source: Option<String>,
    file_network: Option<String>,
    file_source: Option<String>,
) -> (r: Result<(String, String), MissingSetting>)
    ensures
        ({
            let network = chosen(flag_network, file_network);
            let source = chosen(flag_source, file_source);
            match (network, source) {
                (Some(n), Some(s)) => r == Ok::<(String, String), MissingSetting>((n, s)),
                (None, _) => r == Err::<(String, String), MissingSetting>(MissingSetting::Network),
                (Some(_), None) => r == Err::<(String, String), MissingSetting>(
                    MissingSetting::Source,
                ),
            }
        }),
{
    let network = match flag_network {
        Some(v) => Some(v),
        None => file_network,
    };
    let source = match flag_source {
        Some(v) => Some(v),
        None => file_source,
    };
    match network {
        None => Err(MissingSetting::Network),
        Some(n) => match source {
            None => Err(MissingSetting::Source),
            Some(s) => Ok((n, s)),
        },
    }
}

/// How many times a deploy is attempted in all: the first try and three
/// retries.
pub const MAX_DEPLOY_ATTEMPTS: u32 = 4;

/// What to do after a deploy attempt.
#[derive(Debug, Clone, Copy, PartialEq, Eq, Structural)]
pub enum DeployStep {
    /// The contract is deployed.
    Done,
    /// Wait this many seconds, then try again.
    RetryAfter(u64),
    /// Every attempt failed; the run fails, pointing at the source account's
    /// funding.
    GiveUp,
}

/// `2^n`.
pub open spec fn pow2(n: nat) -> nat
    decreases n,
{
    if n == 0 {
        1
    } else {
        2 * pow2((n - 1) as nat)
    }
}

/// The step after attempt number `attempt` (counted from 1): a failed
/// attempt before the last is retried after `2^attempt` seconds (2, 4, then
/// 8), the last failed attempt gives up.
pub open spec fn deploy_step(attempt: nat, succeeded: bool) -> DeployStep {
    if succeeded {
        DeployStep::Done
    } else if attempt < MAX_DEPLOY_ATTEMPTS {
        DeployStep::RetryAfter(pow2(attempt) as u64)
    } else {
        DeployStep::GiveUp
    }
}

/// Decides what follows deploy attempt `attempt` (counted from 1).
pub fn next_deploy_step(attempt: u32, succeeded: bool) -> (r: DeployStep)
    requires
        1 <= attempt <= MAX_DEPLOY_ATTEMPTS,
    ensures
        r == deploy_step(attempt as nat, succeeded),
{
    if succeeded {
        DeployStep::Done
    } else if attempt < MAX_DEPLOY_ATTEMPTS {
        assert(pow2(0) == 1);
        assert(pow2(1) == 2);
        assert(pow2(2) == 4);
        assert(pow2(3) == 8);
        let delay: u64 = if attempt == 1 {
            2
        } else if attempt == 2 {
            4
        } else {
            8
        };
        DeployStep::RetryAfter(delay)
    } else {
        DeployStep::GiveUp
    }
}

/// The seconds waited before attempt `k`, when every earlier attempt failed.
pub open spec fn waited_before(k: nat) -> nat
    decreases k,
{
    if k <= 1 {
        0
    } else {
        waited_before((k - 1) as nat) + pow2((k - 1) as nat)
    }
}

/// A deploy that keeps failing is attempted exactly four times, each wait
/// doubles the one before, and the run gives up after 14 seconds of waiting.
pub proof fn lemma_retries_are_bounded(attempt: nat)
    requires
        1 <= attempt <= MAX_DEPLOY_ATTEMPTS,
    ensures
        attempt < MAX_DEPLOY_ATTEMPTS ==> deploy_step(attempt, false) is RetryAfter,
        attempt == MAX_DEPLOY_ATTEMPTS ==> deploy_step(attempt, false) == DeployStep::GiveUp,
        1 < attempt < MAX_DEPLOY_ATTEMPTS ==> pow2(attempt) == 2 * pow2((attempt - 1) as nat),
        waited_before(MAX_DEPLOY_ATTEMPTS as nat) == 14,
{
    assert(pow2(0) == 1);
    assert(pow2(1) == 2);
    assert(pow2(2) == 4);
    assert(pow2(3) == 8);
    assert(waited_before(1) == 0);
    assert(waited_before(2) == 2);
    assert(waited_before(3) == 6);
    assert(waited_before(4) == 14);
}

} // verus!
