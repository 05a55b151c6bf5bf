//! The health-check facility: probes of the three downstream dependencies
//! — object store, relational store, key-value cache — memoized under one
//! fixed cache key with a short time-to-live.
//!
//! The machine consults the cache first and returns a hit verbatim.  On a
//! miss it probes the requested scope's dependencies in order, object
//! store first, short-circuiting on the first failure; a failure is
//! returned with the failing dependency's name and is never cached, and a
//! full success is cached before it is returned.  A failure to write the
//! cache after a successful probe degrades to an uncached success: on this
//! path the cache is best-effort, unlike the retrieval path.

use vstd::prelude::*;

verus! {

/// The time-to-live, in seconds, of a cached health-check status.
pub const HEALTH_TTL_SECONDS: u64 = 60;

/// The scopes a health check can cover: every dependency, or one of the
/// object store, the relational store and the key-value cache.
#[derive(PartialEq, Eq, Structural, Clone, Copy, Debug)]
pub enum HealthCheckType {
    All,
    S3,
    Postgres,
    Redis,
}

impl HealthCheckType {
    /// The message reported when this scope's probes all succeed.
    pub open spec fn spec_success_message(&self) -> Seq<char> {
        match self {
            HealthCheckType::All => "All services are healthy"@,
            HealthCheckType::S3 => "S3 is healthy"@,
            HealthCheckType::Postgres => "PostgreSQL is healthy"@,
            HealthCheckType::Redis => "Redis is healthy"@,
        }
    }

    /// Returns the success message for this scope.
    pub fn get_success_message(&self) -> (m: String)
        ensures
            m@ == self.spec_success_message(),
    {
        match self {
            HealthCheckType::All => "All services are healthy".to_owned(),
            HealthCheckType::S3 => "S3 is healthy".to_owned(),
            HealthCheckType::Postgres => "PostgreSQL is healthy".to_owned(),
            HealthCheckType::Redis => "Redis is healthy".to_owned(),
        }
    }

    /// The prefix of the failure message when this dependency's probe
    /// fails; the probe's own error text follows it.
    pub open spec fn spec_failure_prefix(&self) -> Seq<char> {
        match self {
            HealthCheckType::All => "Health Check Failed: "@,
            HealthCheckType::S3 => "S3 Health Check Failed: "@,
            HealthCheckType::Postgres => "PostgreSQL Health Check Failed: "@,
            HealthCheckType::Redis => "Redis Health Check Failed: "@,
        }
    }

    /// Returns the failure-message prefix for this dependency.
    pub fn failure_prefix(&self) -> (m: &'static str)
        ensures
            m@ == self.spec_failure_prefix(),
    {
        match self {
            HealthCheckType::All => "Health Check Failed: ",
            HealthCheckType::S3 => "S3 Health Check Failed: ",
            HealthCheckType::Postgres => "PostgreSQL Health Check Failed: ",
            HealthCheckType::Redis => "Redis Health Check Failed: ",
        }
    }
}

/// The dependencies a scope probes, in probing order: the whole-system
/// scope probes the object store, then the relational store, then the
/// key-value cache; a single scope probes its one dependency.
pub open spec fn spec_probes(scope: HealthCheckType) -> Seq<HealthCheckType> {
    match scope {
        HealthCheckType::All => seq![
            HealthCheckType::S3,
            HealthCheckType::Postgres,
            HealthCheckType::Redis,
        ],
        other => seq![other],
    }
}

/// Returns the number of probes this scope runs.
pub fn probe_count(scope: HealthCheckType) -> (n: usize)
    ensures
        n == spec_probes(scope).len(),
{
    match scope {
        HealthCheckType::All => 3,
        _ => 1,
    }
}

/// Returns the dependency probed at position `i` of this scope's order.
pub fn probe_at(scope: HealthCheckType, i: usize) -> (t: HealthCheckType)
    requires
        i < spec_probes(scope).len(),
    ensures
        t == spec_probes(scope)[i as int],
{
    match scope {
        HealthCheckType::All => {
            if i == 0 {
                HealthCheckType::S3
            } else if i == 1 {
                HealthCheckType::Postgres
            } else {
                HealthCheckType::Redis
            }
        },
        other => other,
    }
}

/// The fixed cache key health-check statuses are memoized under.
pub fn health_cache_key() -> (k: String)
    ensures
        k@ == "health_check_status"@,
{
    "health_check_status".to_owned()
}

/// Where a health check stands.
pub enum HealthState {
    /// Waiting for the cache's answer under the fixed key.
    CheckingCache,
    /// Waiting for the outcome of the probe at this position of the
    /// scope's order.
    Probing { idx: usize },
    /// Every probe succeeded; waiting for the cache store of the success
    /// message.
    Storing,
    /// The check ended with this status code and message.
    Done { code: u16, message: String },
}

/// What the shell reports back after performing a health action.
pub enum HealthEvent {
    /// The cache's answer: the memoized status, or a miss.
    CacheValue { value: Option<String> },
    /// The cache could not be consulted; treated as a miss.
    CacheUnavailable,
    /// The pending probe's outcome; `error` carries the dependency's error
    /// text when it failed.
    ProbeDone { ok: bool, error: String },
    /// Whether the cache store succeeded.
    CacheStored { ok: bool },
}

/// What the shell must do next.
pub enum HealthAction {
    /// Read the fixed key from the key-value cache.
    GetCache { key: String },
    /// Run the liveness probe of this dependency.
    Probe { target: HealthCheckType },
    /// Store the value under the key with the time-to-live.
    SetCache { key: String, value: String, ttl_seconds: u64 },
    /// The check ended; no further work.
    Finish,
}

/// Opens a health check: the memoized status is consulted first.
pub fn health_begin() -> (r: (HealthState, HealthAction))
    ensures
        r.0 is CheckingCache,
        r.1 matches HealthAction::GetCache { key } && key@ == "health_check_status"@,
{
    (HealthState::CheckingCache, HealthAction::GetCache { key: health_cache_key() })
}

/// Advances a health check with the shell's answer to the pending action.
///
/// A cache hit is returned verbatim with success status.  A miss (or an
/// unreachable cache) starts the scope's probes in order; the first
/// failure ends the check with the failing dependency's name and error
/// text, uncached; after the last success the success message is stored
/// with the short time-to-live, and the check reports success whether or
/// not that store worked.  An event that does not answer the pending
/// action ends the check as failed, and a finished check stays finished.
pub fn health_step(scope: HealthCheckType, s: HealthState, ev: HealthEvent) -> (r: (
    HealthState,
    HealthAction,
))
    ensures
        s is CheckingCache ==> {
            &&& (ev matches HealthEvent::CacheValue { value } ==> {
                &&& (value matches Option::Some(v) ==> (r.0 matches HealthState::Done {
                    code,
                    message,
                } && code == 200 && message@ == v@) && r.1 is Finish)
                &&& (value is None ==> (r.0 matches HealthState::Probing { idx } && idx == 0) && (
                r.1 matches HealthAction::Probe { target } && target == spec_probes(scope)[0]))
            })
            &&& (ev is CacheUnavailable ==> (r.0 matches HealthState::Probing { idx } && idx == 0)
                && (r.1 matches HealthAction::Probe { target } && target == spec_probes(
                scope,
            )[0]))
            &&& !(ev is CacheValue || ev is CacheUnavailable) ==> (r.0 matches HealthState::Done {
                code,
                message,
            } && code == 500) && r.1 is Finish
        },
        s matches HealthState::Probing { idx } ==> {
            &&& (ev matches HealthEvent::ProbeDone { ok, error } ==> {
                &&& (ok && idx < spec_probes(scope).len() && idx + 1 < spec_probes(scope).len())
                    ==> (r.0 matches HealthState::Probing { idx: i2 } && i2 == idx + 1) && (r.1
                    matches HealthAction::Probe { target } && target == spec_probes(scope)[idx + 1])
                &&& (ok && idx + 1 >= spec_probes(scope).len()) ==> r.0 is Storing && (r.1
                    matches HealthAction::SetCache { key, value, ttl_seconds } && key@
                    == "health_check_status"@ && value@ == scope.spec_success_message()
                    && ttl_seconds == HEALTH_TTL_SECONDS)
                &&& (!ok && idx < spec_probes(scope).len()) ==> (r.0 matches HealthState::Done {
                    code,
                    message,
                } && code == 500 && message@ == spec_probes(scope)[idx as int].spec_failure_prefix()
                    + error@) && r.1 is Finish
                &&& (!ok && idx >= spec_probes(scope).len()) ==> (r.0 matches HealthState::Done {
                    code,
                    message,
                } && code == 500) && r.1 is Finish
            })
            &&& !(ev is ProbeDone) ==> (r.0 matches HealthState::Done { code, message } && code
                == 500) && r.1 is Finish
        },
        s is Storing ==> {
            &&& (ev is CacheStored ==> (r.0 matches HealthState::Done { code, message } && code
                == 200 && message@ == scope.spec_success_message()) && r.1 is Finish)
            &&& !(ev is CacheStored) ==> (r.0 matches HealthState::Done { code, message } && code
                == 500) && r.1 is Finish
        },
        s matches HealthState::Done { code, message } ==> (r.0 matches HealthState::Done {
            code: c2,
            message: m2,
        } && c2 == code && m2@ == message@) && r.1 is Finish,
{
    match s {
        HealthState::CheckingCache => {
            match ev {
                HealthEvent::CacheValue { value } => {
                    match value {
                        Option::Some(v) => (
                            HealthState::Done { code: 200, message: v },
                            HealthAction::Finish,
                        ),
                        Option::None => (
                            HealthState::Probing { idx: 0 },
                            HealthAction::Probe { target: probe_at(scope, 0) },
                        ),
                    }
                },
                HealthEvent::CacheUnavailable => (
                    HealthState::Probing { idx: 0 },
                    HealthAction::Probe { target: probe_at(scope, 0) },
                ),
                _ => health_fail_step(),
            }
        },
        HealthState::Probing { idx } => {
            match ev {
                HealthEvent::ProbeDone { ok, error } => {
                    if !ok {
                        if idx < probe_count(scope) {
                            let target = probe_at(scope, idx);
                            let message = crate::text::concat_str(
                                target.failure_prefix(),
                                error.as_str(),
                            );
                            (HealthState::Done { code: 500, message }, HealthAction::Finish)
                        } else {
                            health_fail_step()
                        }
                    } else {
                        let next = idx.checked_add(1);
                        match next {
                            Option::Some(n) => {
                                if n < probe_count(scope) {
                                    (
                                        HealthState::Probing { idx: n },
                                        HealthAction::Probe { target: probe_at(scope, n) },
                                    )
                                } else {
                                    (
                                        HealthState::Storing,
                                        HealthAction::SetCache {
                                            key: health_cache_key(),
                                            value: scope.get_success_message(),
                                            ttl_seconds: HEALTH_TTL_SECONDS,
                                        },
                                    )
                                }
                            },
                            Option::None => (
                                HealthState::Storing,
                                HealthAction::SetCache {
                                    key: health_cache_key(),
                                    value: scope.get_success_message(),
                                    ttl_seconds: HEALTH_TTL_SECONDS,
                                },
                            ),
                        }
                    }
                },
                _ => health_fail_step(),
            }
        },
        HealthState::Storing => {
            match ev {
                HealthEvent::CacheStored { ok: _ } => (
                    HealthState::Done { code: 200, message: scope.get_success_message() },
                    HealthAction::Finish,
                ),
                _ => health_fail_step(),
            }
        },
        HealthState::Done { code, message } => (
            HealthState::Done { code, message },
            HealthAction::Finish,
        ),
    }
}

fn health_fail_step() -> (r: (HealthState, HealthAction))
    ensures
        r.0 matches HealthState::Done { code, message } && code == 500,
        r.1 is Finish,
{
    (
        HealthState::Done { code: 500, message: "unexpected health-check event".to_owned() },
        HealthAction::Finish,
    )
}

/// Runs the scope's probes from position `i` on, at the specification
/// level: `results[k]` carries the error text of probe `k` when it fails.
/// Yields the status code, the message, and whether the success message
/// was stored in the cache.
pub open spec fn spec_run_probes(
    scope: HealthCheckType,
    results: Seq<Option<Seq<char>>>,
    i: int,
) -> (u16, Seq<char>, bool)
    decreases spec_probes(scope).len() - i,
{
    if i < 0 || i >= spec_probes(scope).len() || i >= results.len() {
        (200, scope.spec_success_message(), true)
    } else {
        match results[i] {
            Option::Some(err) => (500, spec_probes(scope)[i].spec_failure_prefix() + err, false),
            Option::None => spec_run_probes(scope, results, i + 1),
        }
    }
}

/// How a whole health check ends, at the specification level: a memoized
/// status is returned verbatim and nothing is stored; otherwise the
/// scope's probes run in order, the first failure is returned uncached,
/// and only a full success is memoized.
pub open spec fn spec_health(
    scope: HealthCheckType,
    cached: Option<Seq<char>>,
    results: Seq<Option<Seq<char>>>,
) -> (u16, Seq<char>, bool) {
    match cached {
        Option::Some(v) => (200, v, false),
        Option::None => spec_run_probes(scope, results, 0),
    }
}

proof fn lemma_run_probes_policy(scope: HealthCheckType, results: Seq<Option<Seq<char>>>, i: int)
    ensures
        spec_run_probes(scope, results, i).2 ==> spec_run_probes(scope, results, i).0 == 200
            && spec_run_probes(scope, results, i).1 == scope.spec_success_message(),
        spec_run_probes(scope, results, i).0 == 500 ==> !spec_run_probes(scope, results, i).2,
    decreases spec_probes(scope).len() - i,
{
    if 0 <= i < spec_probes(scope).len() && i < results.len() && results[i] is None {
        lemma_run_probes_policy(scope, results, i + 1);
    }
}

/// The health cache never memoizes a failure.  Whatever the cache held and
/// however the probes answer: when the check stores anything, it stores
/// the scope's success message and reports it with success status; and a
/// check that reports a failure has stored nothing.
pub proof fn lemma_health_failure_never_cached(
    scope: HealthCheckType,
    cached: Option<Seq<char>>,
    results: Seq<Option<Seq<char>>>,
)
    ensures
        spec_health(scope, cached, results).2 ==> spec_health(scope, cached, results).0 == 200
            && spec_health(scope, cached, results).1 == scope.spec_success_message(),
        spec_health(scope, cached, results).0 == 500 ==> !spec_health(scope, cached, results).2,
{
    lemma_run_probes_policy(scope, results, 0);
}

} // verus!
