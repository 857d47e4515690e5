//! Health checks: the outcome of each named check, and the health of the
//! whole that follows from them.

use vstd::prelude::*;
use crate::observability::admin::VERSION_TEXT;
use crate::storage::entry::{elapsed_secs, seconds_between, Clock};
use crate::text::{decimal, decimal_text};
use crate::text_map::TextMap;

verus! {

/// Health of a part or of the whole.
#[derive(Debug, Clone, Copy, PartialEq, Eq, Structural)]
pub enum HealthStatus {
    Healthy,
    Degraded,
    Unhealthy,
}

impl HealthStatus {
    /// The status as text.
    pub open spec fn text(self) -> Seq<char> {
        match self {
            HealthStatus::Healthy => "healthy"@,
            HealthStatus::Degraded => "degraded"@,
            HealthStatus::Unhealthy => "unhealthy"@,
        }
    }

    /// The status in lower case.
    pub fn as_str(self) -> (s: &'static str)
        ensures
            s@ == self.text(),
    {
        match self {
            HealthStatus::Healthy => "healthy",
            HealthStatus::Degraded => "degraded",
            HealthStatus::Unhealthy => "unhealthy",
        }
    }

    /// The worse of two statuses.
    pub open spec fn worse(self, other: HealthStatus) -> HealthStatus {
        if self == HealthStatus::Unhealthy || other == HealthStatus::Unhealthy {
            HealthStatus::Unhealthy
        } else if self == HealthStatus::Degraded || other == HealthStatus::Degraded {
            HealthStatus::Degraded
        } else {
            HealthStatus::Healthy
        }
    }
}

/// Outcome of one check.
#[derive(Debug, Clone)]
pub struct CheckResult {
    pub name: String,
    pub status: HealthStatus,
    pub message: Option<String>,
    /// How long the check took, in milliseconds.
    pub duration_ms: u64,
}

/// The outcome of a check as a value.
pub struct CheckModel {
    pub name: Seq<char>,
    pub status: HealthStatus,
    pub message: Option<Seq<char>>,
    pub duration_ms: u64,
}

impl View for CheckResult {
    type V = CheckModel;

    open spec fn view(&self) -> CheckModel {
        CheckModel {
            name: self.name@,
            status: self.status,
            message: match self.message {
                Some(m) => Some(m@),
                None => None,
            },
            duration_ms: self.duration_ms,
        }
    }
}

impl CheckModel {
    /// The outcome as a JSON object.
    pub open spec fn json(self) -> Seq<char> {
        "{\"name\":\""@ + self.name + "\",\"status\":\""@ + self.status.text()
            + "\",\"duration_ms\":"@ + decimal_text(self.duration_ms as nat) + (match self.message {
            Some(m) => ",\"message\":\""@ + m + "\""@,
            None => Seq::empty(),
        }) + "}"@
    }
}

impl CheckResult {
    /// A copy of this outcome.
    pub fn duplicate(&self) -> (c: CheckResult)
        ensures
            c@ == self@,
    {
        CheckResult {
            name: self.name.clone(),
            status: self.status,
            message: match &self.message {
                Some(m) => Some(m.clone()),
                None => None,
            },
            duration_ms: self.duration_ms,
        }
    }

    /// The outcome as a JSON object.
    pub fn to_json(&self) -> (s: String)
        ensures
            s@ == self@.json(),
    {
        let mut s = String::from_str("{\"name\":\"");
        s.append(self.name.as_str());
        s.append("\",\"status\":\"");
        s.append(self.status.as_str());
        s.append("\",\"duration_ms\":");
        let d = decimal(self.duration_ms);
        s.append(d.as_str());
        let ghost head = s@;
        match &self.message {
            Some(m) => {
                s.append(",\"message\":\"");
                s.append(m.as_str());
                s.append("\"");
                assert(s@ =~= head + (",\"message\":\""@ + m@ + "\""@));
            },
            None => {
                assert(s@ =~= head + Seq::<char>::empty());
            },
        }
        s.append("}");
        assert(s@ =~= self@.json());
        s
    }
}

/// The outcomes that a list holds.
pub open spec fn checks_view(checks: Seq<CheckResult>) -> Seq<CheckModel> {
    Seq::new(checks.len(), |i: int| checks[i]@)
}

/// The worst status among the first `n` outcomes, or healthy where there
/// is none.
pub open spec fn worst(checks: Seq<CheckModel>, n: int) -> HealthStatus
    decreases n,
{
    if n <= 0 {
        HealthStatus::Healthy
    } else {
        worst(checks, n - 1).worse(checks[n - 1].status)
    }
}

/// The JSON objects of the first `n` outcomes, with commas between them.
pub open spec fn joined_checks(checks: Seq<CheckModel>, n: int) -> Seq<char>
    decreases n,
{
    if n <= 0 {
        Seq::empty()
    } else if n == 1 {
        checks[0].json()
    } else {
        joined_checks(checks, n - 1) + ","@ + checks[n - 1].json()
    }
}

/// The health of the whole.
#[derive(Debug, Clone)]
pub struct SystemHealth {
    pub overall: HealthStatus,
    pub checks: Vec<CheckResult>,
    /// Seconds since this value was made.
    pub uptime_secs: u64,
    pub version: String,
}

impl SystemHealth {
    /// The outcomes of the checks.
    pub open spec fn outcomes(&self) -> Seq<CheckModel> {
        checks_view(self.checks@)
    }

    /// The health as a JSON object.
    pub open spec fn json(&self) -> Seq<char> {
        "{\"status\":\""@ + self.overall.text() + "\",\"uptime_secs\":"@ + decimal_text(
            self.uptime_secs as nat,
        ) + ",\"version\":\""@ + self.version@ + "\",\"checks\":["@ + joined_checks(
            self.outcomes(),
            self.outcomes().len() as int,
        ) + "]}"@
    }

    /// The health as a JSON object.
    pub fn to_json(&self) -> (s: String)
        ensures
            s@ == self.json(),
    {
        let mut s = String::from_str("{\"status\":\"");
        s.append(self.overall.as_str());
        s.append("\",\"uptime_secs\":");
        let up = decimal(self.uptime_secs);
        s.append(up.as_str());
        s.append(",\"version\":\"");
        s.append(self.version.as_str());
        s.append("\",\"checks\":[");
        let ghost head = s@;
        let mut i: usize = 0;
        while i < self.checks.len()
            invariant
                i <= self.checks@.len(),
                s@ == head + joined_checks(self.outcomes(), i as int),
            decreases self.checks@.len() - i,
        {
            if i > 0 {
                s.append(",");
            }
            let json = self.checks[i].to_json();
            s.append(json.as_str());
            proof {
                assert(self.outcomes()[i as int] == self.checks@[i as int]@);
                assert(s@ =~= head + joined_checks(self.outcomes(), i + 1));
            }
            i += 1;
        }
        s.append("]}");
        assert(s@ =~= self.json());
        s
    }
}

/// Health check manager: the latest outcome of each check, by name.
pub struct HealthCheck {
    checks: TextMap<CheckResult>,
    clock: Clock,
}

impl HealthCheck {
    /// The outcomes, by the name of their check.
    pub closed spec fn checks(&self) -> TextMap<CheckResult> {
        self.checks
    }

    /// The outcomes, in the order in which the checks were first
    /// registered.
    pub open spec fn outcomes(&self) -> Seq<CheckModel> {
        checks_view(self.checks().values())
    }

    /// The table of checks is well formed, and each outcome stands under
    /// its own name.
    pub open spec fn wf(&self) -> bool {
        &&& self.checks().wf()
        &&& forall|i: int|
            0 <= i < self.checks().keys().len() ==> (#[trigger] self.checks().values()[i]).name@
                == self.checks().keys()[i]
    }

    /// A manager without checks.
    pub fn new() -> (h: HealthCheck)
        ensures
            h.wf(),
            h.outcomes().len() == 0,
    {
        HealthCheck { checks: TextMap::new(), clock: Clock::new() }
    }

    /// Registers the outcome of a check, in the place of its earlier
    /// outcome.
    pub fn register(
        &mut self,
        name: &str,
        status: HealthStatus,
        message: Option<String>,
        duration_ms: u64,
    )
        requires
            old(self).wf(),
        ensures
            final(self).wf(),
            final(self).checks().has(name@),
            final(self).checks().value_of(name@)@ == (CheckModel {
                name: name@,
                status,
                message: match message {
                    Some(m) => Some(m@),
                    None => None,
                },
                duration_ms,
            }),
            final(self).outcomes().len() == old(self).outcomes().len()
                + if old(self).checks().has(name@) {
                0int
            } else {
                1int
            },
            forall|other: Seq<char>|
                other != name@ ==> final(self).checks().has(other) == old(self).checks().has(
                    other,
                ) && (old(self).checks().has(other) ==> final(self).checks().value_of(other)
                    == old(self).checks().value_of(other)),
    {
        let result = CheckResult { name: String::from_str(name), status, message, duration_ms };
        self.checks.insert(String::from_str(name), result);
    }

    /// The health of the whole at `now`: every outcome, and the worst
    /// status among them.
    pub fn check_at(&self, now: u64, started: u64) -> (r: SystemHealth)
        requires
            self.wf(),
        ensures
            r.outcomes() == self.outcomes(),
            r.overall == worst(self.outcomes(), self.outcomes().len() as int),
            r.uptime_secs == seconds_between(started, now),
            r.version@ == VERSION_TEXT@,
    {
        let mut results: Vec<CheckResult> = Vec::new();
        let mut overall = HealthStatus::Healthy;
        let n = self.checks.len();
        let mut i: usize = 0;
        while i < n
            invariant
                i <= n,
                self.wf(),
                n == self.checks().keys().len(),
                results@.len() == i,
                forall|j: int| 0 <= j < i ==> (#[trigger] results@[j])@ == self.outcomes()[j],
                overall == worst(self.outcomes(), i as int),
            decreases n - i,
        {
            let check = self.checks.value_at(i);
            assert(self.outcomes()[i as int] == check@);
            match check.status {
                HealthStatus::Unhealthy => {
                    overall = HealthStatus::Unhealthy;
                },
                HealthStatus::Degraded => {
                    if overall == HealthStatus::Healthy {
                        overall = HealthStatus::Degraded;
                    }
                },
                HealthStatus::Healthy => {},
            }
            results.push(check.duplicate());
            i += 1;
        }
        let r = SystemHealth {
            overall,
            checks: results,
            uptime_secs: elapsed_secs(started, now),
            version: String::from_str(VERSION_TEXT),
        };
        assert(r.outcomes() =~= self.outcomes());
        r
    }

    /// The health of the whole now.
    pub fn check(&self) -> (r: SystemHealth)
        requires
            self.wf(),
        ensures
            r.outcomes() == self.outcomes(),
            r.overall == worst(self.outcomes(), self.outcomes().len() as int),
            r.version@ == VERSION_TEXT@,
    {
        let now = self.clock.now();
        self.check_at(now, 0)
    }

    /// Whether the process lives: it does if it can answer.
    pub fn liveness(&self) -> (r: bool)
        ensures
            r,
    {
        true
    }

    /// Whether every check is healthy.
    pub fn readiness(&self) -> (r: bool)
        requires
            self.wf(),
        ensures
            r == (worst(self.outcomes(), self.outcomes().len() as int) == HealthStatus::Healthy),
    {
        self.check().overall == HealthStatus::Healthy
    }

    /// Whole seconds since this manager was made, as of the instant that
    /// its clock shows.
    pub fn uptime(&self) -> (secs: u64)
        ensures
            exists|now: u64| secs == #[trigger] seconds_between(0, now),
    {
        elapsed_secs(0, self.clock.now())
    }
}

impl Default for HealthCheck {
    fn default() -> (h: HealthCheck)
        ensures
            h.wf(),
            h.outcomes().len() == 0,
    {
        HealthCheck::new()
    }
}

} // verus!
