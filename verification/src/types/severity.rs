//! How serious a finding is.

use vstd::prelude::*;
use crate::text::{lowercase, str_eq, to_lowercase};

verus! {

/// The severity of a finding. `Error` ranks above `Warning`, which ranks above
/// `Info`.
#[derive(Debug, Clone, Copy, PartialEq, Eq, Structural)]
pub enum RuleSeverity {
    Error,
    Warning,
    Info,
}

impl RuleSeverity {
    /// The lowercase name of a severity.
    pub open spec fn name(self) -> Seq<char> {
        match self {
            RuleSeverity::Error => "error"@,
            RuleSeverity::Warning => "warning"@,
            RuleSeverity::Info => "info"@,
        }
    }

    /// The severity that an exact lowercase name stands for.
    pub open spec fn named(s: Seq<char>) -> Option<RuleSeverity> {
        if s == "error"@ {
            Some(RuleSeverity::Error)
        } else if s == "warning"@ {
            Some(RuleSeverity::Warning)
        } else if s == "info"@ {
            Some(RuleSeverity::Info)
        } else {
            None
        }
    }

    /// The rank of a severity: the higher, the more severe.
    pub open spec fn rank(self) -> int {
        match self {
            RuleSeverity::Error => 3,
            RuleSeverity::Warning => 2,
            RuleSeverity::Info => 1,
        }
    }

    /// The lowercase name of the severity.
    pub fn as_str(&self) -> (s: &'static str)
        ensures
            s@ == self.name(),
    {
        match self {
            RuleSeverity::Error => "error",
            RuleSeverity::Warning => "warning",
            RuleSeverity::Info => "info",
        }
    }

    /// Reads a severity from its exact lowercase name.
    pub fn from_lowercase(s: &str) -> (r: Option<RuleSeverity>)
        ensures
            r == RuleSeverity::named(s@),
    {
        if str_eq(s, "error") {
            Some(RuleSeverity::Error)
        } else if str_eq(s, "warning") {
            Some(RuleSeverity::Warning)
        } else if str_eq(s, "info") {
            Some(RuleSeverity::Info)
        } else {
            None
        }
    }

    /// Reads a severity from its name, whatever the case of its letters.
    pub fn from_str(s: &str) -> (r: Option<RuleSeverity>)
        ensures
            r == RuleSeverity::named(lowercase(s@)),
    {
        let lower = to_lowercase(s);
        RuleSeverity::from_lowercase(lower.as_str())
    }

    /// The rank of the severity: 3 for an error, 2 for a warning, 1 for an info.
    pub fn priority(&self) -> (p: u8)
        ensures
            p == self.rank(),
    {
        match self {
            RuleSeverity::Error => 3,
            RuleSeverity::Warning => 2,
            RuleSeverity::Info => 1,
        }
    }

    /// The name of the severity as an owned string.
    pub fn to_string(&self) -> (s: String)
        ensures
            s@ == self.name(),
    {
        self.as_str().to_owned()
    }
}

/// Every severity is read back from its own name.
pub proof fn lemma_severity_name_round_trip(severity: RuleSeverity)
    ensures
        RuleSeverity::named(severity.name()) == Some(severity),
{
    reveal_strlit("error");
    reveal_strlit("warning");
    reveal_strlit("info");
    assert("error"@.len() == 5);
    assert("warning"@.len() == 7);
    assert("info"@.len() == 4);
}

/// Two severities with the same rank are the same severity, and every rank
/// lies between 1 and 3.
pub proof fn lemma_severity_rank_orders(a: RuleSeverity, b: RuleSeverity)
    ensures
        1 <= a.rank() <= 3,
        a.rank() == b.rank() ==> a == b,
        a.rank() > b.rank() <==> (a == RuleSeverity::Error && b != RuleSeverity::Error) || (a
            == RuleSeverity::Warning && b == RuleSeverity::Info),
{
}

} // verus!
