//! Badge generation for test results.

use vstd::prelude::*;

use crate::validation::{push_nat_str, spec_nat_str};

verus! {

/// The badge color a pass rate earns: bright green for a full pass, yellow
/// from half, red below, and light grey when nothing ran.
pub open spec fn spec_color(passed: int, total: int) -> Seq<char> {
    if total == 0 {
        "lightgrey"@
    } else if passed >= total {
        "brightgreen"@
    } else if 2 * passed >= total {
        "yellow"@
    } else {
        "red"@
    }
}

/// Determines badge color based on pass rate.
pub fn determine_color(passed: usize, total: usize) -> (r: String)
    ensures
        r@ == spec_color(passed as int, total as int),
{
    if total == 0 {
        "lightgrey".to_owned()
    } else if passed >= total {
        "brightgreen".to_owned()
    } else if passed >= total / 2 + total % 2 {
        proof {
            assert(2 * (passed as int) >= total as int);
        }
        "yellow".to_owned()
    } else {
        proof {
            assert(!(2 * (passed as int) >= total as int));
        }
        "red".to_owned()
    }
}

/// A status badge for a test run, in an endpoint-style shape.
#[derive(Debug, Clone, PartialEq, Eq)]
pub struct Badge {
    /// Schema version (always `1`).
    pub schema_version: u8,
    /// Badge label (left side).
    pub label: String,
    /// Badge message (right side).
    pub message: String,
    /// Badge color.
    pub color: String,
}

impl Badge {
    /// Creates a new badge from test results.
    ///
    /// The message reads `{passed}/{total} passed`, and the color reflects
    /// the pass rate.
    pub fn from_results(label: String, passed: usize, total: usize) -> (r: Badge)
        ensures
            r.schema_version == 1,
            r.label@ == label@,
            r.message@ == spec_nat_str(passed as int) + "/"@ + spec_nat_str(total as int)
                + " passed"@,
            r.color@ == spec_color(passed as int, total as int),
    {
        let color = determine_color(passed, total);
        let mut message = String::new();
        push_nat_str(&mut message, passed as u64);
        message.append("/");
        push_nat_str(&mut message, total as u64);
        message.append(" passed");
        proof {
            assert(message@ =~= spec_nat_str(passed as int) + "/"@ + spec_nat_str(total as int)
                + " passed"@);
        }
        Badge { schema_version: 1, label, message, color }
    }

    /// The badge's schema version.
    pub fn schema_version(&self) -> (r: u8)
        ensures
            r == self.schema_version,
    {
        self.schema_version
    }

    /// The badge's label.
    pub fn label(&self) -> (r: &String)
        ensures
            r == &self.label,
    {
        &self.label
    }

    /// The badge's message.
    pub fn message(&self) -> (r: &String)
        ensures
            r == &self.message,
    {
        &self.message
    }

    /// The badge's color.
    pub fn color(&self) -> (r: &String)
        ensures
            r == &self.color,
    {
        &self.color
    }
}

} // verus!
