//! Autonomous-system records, as loaded from an AS-number table.
//!
//! Records compare by AS number alone: the name and country code are
//! descriptive and do not take part in equality or ordering.

use vstd::prelude::*;

verus! {

/// One autonomous system: its number, an optional country code, and its
/// registered name.
#[derive(Debug)]
pub struct AutonomousSystem {
    pub num: u32,
    pub country_code: Option<String>,
    pub name: String,
}

impl PartialEq for AutonomousSystem {
    /// Equality is by AS number alone.
    fn eq(&self, other: &AutonomousSystem) -> bool {
        self.num == other.num
    }
}

impl vstd::std_specs::cmp::PartialEqSpecImpl for AutonomousSystem {
    open spec fn obeys_eq_spec() -> bool {
        true
    }

    open spec fn eq_spec(&self, other: &AutonomousSystem) -> bool {
        self.num == other.num
    }
}

impl Eq for AutonomousSystem {

}

impl PartialOrd for AutonomousSystem {
    /// Ordering is by AS number alone.
    fn partial_cmp(&self, other: &AutonomousSystem) -> Option<core::cmp::Ordering> {
        if self.num < other.num {
            Some(core::cmp::Ordering::Less)
        } else if self.num == other.num {
            Some(core::cmp::Ordering::Equal)
        } else {
            Some(core::cmp::Ordering::Greater)
        }
    }
}

impl vstd::std_specs::cmp::PartialOrdSpecImpl for AutonomousSystem {
    open spec fn obeys_partial_cmp_spec() -> bool {
        true
    }

    open spec fn partial_cmp_spec(&self, other: &AutonomousSystem) -> Option<core::cmp::Ordering> {
        if self.num < other.num {
            Some(core::cmp::Ordering::Less)
        } else if self.num == other.num {
            Some(core::cmp::Ordering::Equal)
        } else {
            Some(core::cmp::Ordering::Greater)
        }
    }
}

/// The address was no literal IP, so only a DNS lookup could resolve it.
#[derive(Debug)]
pub struct RequiresDNSLookup;

} // verus!
