use vstd::prelude::*;

verus! {

/// One request to the budget manager. Amounts are counts of cents.
#[derive(Debug, Clone, PartialEq, Eq)]
#[allow(inconsistent_fields)]
pub enum Command {
    /// Set the current funds of a budget.
    Current { id: u32, amount: i64, description: Option<String> },
    /// Show the audit history, of one budget or of all.
    History { id: Option<u32>, limit: Option<u32> },
    /// Set the initial funds of a budget.
    Initial { id: u32, amount: i64, description: Option<String> },
    /// Add to the current funds of a budget.
    Increase { id: u32, amount: i64, description: Option<String> },
    /// List all budgets.
    List,
    /// Create a budget.
    New { name: String, funds: i64 },
    /// Take from the current funds of a budget.
    Reduce { id: u32, amount: i64, description: Option<String> },
    /// Delete a budget.
    Remove { id: u32 },
    /// Rename a budget.
    Rename { id: u32, name: String },
    /// Bring the current funds of a budget back to its initial funds.
    Reset { id: u32, description: Option<String> },
}

impl Command {
    /// The label that the audit trail records for this command.
    pub open spec fn label(&self) -> Seq<char> {
        match self {
            Command::Current { .. } => "Set current funds"@,
            Command::Increase { .. } => "Increase funds"@,
            Command::Initial { .. } => "Set initial funds"@,
            Command::Reduce { .. } => "Reduce funds"@,
            Command::Reset { .. } => "Reset funds"@,
            _ => ""@,
        }
    }

    pub fn value(&self) -> (r: &'static str)
        ensures
            r@ == self.label(),
    {
        match self {
            Command::Current { .. } => "Set current funds",
            Command::Increase { .. } => "Increase funds",
            Command::Initial { .. } => "Set initial funds",
            Command::Reduce { .. } => "Reduce funds",
            Command::Reset { .. } => "Reset funds",
            _ => "",
        }
    }
}

} // verus!
