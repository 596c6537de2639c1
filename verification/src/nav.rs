//! Closed enumerations for the dashboard's tabs and the diagnostic-log
//! categories, each cyclically ordered for keyboard navigation.

use vstd::prelude::*;

verus! {

/// Top-level dashboard tabs, in their fixed display order.
#[derive(Debug, Clone, Copy, PartialEq, Eq, Structural)]
pub enum ActiveTab {
    Cpu,
    Memory,
    Disk,
    Network,
    Docker,
    Logs,
}

/// Diagnostic-log categories.  `All` is a derived view: it is never populated
/// on its own but computed from the five real categories at read time.
#[derive(Debug, Clone, Copy, PartialEq, Eq, Hash, Structural)]
pub enum LogCategory {
    System,
    Kernel,
    Error,
    Docker,
    Boot,
    All,
}

impl LogCategory {
    /// Successor in the cyclic category order.
    pub open spec fn cyclic_next(self) -> LogCategory {
        match self {
            LogCategory::System => LogCategory::Kernel,
            LogCategory::Kernel => LogCategory::Error,
            LogCategory::Error => LogCategory::Docker,
            LogCategory::Docker => LogCategory::Boot,
            LogCategory::Boot => LogCategory::All,
            LogCategory::All => LogCategory::System,
        }
    }

    /// Predecessor in the cyclic category order.
    pub open spec fn cyclic_previous(self) -> LogCategory {
        match self {
            LogCategory::System => LogCategory::All,
            LogCategory::Kernel => LogCategory::System,
            LogCategory::Error => LogCategory::Kernel,
            LogCategory::Docker => LogCategory::Error,
            LogCategory::Boot => LogCategory::Docker,
            LogCategory::All => LogCategory::Boot,
        }
    }

    pub fn next(&self) -> (r: Self)
        ensures
            r == self.cyclic_next(),
    {
        match self {
            LogCategory::System => LogCategory::Kernel,
            LogCategory::Kernel => LogCategory::Error,
            LogCategory::Error => LogCategory::Docker,
            LogCategory::Docker => LogCategory::Boot,
            LogCategory::Boot => LogCategory::All,
            LogCategory::All => LogCategory::System,
        }
    }

    pub fn previous(&self) -> (r: Self)
        ensures
            r == self.cyclic_previous(),
    {
        match self {
            LogCategory::System => LogCategory::All,
            LogCategory::Kernel => LogCategory::System,
            LogCategory::Error => LogCategory::Kernel,
            LogCategory::Docker => LogCategory::Error,
            LogCategory::Boot => LogCategory::Docker,
            LogCategory::All => LogCategory::Boot,
        }
    }
}

impl ActiveTab {
    /// Successor in the cyclic tab order.
    pub open spec fn cyclic_next(self) -> ActiveTab {
        match self {
            ActiveTab::Cpu => ActiveTab::Memory,
            ActiveTab::Memory => ActiveTab::Disk,
            ActiveTab::Disk => ActiveTab::Network,
            ActiveTab::Network => ActiveTab::Docker,
            ActiveTab::Docker => ActiveTab::Logs,
            ActiveTab::Logs => ActiveTab::Cpu,
        }
    }

    /// Predecessor in the cyclic tab order.
    pub open spec fn cyclic_previous(self) -> ActiveTab {
        match self {
            ActiveTab::Cpu => ActiveTab::Logs,
            ActiveTab::Memory => ActiveTab::Cpu,
            ActiveTab::Disk => ActiveTab::Memory,
            ActiveTab::Network => ActiveTab::Disk,
            ActiveTab::Docker => ActiveTab::Network,
            ActiveTab::Logs => ActiveTab::Docker,
        }
    }

    pub fn next(&self) -> (r: Self)
        ensures
            r == self.cyclic_next(),
    {
        match self {
            ActiveTab::Cpu => ActiveTab::Memory,
            ActiveTab::Memory => ActiveTab::Disk,
            ActiveTab::Disk => ActiveTab::Network,
            ActiveTab::Network => ActiveTab::Docker,
            ActiveTab::Docker => ActiveTab::Logs,
            ActiveTab::Logs => ActiveTab::Cpu,
        }
    }

    pub fn previous(&self) -> (r: Self)
        ensures
            r == self.cyclic_previous(),
    {
        match self {
            ActiveTab::Cpu => ActiveTab::Logs,
            ActiveTab::Memory => ActiveTab::Cpu,
            ActiveTab::Disk => ActiveTab::Memory,
            ActiveTab::Network => ActiveTab::Disk,
            ActiveTab::Docker => ActiveTab::Network,
            ActiveTab::Logs => ActiveTab::Docker,
        }
    }
}

/// Stepping forward and then backward through the categories is the identity,
/// and so is the reverse.
pub proof fn lemma_log_category_cycle(c: LogCategory)
    ensures
        c.cyclic_next().cyclic_previous() == c,
        c.cyclic_previous().cyclic_next() == c,
{
}

/// Stepping forward and then backward through the tabs is the identity,
/// and so is the reverse.
pub proof fn lemma_active_tab_cycle(t: ActiveTab)
    ensures
        t.cyclic_next().cyclic_previous() == t,
        t.cyclic_previous().cyclic_next() == t,
{
}

} // verus!
