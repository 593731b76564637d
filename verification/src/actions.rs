//! Menu actions for containers and ledgers.
//!
//! Each enum maps between a fixed list of menu labels and its variants.

use vstd::prelude::*;

verus! {

/// Available actions when a container is running
#[derive(Debug)]
pub enum RunningContainerAction {
    ViewStats,
    ViewLogs,
    ListLedgers,
    Stop,
    StopAndDestroy,
    Exit,
}

impl RunningContainerAction {
    /// Get list of action variants as strings
    pub fn variants() -> (r: Vec<&'static str>)
        ensures
            r@.len() == 6,
            r@[0]@ == "View Container Stats"@,
            r@[1]@ == "View Container Logs"@,
            r@[2]@ == "List Ledgers"@,
            r@[3]@ == "Stop Container"@,
            r@[4]@ == "Stop and Destroy Container"@,
            r@[5]@ == "Exit Flocker"@,
    {
        let mut v: Vec<&'static str> = Vec::new();
        v.push("View Container Stats");
        v.push("View Container Logs");
        v.push("List Ledgers");
        v.push("Stop Container");
        v.push("Stop and Destroy Container");
        v.push("Exit Flocker");
        v
    }

    /// Convert a selection index to an action
    pub fn from_index(index: usize) -> (r: Option<Self>)
        ensures
            r == match index {
                0usize => Some(RunningContainerAction::ViewStats),
                1usize => Some(RunningContainerAction::ViewLogs),
                2usize => Some(RunningContainerAction::ListLedgers),
                3usize => Some(RunningContainerAction::Stop),
                4usize => Some(RunningContainerAction::StopAndDestroy),
                5usize => Some(RunningContainerAction::Exit),
                _ => None::<RunningContainerAction>,
            },
    {
        match index {
            0 => Some(Self::ViewStats),
            1 => Some(Self::ViewLogs),
            2 => Some(Self::ListLedgers),
            3 => Some(Self::Stop),
            4 => Some(Self::StopAndDestroy),
            5 => Some(Self::Exit),
            _ => None,
        }
    }
}

/// Available actions when viewing a ledger
#[derive(Debug)]
pub enum LedgerAction {
    ViewDetails,
    Delete,
    Return,
}

impl LedgerAction {
    /// Get list of action variants as strings
    pub fn variants() -> (r: Vec<&'static str>)
        ensures
            r@.len() == 3,
            r@[0]@ == "See More Details"@,
            r@[1]@ == "Delete Ledger"@,
            r@[2]@ == "Return to Ledger List"@,
    {
        let mut v: Vec<&'static str> = Vec::new();
        v.push("See More Details");
        v.push("Delete Ledger");
        v.push("Return to Ledger List");
        v
    }

    /// Convert a selection index to an action
    pub fn from_index(index: usize) -> (r: Option<Self>)
        ensures
            r == match index {
                0usize => Some(LedgerAction::ViewDetails),
                1usize => Some(LedgerAction::Delete),
                2usize => Some(LedgerAction::Return),
                _ => None::<LedgerAction>,
            },
    {
        match index {
            0 => Some(Self::ViewDetails),
            1 => Some(Self::Delete),
            2 => Some(Self::Return),
            _ => None,
        }
    }
}

} // verus!
