//! Command-line option values and what they map to in the calendar model.

use vstd::prelude::*;
use crate::event::EventClass;
use crate::profile::microsoft::MsBusyStatus;
use crate::query::SortKey;

verus! {

/// `--sort` value.
#[derive(Debug, Clone, Copy, PartialEq, Eq, Structural)]
pub enum SortField {
    Start,
    End,
    Summary,
}

impl SortField {
    pub fn to_sort_key(self) -> (r: SortKey)
        ensures
            r == match self {
                SortField::Start => SortKey::Start,
                SortField::End => SortKey::End,
                SortField::Summary => SortKey::Summary,
            },
    {
        match self {
            SortField::Start => SortKey::Start,
            SortField::End => SortKey::End,
            SortField::Summary => SortKey::Summary,
        }
    }
}

/// `--busystatus` value.
#[derive(Debug, Clone, Copy, PartialEq, Eq, Structural)]
pub enum CliBusyStatus {
    Free,
    Tentative,
    Busy,
    Oof,
    Working,
}

impl CliBusyStatus {
    pub fn to_busystatus(self) -> (r: MsBusyStatus)
        ensures
            r == match self {
                CliBusyStatus::Free => MsBusyStatus::Free,
                CliBusyStatus::Tentative => MsBusyStatus::Tentative,
                CliBusyStatus::Busy => MsBusyStatus::Busy,
                CliBusyStatus::Oof => MsBusyStatus::Oof,
                CliBusyStatus::Working => MsBusyStatus::WorkingElsewhere,
            },
    {
        match self {
            CliBusyStatus::Free => MsBusyStatus::Free,
            CliBusyStatus::Tentative => MsBusyStatus::Tentative,
            CliBusyStatus::Busy => MsBusyStatus::Busy,
            CliBusyStatus::Oof => MsBusyStatus::Oof,
            CliBusyStatus::Working => MsBusyStatus::WorkingElsewhere,
        }
    }
}

/// `--class` value.
#[derive(Debug, Clone, Copy, PartialEq, Eq, Structural)]
pub enum CliEventClass {
    Public,
    Private,
    Confidential,
}

impl CliEventClass {
    pub fn to_event_class(self) -> (r: EventClass)
        ensures
            r == match self {
                CliEventClass::Public => EventClass::Public,
                CliEventClass::Private => EventClass::Private,
                CliEventClass::Confidential => EventClass::Confidential,
            },
    {
        match self {
            CliEventClass::Public => EventClass::Public,
            CliEventClass::Private => EventClass::Private,
            CliEventClass::Confidential => EventClass::Confidential,
        }
    }
}

} // verus!
