//! Records of committed fungible-token changes, in the NEP-297 event shape.
use vstd::prelude::*;

verus! {

pub const FT_STANDARD_NAME: &'static str = "nep141";

pub const FT_METADATA_SPEC: &'static str = "1.0.0";

#[derive(Debug)]
pub struct FtMintLog {
    pub owner_id: String,
    pub amount: u128,
    pub memo: Option<String>,
}

#[derive(Debug)]
pub struct FtTransferLog {
    pub old_owner_id: String,
    pub new_owner_id: String,
    pub amount: u128,
    pub memo: Option<String>,
}

#[derive(Debug)]
pub struct FtBurnLog {
    pub owner_id: String,
    pub amount: u128,
    pub memo: Option<String>,
}

#[derive(Debug)]
pub enum EventLogVariant {
    FtMint(FtMintLog),
    FtTransfer(FtTransferLog),
    FtBurn(FtBurnLog),
}

/// An event as it is written to the log: the standard, its version, and the record.
#[derive(Debug)]
pub struct EventLog {
    pub standard: String,
    pub version: String,
    pub event: EventLogVariant,
}

impl EventLog {
    /// Wraps a record with this contract's standard name and version.
    pub fn new(event: EventLogVariant) -> (r: EventLog)
        ensures
            r.standard@ == FT_STANDARD_NAME@,
            r.version@ == FT_METADATA_SPEC@,
            r.event == event,
    {
        EventLog {
            standard: FT_STANDARD_NAME.to_owned(),
            version: FT_METADATA_SPEC.to_owned(),
            event,
        }
    }
}

impl FtMintLog {
    pub fn into_event(self) -> (r: EventLog)
        ensures
            r.standard@ == FT_STANDARD_NAME@,
            r.version@ == FT_METADATA_SPEC@,
            r.event == EventLogVariant::FtMint(self),
    {
        EventLog::new(EventLogVariant::FtMint(self))
    }
}

impl FtTransferLog {
    pub fn into_event(self) -> (r: EventLog)
        ensures
            r.standard@ == FT_STANDARD_NAME@,
            r.version@ == FT_METADATA_SPEC@,
            r.event == EventLogVariant::FtTransfer(self),
    {
        EventLog::new(EventLogVariant::FtTransfer(self))
    }
}

impl FtBurnLog {
    pub fn into_event(self) -> (r: EventLog)
        ensures
            r.standard@ == FT_STANDARD_NAME@,
            r.version@ == FT_METADATA_SPEC@,
            r.event == EventLogVariant::FtBurn(self),
    {
        EventLog::new(EventLogVariant::FtBurn(self))
    }
}

} // verus!
