use vstd::prelude::*;

verus! {

/// The initialization request: the label to record in the configuration.
#[derive(Clone, Debug, PartialEq)]
pub struct InitMsg {
    pub name: String,
}

/// The two transaction messages the module accepts.
#[derive(Clone, Debug, PartialEq)]
pub enum HandleMsg {
    /// Lock the single attached fund transfer under the sender's account.
    Lock {},
    /// Request a release of funds.  In the current logic this only emits
    /// log entries; it performs no state change.
    Unlock { amount: u128 },
}

/// The read-only queries the module answers.
#[derive(Clone, Debug, PartialEq)]
pub enum QueryMsg {
    Config {},
}

/// The answer to a configuration query: the stored label and the display
/// form of the owner's identity.
#[derive(Clone, Debug, PartialEq)]
pub struct ConfigResponse {
    pub name: String,
    pub owner: String,
}

/// One attached fund transfer: a denomination and an amount.
#[derive(Clone, Debug, PartialEq)]
pub struct Coin {
    pub denom: String,
    pub amount: u128,
}

/// What the transaction envelope tells the module about the message: the
/// sender's canonical identity and the attached fund transfers.
#[derive(Clone, Debug, PartialEq)]
pub struct MessageInfo {
    pub sender: Vec<u8>,
    pub sent_funds: Vec<Coin>,
}

/// The host-supplied envelope of one invocation.
#[derive(Clone, Debug, PartialEq)]
pub struct Env {
    pub message: MessageInfo,
}

/// One key-value attribute surfaced to the host's event log.
#[derive(Clone, Debug, PartialEq)]
pub struct LogEntry {
    pub key: String,
    pub value: LogValue,
}

/// A log attribute value, kept typed; the host renders it for display.
#[derive(Clone, Debug, PartialEq)]
pub enum LogValue {
    Text(String),
    Address(Vec<u8>),
    Amount(u128),
}

/// The response to initialization: no log entries are emitted.
#[derive(Clone, Debug, PartialEq)]
pub struct InitResponse {
    pub log: Vec<LogEntry>,
}

impl Default for InitResponse {
    fn default() -> (d: InitResponse)
        ensures
            d.log@ == Seq::<LogEntry>::empty(),
    {
        InitResponse { log: Vec::new() }
    }
}

/// The response to a transaction: the emitted log attributes and an
/// optional opaque payload (never set by the current handlers).
#[derive(Clone, Debug, PartialEq)]
pub struct HandleResponse {
    pub log: Vec<LogEntry>,
    pub data: Option<Vec<u8>>,
}

} // verus!
