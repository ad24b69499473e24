//! Service registration surface: the identifiers the platform wires the
//! service up with, and the dispatch of raw transactions to their decoders.

use vstd::prelude::*;

use crate::storage::{StorageState, KEY_LEN};
use crate::tx::{tx_parsed, TxCreateTimestamp, SIG_LEN};
use crate::{SERVICE_ID, TX_CREATE_TIMESTAMP_ID};

verus! {

/// A transaction as the platform delivers it before dispatch: the declared
/// message type and the raw payload bytes.
pub struct RawTransaction {
    pub message_type: u16,
    pub payload: Vec<u8>,
}

/// Decoding failures when dispatching a raw transaction.
#[derive(Debug)]
pub enum EncodingError {
    /// The declared message type is none of this service's.
    IncorrectMessageType { message_type: u16 },
    /// The payload is shorter than the transaction's fixed-length fields.
    MalformedPayload,
}

/// The timestamping service as registered with the platform.
pub struct TimestampService;

impl TimestampService {
    /// Identifier under which the platform registers this service.
    pub fn service_id(&self) -> (r: u16)
        ensures
            r == SERVICE_ID,
    {
        SERVICE_ID
    }

    /// Name under which the service's tables are namespaced.
    pub fn service_name(&self) -> (r: &'static str)
        ensures
            r@ == "timestamp_service"@,
    {
        "timestamp_service"
    }

    /// This service contributes no state hashes of its own to the
    /// platform's state commitment.
    pub fn state_hash(&self, _snapshot: &StorageState) -> (r: Vec<Vec<u8>>)
        ensures
            r@.len() == 0,
    {
        Vec::new()
    }

    /// Dispatches a raw transaction: the create-timestamp type decodes
    /// through the envelope parser, any other type is refused as is.
    pub fn tx_from_raw(&self, raw: &RawTransaction) -> (r: Result<
        TxCreateTimestamp,
        EncodingError,
    >)
        ensures
            match r {
                Ok(tx) => {
                    &&& raw.message_type == TX_CREATE_TIMESTAMP_ID
                    &&& raw.payload@.len() >= KEY_LEN + SIG_LEN
                    &&& tx@ == tx_parsed(raw.payload@)
                    &&& tx@.wf()
                },
                Err(EncodingError::IncorrectMessageType { message_type }) => {
                    &&& message_type == raw.message_type
                    &&& raw.message_type != TX_CREATE_TIMESTAMP_ID
                },
                Err(EncodingError::MalformedPayload) => {
                    &&& raw.message_type == TX_CREATE_TIMESTAMP_ID
                    &&& raw.payload@.len() < KEY_LEN + SIG_LEN
                },
            },
    {
        if raw.message_type != TX_CREATE_TIMESTAMP_ID {
            return Err(EncodingError::IncorrectMessageType { message_type: raw.message_type });
        }
        match TxCreateTimestamp::parse(&raw.payload) {
            Some(tx) => Ok(tx),
            None => Err(EncodingError::MalformedPayload),
        }
    }
}

} // verus!
