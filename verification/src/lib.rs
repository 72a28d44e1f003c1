//! A multi-signature authorization wallet.
//!
//! A set of owner addresses jointly controls a wallet: an outbound
//! transaction, or a change to the owner set or quorum, takes effect only
//! once the required number of distinct owners have confirmed it.  This
//! crate holds the wallet state machine alone; the message transport that
//! delivers requests and carries the outbound call of an executed
//! transaction is the embedding program's concern.

pub mod address;
pub mod errors;
pub mod wallet;
