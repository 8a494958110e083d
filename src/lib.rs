//! Dispute arbitration: a lazily evaluated lifecycle for disputes over an
//! escrowed service, with evidence intake, jury voting and a guarded
//! release-and-confirm handshake with the custodian.
pub mod dispute;
pub mod mediator;
pub mod callback;
pub mod laws;
