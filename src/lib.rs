//! Recursive proof composition for a bridge's chain of trust: committee
//! extraction from witnessed chain state, epoch transitions that tie a
//! committee's commitment to the committee on chain, and the chain of epoch
//! proofs from genesis to the terminal statement about a message.
pub mod chain;
pub mod hash;
pub mod layout;
pub mod statements;
pub mod witness;
