//! A point-to-point encrypted file exchange: a sender encrypts a file and
//! serves it under an identifier derived from its contents; a receiver
//! fetches it by that identifier, or asks for the latest shared file.
//!
//! This library holds the rules of the exchange, verified with Verus: how
//! contents are fingerprinted, how records are kept and found, what each
//! request is answered with, and how one file comes into the catalog.
//! Reading files, running the encryption tool and speaking HTTP are left to
//! the program around it.

pub mod advertise;
pub mod catalog;
pub mod encryption;
pub mod error;
pub mod fingerprint;
pub mod ingest;
pub mod naming;
pub mod record;
pub mod retrieval;
pub mod text;
