//! Credential records of a Password Safe store: assembling decrypted fields
//! into records, finding the record a search term means, and projecting a
//! record for display with or without its secrets.

pub mod assemble;
pub mod field;
pub mod ident;
pub mod projection;
pub mod query;
pub mod record;
pub mod text;
