//! Printer swarm worker daemon logic: job decryption, the LPR hand-off
//! sequence, the DNS-over-HTTPS answer cache, and the worker's bookkeeping
//! rules, each stated as a contract and proved.
pub mod consts;
pub mod types;
pub mod text;
pub mod ip;
pub mod primitives;
pub mod crypto;
pub mod doh;
pub mod lpr;
pub mod job;
pub mod worker;
pub mod ident;
pub mod connect;
