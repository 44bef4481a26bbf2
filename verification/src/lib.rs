//! Verified groupware and mail-server logic.
//!
//! The heart of the crate is [`scheduling`]: the iTIP snapshot of an
//! iCalendar object, which tells for each instance of an event or task who
//! organizes it, who attends it and what it says. Around it stand the
//! settings of the groupware services ([`config`]), the timing rules of the
//! message queue ([`queue`]), the public suffix list ([`suffixlist`]) and the
//! decisions of a few handlers ([`sieve`], [`namespace`], [`dnsbl`]).
//!
//! Every executable function states what it returns and is proved to return
//! it. What other crates and the standard library compute is called through
//! a small number of declarations that say `Trusted` in their documentation;
//! nothing is proved of those.

pub mod text;

pub mod scheduling;

pub mod queue;

pub mod config;

pub mod suffixlist;

pub mod sieve;

pub mod namespace;

pub mod dnsbl;
