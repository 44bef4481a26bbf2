//! iTIP scheduling: the per-instance snapshot of a calendar object that
//! drives the decisions on invitations and replies.

pub mod calendar;

pub mod email;

pub mod time;

pub mod instance;

pub mod participants;

pub mod entries;

pub mod snapshot;

pub mod invariants;

pub mod laws;
