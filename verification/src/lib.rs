//! What an SSH session decides: how it gets to its target, how it moves data between its channels
//! and their users, and how it answers requests.
//!
//! Nothing here reads, writes or waits. Each piece of work is a task: starting it gives the first
//! action, and handing in how an action came out gives the next one. A driver performs the actions.
//! What each step does is stated over the views of the values, and the laws beside it say what
//! holds over many steps.
//!
//! - [`route`] runs a session over its jump hosts, [`hop`] connects to one host and [`host`] makes
//!   the transport there; [`bridge`] carries a connection through a jump host.
//! - [`request_loop`] serves a connected session: [`tick`] moves data, [`dispatch`] answers
//!   requests, [`exec`] runs commands and [`agent`] connects to the identity agent.
//! - [`session`] holds the state, [`requests`] and [`event`] what goes in and out, [`resources`]
//!   what is only passed along.
//! - [`config`], [`failure`], [`iobuf`] and [`text`] hold what the others share.

use vstd::prelude::*;

pub mod agent;
pub mod bridge;
pub mod config;
pub mod dispatch;
pub mod event;
pub mod exec;
pub mod failure;
pub mod hop;
pub mod host;
pub mod iobuf;
pub mod request_loop;
pub mod requests;
pub mod resources;
pub mod route;
pub mod session;
pub mod text;
pub mod tick;

verus! {

} // verus!
