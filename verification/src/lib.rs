//! A miniature state-transition engine in the style of a blockchain runtime.
//!
//! A runtime holds key-value state, accepts calls from named senders and applies them to
//! that state. Its functions carry contracts stated over a mathematical model of the
//! state and are proved against them; only the calls into the SCALE codec and into the
//! checked arithmetic of `num` are taken on trust, each behind one small wrapper.

pub mod a_honor_code;
pub mod get;
pub mod l_mini_substrate;
pub mod n_macros_2;
