//! A small tally service core: two shared counters ("good" and "evil")
//! that callers increment and read, a JSON snapshot codec for the wire
//! shape `{"good":N,"evil":N}`, and a per-connection live-update stream
//! session that emits one snapshot event per timer tick until disconnect.

pub mod codec;
pub mod handlers;
pub mod session;
pub mod state;
