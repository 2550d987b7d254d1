//! A privileged session broker for graphical compositors on BSD systems.
//!
//! The broker serves an unprivileged child over a seqpacket socket: it opens
//! input and DRM device nodes for it, takes a virtual terminal, and turns the
//! kernel's VT switch signals into activation and deactivation of the
//! session. This library holds the wire protocol and every decision of the
//! broker, each with its contract; the system calls are made by the caller.

pub mod broker;
pub mod bytes;
pub mod priority;
pub mod protocol;
pub mod vt;
