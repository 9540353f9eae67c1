//! A single-process, cooperative async I/O runtime core.
//!
//! The [`reactor::Reactor`] owns the kernel-facing correlation state: it
//! assigns event ids to in-flight operations and turns kernel completion and
//! readiness events into scheduler wake-ups and retrievable results. The
//! [`task::Executor`] is a single-threaded cooperative scheduler over an
//! arena of tasks whose wake handles are their arena ids. The operation
//! futures in [`ops`] encode the two-phase "register intent, then observe
//! completion" protocol, and [`tcp::AsyncTcpListener`] multiplexes a
//! listening descriptor and its accepted connections over one readiness
//! group. The global laws of the runtime are stated and proved in [`laws`].
//!
//! The kernel itself is an external collaborator: the embedding program
//! drains the reactor's submission and registration logs, performs them,
//! blocks on the kernel, and hands the resulting completion and readiness
//! events back to [`reactor::Reactor::wait`], whose returned wake-ups it
//! feeds to [`task::Executor::spawn_task`].

pub mod laws;
pub mod ops;
pub mod reactor;
pub mod task;
pub mod tcp;
