//! Ordered parallel directory traversal: the scheduling core.
//!
//! The library holds the logic of the scheduler: reorder keys and their
//! order, the per-worker ordered set of pending post-processing batches and
//! the decisions a worker takes while pumping it, the hand-off that splices a
//! peer's subtree into the order chain, the state of a dependency node, the
//! depth-first walk of a directory task, and the path, listing and option
//! logic around directory reading. Threads, locks and system calls are driven
//! by the program around it, which feeds the library what they return.

mod key_order;

pub mod key;
pub mod traverse;
pub mod options;
pub mod error;
pub mod dir;
pub mod events;
pub mod walk;

