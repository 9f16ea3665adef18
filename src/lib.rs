//! A hybrid read-write lock: parking_lot's blocking `RwLock` with a version
//! counter, so that readers may run without the lock and validate afterwards.
pub mod lock;
pub mod protocol;

pub use lock::{HybridLock, HybridRwLockReadGuard, HybridRwLockWriteGuard};
