//! Package of all the robot players
pub use crate::evaluation::async_wrapper::BlockingTaskWrapper;
pub use crate::evaluation::min_max::MinMaxPolicy;
pub use crate::evaluation::min_max_cached::MinMaxPolicyCached;
pub use crate::evaluation::random_ai::RandomPolicy;
pub use crate::evaluation::threaded_wrapper::ThreadedPolicy;
