pub mod clock;
pub mod gcra;
pub mod rate_limiter;

pub use clock::{Clock, SystemClock, TestClock};
pub use gcra::Gcra;
pub use rate_limiter::{RateLimiter, RateLimiterError};
