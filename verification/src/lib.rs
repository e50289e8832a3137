//! Paced TCP throughput and latency benchmarking: the pacing rule, the latency
//! aggregate, the length-prefixed wire format, and the bookkeeping of the
//! client and server sessions, each with a proved contract.

pub mod addr;
pub mod args;
pub mod client;
pub mod clock;
pub mod decoder;
pub mod latency;
pub mod pacer;
pub mod sender;
pub mod server;
pub mod stream;
pub mod wire;

pub use addr::normalize_addr;
pub use clock::now_millis;
pub use latency::Latency;
pub use pacer::Pacer;
