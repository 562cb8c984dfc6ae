//! Performance and integrity testing of byte-oriented serial links.
//!
//! The library holds the verified core: the counting packet protocol, the
//! transmit and receive state machines, the byte-rate limiter, rate
//! measurement and statistics. Time is handed in by the caller as instants of
//! a monotonic clock, so every decision here is a function of its arguments.

pub mod counter;
pub mod counting;
pub mod limiter;
pub mod loopback;
pub mod measure;
pub mod outcome;
pub mod packet;
pub mod rate;
pub mod rx;
pub mod statistics;
pub mod time;
pub mod tx;

pub use counter::Counter;
pub use counting::Counting;
pub use limiter::{LimiterState, PollingByteRateLimiter, TimerError};
pub use loopback::Loopback;
pub use measure::{AverageByteRateMeasurer, IntervalByteRateMeasurer};
pub use outcome::{loop_outcome, Outcome};
pub use packet::{crc8, decode_packet, encode_bytes, encode_packet, PacketBuf, MAX_PACKET_SIZE};
pub use rate::ByteRate;
pub use rx::RxState;
pub use statistics::{
    AvgRateStatistics, CountingStatistics, DummyStatistics, IntervalRateStatistics, Statistics,
};
pub use time::{Duration, Instant};
pub use tx::TxState;
