//! Verified core of a serial-port monitor: the line-aware byte relay, the
//! texts it prints, and the parsing of its settings.
pub mod relay;
pub mod text;
pub mod clock;
pub mod baud;
pub mod port;
