//! Posts scheduled messages at precise target times.
//!
//! The library holds the request-signing protocol (OAuth 1.0a with
//! HMAC-SHA1), the construction of the three signed requests of the posting
//! client, the clock embedded in remote identifiers, and the
//! latency-calibrated scheduler as a state machine. Sending requests and
//! sleeping are left to the caller, which performs each action the scheduler
//! asks for and reports the outcome back.

pub mod text;
pub mod percent;
pub mod digest;
pub mod params;
pub mod signer;
pub mod clock;
pub mod client;
pub mod scheduler;
