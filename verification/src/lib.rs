//! Buffering and flow control for a half-duplex serial audio relay.
//!
//! Three pumps run side by side, each paced by its own device. The receive
//! pump puts what the serial link delivers into a bounded channel, the
//! playback pump takes it out, decodes it and hands it on to be played, and
//! the transmit gate forwards captured microphone audio while it carries
//! signal. Nothing here reads a device or waits: each pump takes what a read
//! came back with and says what to do next, and the caller does it.

mod bytes;
pub mod channel;
pub mod channel_trace;
pub mod decode;
pub mod gate;
pub mod gate_trace;
pub mod playback;
pub mod receive;
