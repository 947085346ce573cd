//! Framing, buffering and recording logic for a camera that streams JPEG
//! frames over an unreliable byte transport.
//!
//! The library performs no input or output of its own. It parses and
//! checks packets (`protocol`, `crc`, `wire`), finds the next packet in a
//! damaged stream (`sync`), reads one valid packet at a time from bytes
//! that a transport supplies (`reader`, `reader_laws`), judges a
//! connection by its reads (`connection`), estimates frame rates
//! (`metrics`), keeps the last seconds of frames (`ring_buffer`), detects
//! motion (`motion_detector`), decides what is recorded (`recorder`), and
//! routes each packet to all of these (`pipeline`).

pub mod connection;
pub mod crc;
pub mod metrics;
pub mod motion_detector;
pub mod pipeline;
pub mod protocol;
pub mod reader;
pub mod reader_laws;
pub mod recorder;
pub mod ring_buffer;
pub mod sync;
pub mod wire;
