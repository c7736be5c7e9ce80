//! Firmware core of a sixteen-input, sixteen-output I/O expander that speaks a
//! framed, CRC-protected request/response protocol over a half-duplex bus.
//!
//! The library holds the logic of the device and proves it: what a function
//! returns or changes is stated in its contract. It touches no hardware. The
//! loops that wait for the hardware run outside and ask the state machines
//! here what to do next.
//!
//! - `bytes`, `checksum`, `command`, `frame`, `payload`, `codec`: the wire
//!   protocol, from little-endian bytes up to typed requests and responses,
//!   with the frame hunter; `stream` shows that the hunter does not care how
//!   the stream is cut into reads.
//! - `nvm`: the flash page with calibrations, thresholds and configuration.
//! - `input`, `scan`: the accumulators and threshold detectors of the inputs,
//!   and the scan that feeds them.
//! - `output`: the scaling of the PWM outputs.
//! - `main_loop`, `reply`, `runtime`: the handling of requests on the device.
//! - `master`: the other end of the bus.
pub mod bytes;
pub mod checksum;
pub mod codec;
pub mod command;
pub mod frame;
pub mod input;
pub mod main_loop;
pub mod master;
pub mod nvm;
pub mod output;
pub mod payload;
pub mod reply;
pub mod runtime;
pub mod scan;
pub mod stream;
