//! A client for the device-tracking stream of a local device-bridge daemon.
//!
//! The daemon answers a track-devices request with `OKAY`, then with frames: four
//! hexadecimal digits giving a payload length, then that many bytes of text listing
//! one `<serial>\t<state>` per line. The library buffers the bytes, cuts frames,
//! parses the device lines, reports serials not seen in the previous frame, and
//! decides each step of the connect / handshake / stream / recover loop. The caller
//! performs the socket, process and timer work that each step asks for.
pub mod buffer;
pub mod devices;
pub mod frame;
pub mod monitor;
