//! Verified core of a PortAudio/ALSA hardware-audio adapter.
//!
//! The crate decides; it never calls PortAudio, ALSA or the kernel itself. Every
//! operation that needs the hardware is a small machine that names the next call
//! to make and takes the call's reply, so the order of calls, the error codes and
//! the bookkeeping around them are proved for every possible reply.
pub mod abi;
pub mod callback;
pub mod capture_ring;
pub mod cm119;
pub mod devices;
pub mod mixer;
pub mod mixer_control;
pub mod mixer_level;
pub mod pcm;
pub mod render;
pub mod runtime;
pub mod selection;
pub mod stats;
pub mod stream_create;
pub mod stream_destroy;
pub mod stream_start;
pub mod stream_stop;
pub mod sysfs;
pub mod text;
pub mod timing;
pub mod usb_device;

