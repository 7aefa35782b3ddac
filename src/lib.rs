//! Relaying keyboard and mouse input from one machine to another.
//!
//! On the capturing side, [`device`] decides which input devices may be
//! captured, [`capture`] owns the handles of the grabbed ones, [`relay`]
//! decides for each event whether it is forwarded, [`normalize`] turns it
//! into a protocol event, and [`transport`] drives the network link. The
//! packets of [`protocol`] travel in the frames of [`wire`]; on the replaying
//! side [`replay`] plans the synthetic input for each one.
pub mod capture;
pub mod config;
pub mod device;
pub mod key_codes;
pub mod normalize;
pub mod protocol;
pub mod relay;
pub mod replay;
pub mod text;
pub mod transport;
pub mod wire;
