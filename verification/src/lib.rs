//! Discovery and local control of Yeelight WiFi LEDs over the LAN: the protocol
//! logic (message shapes, validation, parsing, discovery, firewall decisions) and
//! the pure logic of the reactive color drivers and the control panel, with their
//! contracts.
//!
//! Sockets, processes, files, timers and windows live outside this crate; they
//! hand it plain values and act on what it returns.

pub mod address;
pub mod ambient;
pub mod audio;
pub mod client;
pub mod commands;
pub mod control;
pub mod device;
pub mod discovery;
pub mod driver;
pub mod error;
pub mod firewall;
pub mod json;
pub mod message;
pub mod mock;
pub mod music;
pub mod panel;
pub mod presets;
pub mod text;

pub use client::{Direction, LogLine};
pub use commands::{
    AdjustAction, AdjustProp, CronType, Effect, FlowAction, FlowExpr, FlowTuple, PowerMode, Request,
    Scene,
};
pub use device::{Device, Ip, Ipv4, Ipv6, Location, Model, State};
pub use error::{Error, Result};
pub use message::Notification;
pub use music::DEFAULT_MUSIC_PORT;
