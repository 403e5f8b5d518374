//! USDHC SD card driver for NXP's i.MX RT MCUs.
//!
//! The driver is split into two layers, connected by the [`SdHost`] trait.
//!
//! * The protocol layer brings a card up and reads and writes its blocks. It knows
//!   no hardware: [`Usdhc`] is the driver, [`card`] the protocol, [`bringup`] the
//!   exchange that brings a card up, [`csd`] what a card says of its capacity.
//! * The host layer says which registers of the peripheral to touch, in which
//!   order, and what to make of the readings: [`inner`] is the peripheral,
//!   [`transfer`] a command or block transfer, [`sequence`] the shorter register
//!   sequences, [`clock`] the choice of clock divisors.
//!
//! What a transfer does from its first access to its last is stated in [`history`], what
//! it comes to in [`outcome`] and how long it waits in [`progress`], bit by bit and
//! reading by reading; what is asked of a card that is brought up, call by call, in
//! [`exchange`].
//! [`fake`] is a host with a simulated card; what the driver does with that card
//! from power-up to power cycle is stated in [`simulation`].
//!
//! # Mutual exclusion
//!
//! The driver does not enforce mutual exclusion beyond Rust's own: whoever shares a
//! driver between contexts must see to it that one at a time uses it.

pub mod bringup;
pub mod card;
pub mod clock;
pub mod cmd;
pub mod csd;
pub mod error;
pub mod exchange;
pub mod fake;
pub mod history;
pub mod host;
pub mod inner;
pub mod outcome;
pub mod progress;
pub mod reg;
pub mod sequence;
pub mod simulation;
pub mod transfer;
pub mod usdhc;

pub use bringup::CardInfo;
pub use card::SdProtocol;
pub use clock::compute_clock_divisors;
pub use csd::{block_address, parse_csd};
pub use error::{CardType, SdError};
pub use host::{BusWidth, CmdResponse, HostCall, HostEvent, HostReply, SdHost};
pub use inner::UsdhcInner;
pub use usdhc::{Block, Usdhc};
