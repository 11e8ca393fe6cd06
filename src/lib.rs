//! Core of a quadrotor flight controller and its ground station: the
//! serial frame codec, the message wire format, the receiving pipe, the
//! motor mixer, the attitude controllers, the complementary filter, the
//! on-board flight state machine with its flash log, and the ground
//! station's input aggregation and periodic messages.
pub mod codec;
pub mod fixedpoint;
pub mod motor_control;
pub mod protocol;
pub mod io;
pub mod config;
pub mod drone;
pub mod controller;
pub mod sensors;
pub mod state_machine;
pub mod input;
pub mod periodic;
pub mod logic;
