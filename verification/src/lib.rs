//! Core of a two-player networked Pong: the deterministic simulation, the
//! rollback netcode engine, the fixed-layout input-frame codec, and the
//! decision logic of the lobby-rendezvous relay.
//!
//! All game quantities are Q16 fixed-point integers (the low 16 bits are the
//! fractional part), so every tick of the simulation is an exact function of
//! the previous state and the two players' inputs. The analog input that
//! travels on the wire is kept as its raw IEEE-754 binary32 bit pattern and
//! only interpreted (as a Q16 axis value) at the edge of the simulation.

pub mod codec;
pub mod num;
pub mod sim;
pub mod engine;
pub mod relay;
