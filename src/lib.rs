//! A worker harness core for a data-processing engine: the standard element
//! coders with their byte-exact wire format, and the primitive operators that
//! drive one bundle of elements through a stage.

pub mod bundle;
pub mod coders;
pub mod data;
pub mod element;
pub mod operators;
pub mod stage;
pub mod transforms;
pub mod urns;
pub mod varint;
pub mod worker;
