//! A simulated three-phase electric meter served over Modbus TCP: the meter's
//! register and coil tables, how its physical state evolves, and the
//! request/response engine that reads and writes those tables.
pub mod meter;
pub mod modbus;
