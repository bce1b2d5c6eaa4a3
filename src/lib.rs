//! Logic of three small micro:bit programs: an LED roulette that walks one
//! lit cell around the border of the 5×5 matrix, a serial echo that sends
//! each line back reversed, and a serial console that reads command lines
//! and answers with accelerometer or magnetometer readings.
pub mod roulette;
pub mod text;
pub mod line;
pub mod console;
pub mod echo;
