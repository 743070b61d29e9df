pub mod calendar;
pub mod error;
pub mod facts;
pub mod grammar;
pub mod result;
pub mod round_trip;
pub mod rows_round_trip;
