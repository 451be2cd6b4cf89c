//! What holds of the library as a whole.

pub mod block;
pub mod evaluation;
pub mod models;
pub mod receipts;
pub mod requests;
pub mod settlement;
pub mod stages;
pub mod states;
pub mod workers;
