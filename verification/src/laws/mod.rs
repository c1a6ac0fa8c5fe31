//! What holds of the library as a whole, stated over what the functions' contracts say.

pub mod catchup;
pub mod config;
pub mod confirmation;
pub mod cycle;
pub mod lists;
pub mod lsn;
pub mod ordering;
pub mod positions;
pub mod queries;
pub mod rows;
pub mod single_slot;
pub mod slots;
pub mod text;
pub mod worker;
