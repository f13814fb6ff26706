//! What holds of the library as a whole.
pub mod model;
pub mod indices;
pub mod paths;
pub mod merging;
pub mod items;
pub mod numbers;
pub mod operations;
pub mod keys;
pub mod sizes;
pub mod reading;
