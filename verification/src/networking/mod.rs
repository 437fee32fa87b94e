pub mod api;
pub mod socket;
