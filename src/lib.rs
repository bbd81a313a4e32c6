pub mod address;
pub mod amount;
pub mod dto;
pub mod error;
pub mod recipients;
pub mod service;
pub mod uint;
