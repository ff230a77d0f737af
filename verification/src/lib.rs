pub mod address;
pub mod constants;
pub mod ip_range;
pub mod parallel_scanner;
pub mod ports;
pub mod request;
pub mod strategy;
pub mod text;
