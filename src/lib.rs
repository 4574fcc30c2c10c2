//! Capture, decoding and aggregation core of a network traffic monitor.
pub mod accounting;
pub mod capture;
pub mod data_info;
pub mod frame;
pub mod laws;
pub mod model;
pub mod report;
pub mod style;
pub mod tags;
