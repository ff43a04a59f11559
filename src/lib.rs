//! Screen-region sampling core: capture-region configuration, region
//! extraction with luma conversion, the bright-marker detector and the
//! decision step of the capture loop.
pub mod capture;
pub mod config;
pub mod detect;
pub mod frame;
