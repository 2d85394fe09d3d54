//! Verified core of the Maia SDR control software: the JSON schema enums, the
//! DDC and FIR filter bookkeeping of the FPGA IP core, the IQ recorder data
//! formats and state machine, and the small UI helpers of the web client.

pub mod json;
pub mod text;
pub mod ddc;
pub mod fpga;
pub mod recording;
pub mod sigmf;
pub mod iio;
pub mod httpd;
pub mod render;
pub mod ui;
pub mod pointer;
pub mod spectrometer;
pub mod waterfall;
