//! Colour text parsing, step planning and formatting for an Oklab colour tool.
//!
//! The floating-point colour mathematics lives with the command-line front end;
//! this library decides what the inputs mean and what has to be computed.

mod color;
mod format;
mod grammar;
mod hex_text;
mod laws;
mod parse;
mod quantize;
mod request;
mod scan;

pub use color::{ColorError, ColorModel, ColorSpec, OklabText, Rgb8};
pub use parse::parse_color;
pub use quantize::{quantize_fractions, quantize_plan, Fraction, Step};
pub use format::{format_rgb, hex_code};
pub use request::{average_request, parse_colors, quantize_request};
pub use laws::{lemma_hex_code_round_trip, lemma_plan_endpoints, lemma_quantize_endpoints, lemma_quantize_midpoint, lemma_short_hex_expands};
