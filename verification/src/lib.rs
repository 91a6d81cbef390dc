//! One-shot serializer for OpenTelemetry-style trace exports.
//!
//! A caller assembles a tree of trace records in memory (`model`), the
//! serializer renders it as newline-delimited JSON (`emit`) whose shape is
//! specified by a ghost JSON value model (`json`), timestamps travel on the
//! wire as canonical decimal-digit strings (`time`, `digits`), and span
//! identifiers come from a hexadecimal id generator (`ids`). The encoding's
//! guarantees — omission of absent fields, no `null`, order preservation,
//! newline framing — are proved once over the ghost model in `laws`.

pub mod digits;
pub mod emit;
pub mod ids;
pub mod json;
pub mod laws;
pub mod model;
pub mod time;
