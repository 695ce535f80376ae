//! Conversion of PostgreSQL COPY TEXT records into typed rows, and the
//! tag-length-value encoding of those rows for a destination sink.
pub mod cell;
pub mod copy_text;
pub mod field_decoder;
pub mod sources;
pub mod table_row;
pub mod text;
pub mod wire;
