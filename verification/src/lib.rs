//! Registration of existing Parquet files with an Iceberg table.
//!
//! The library holds the rules of the tool: how a dotted table identifier and a
//! list of paths are read, which properties the REST catalog is built with, and
//! which step follows which. The program around it performs the steps.

pub mod options;
pub mod paths;
pub mod props;
pub mod registration;
pub mod report;
pub mod table_id;
pub mod text;
