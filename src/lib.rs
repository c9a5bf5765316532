//! Uniform object access: paths, byte ranges, metadata, listing entries, an
//! in-memory listing index, logging and metrics layers, a seekable reader
//! built from ranged reads, and the decisions that backends make over the
//! replies of the services behind them.

pub mod accessor;
pub mod entry;
pub mod error;
pub mod header;
pub mod layers;
pub mod metadata;
pub mod offset_reader;
pub mod operation;
pub mod operator;
pub mod path;
pub mod range;
pub mod services;
pub mod text;
pub mod walk;

pub use accessor::{Accessor, Layer};
pub use entry::{ObjectEntry, ObjectPage};
pub use error::{Error, ErrorKind};
pub use layers::immutable_index::ImmutableIndexLayer;
pub use layers::logging::LoggingLayer;
pub use layers::metrics::MetricsLayer;
pub use metadata::{ObjectMetadata, ObjectMode, Scheme};
pub use operator::{BlockingObjectReader, Object, Operator};
