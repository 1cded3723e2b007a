//! Conversion of per-object XML detection annotations, grouped in one
//! directory per category, into a COCO-style detection dataset.
//!
//! Everything here is pure: the caller lists directories, reads files and
//! writes the results, and hands the library plain values.
pub mod error;
pub mod text;
pub mod naming;
pub mod registry;
pub mod number;
pub mod annotation;
pub mod paths;
pub mod catalog;
pub mod split;
pub mod coco;
pub mod plan;

pub use annotation::{parse, parse_tokens, Annotataion, Bndbox, Size, XmlToken};
pub use catalog::{CategoryDir, SourceFile};
pub use coco::{build_document, CocoDocument};
pub use error::ConvertError;
pub use naming::Cls;
pub use plan::{copy_targets, plan_conversion, Plan, DEFAULT_SEED};
pub use registry::CategoryRegistry;
