//! A verified MP4/ISOBMFF box-tree parser.
//!
//! The crate walks the tree of size-prefixed, four-character-typed boxes
//! of an ISOBMFF file held in a byte buffer, classifies the known box
//! types, decodes the payloads of well-known boxes through a keyed
//! decoder registry, and reconstructs per-track sample timelines from
//! the sample-table boxes.

pub mod api;
pub mod boxes;
pub mod bytes;
pub mod fields;
pub mod known_boxes;
pub mod parser;
pub mod registry;
pub mod samples;
pub mod strings;
pub mod util;

pub use api::{get_boxes, hex_range, BoxNode, HexDump};
pub use boxes::{BoxHeader, BoxKey, BoxRef, FourCC, NodeKind};
pub use parser::{parse_children, read_box_header, ParseError};
pub use registry::{default_registry, BoxDecoder, BoxValue, Registry};
pub use samples::{extract_track_samples, SampleInfo, TrackSamples};
