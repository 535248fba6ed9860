//! Decoder for a packed, dictionary-compressed binary document format:
//! a self-describing tree of named nodes with typed properties, read from
//! an in-memory byte buffer, plus an extraction layer that pulls typed
//! rectangle records out of the decoded tree.

pub mod celeste_io;
pub mod filler;
pub mod geom;
pub mod lookup;
pub mod map;
pub mod node;
pub mod reader;
pub mod screen;
pub mod strings;
pub mod value;

pub use celeste_io::CelesteIo;
pub use filler::{Filler, FillersDecodeError};
pub use geom::{GeomUnit, IntPoint, IntRect, IntSize, NonNegativeGeomUnit, Point, Rect, Size};
pub use map::{CelesteMap, CelesteMapReadError, MapV};
pub use lookup::{Lookup, LookupError, LookupRef, LookupValue};
pub use node::{Node, NodeReadError, NodeV};
pub use screen::{Screen, ScreensDecodeError};
pub use reader::{IoError, Reader, StringLength};
pub use strings::{NonRleString, RleString, StringReadError};
pub use value::{ReadValueError, Value, ValueConversionError};
