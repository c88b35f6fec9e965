//! Rendering of syntax as exact source text, by small rules that compose:
//! literal tokens, prefixes and suffixes, delimiters and wrapping pairs.
pub mod cformat;
pub mod fmt;
pub mod generic_param;
pub mod macros;
pub mod sink;
pub mod text;
pub mod utils;

pub use cformat::formatter::{
    Delimited, Formatted, FormattedIter, FormattedSeq, SeqFormatter, ValueOrTuple,
};
pub use cformat::op::{Affix, Affixes, AffixesOps, FormatOp, Prefix, Suffix};
pub use fmt::cairo_write::{cwrite_hex, CairoWrite, CairoWriteSlice, FeltBytes};
pub use fmt::sizer::Sizer;
pub use fmt::write::{
    get_enclosers, AppendWriteOps, CSliceWriter, CWrite, CWriteSlice, CWriter, ElementOps,
    ElementWriter, MaybeTokenTrait, SliceOps, SliceWriter, Token, TokenTrait, TokensTrait,
};
pub use generic_param::{
    AssociatedItemConstraint, ConstGenericParam, GenericParam, GenericParamsTrait,
    ImplAnonymousGenericParam, ImplNamedGenericParam,
};
pub use sink::{Sink, SinkFailure, SinkState, StringSink};
pub use utils::Slice;
