//! Link annotations for a page-based document format.
//!
//! Callers build annotation values, register them in a document-scoped
//! list (receiving a stable handle named after the registration index), and
//! at serialization time encode every annotation into the low-level object
//! model, resolving each referenced page index to its concrete object
//! identity through a caller-supplied resolution context.

pub mod decimal;
pub mod link_annotation;
pub mod object_model;

pub use link_annotation::{
    Actions, AnnotationContext, BorderArray, ColorArray, DashPhase, Destination, EncodeError,
    HighlightingMode, LinkAnnotation, LinkAnnotationList, LinkAnnotationRef, PdfPageIndex, Point,
    Rect,
};
pub use object_model::{ObjectId, PdfObject, Real};

