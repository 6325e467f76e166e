//! The failures that end a run.

use vstd::prelude::*;

verus! {

/// The part of a JSON response that a schema failure is about.
#[derive(Clone, Copy, Debug, PartialEq, Eq, Structural)]
pub enum JsonField {
    /// The response body as a whole.
    Document,
    /// The list of matches of an address search.
    Items,
    /// The identifier of a match.
    Id,
    /// The display line of a match.
    AddressSingleLine,
    /// The coordinates of a match.
    LatLon,
    /// The HTML fragment of a schedule response.
    ResponseContent,
}

/// In which way a response departs from the expected shape.
#[derive(Clone, Copy, Debug, PartialEq, Eq, Structural)]
pub enum SchemaFault {
    /// The text is not JSON at all.
    Malformed,
    /// The key is absent.
    Missing,
    /// The value is there but has another type.
    WrongType,
    /// The array has no item at the index that is read.
    MissingItem,
}

/// A failure that aborts the run.
#[derive(Clone, Debug, PartialEq, Eq)]
pub enum PipelineError {
    /// A retrieval came back with a status outside 200..=299.
    Fetch { status: u16 },
    /// A JSON response lacks a field or holds it with the wrong type.
    Schema { field: JsonField, fault: SchemaFault },
    /// A region anchor has no `href`.
    MissingAttribute,
    /// The article of the target category has no next-service element.
    MissingElement,
    /// The pickup-date text is neither a date in a known format nor the
    /// notice that no pickup is available; `text` is that text.
    UnexpectedContent { text: String },
    /// A structural pattern is not a selector group.
    Pattern,
}

/// A [`PipelineError`] as mathematical values.
pub enum PipelineErrorView {
    Fetch { status: u16 },
    Schema { field: JsonField, fault: SchemaFault },
    MissingAttribute,
    MissingElement,
    UnexpectedContent { text: Seq<char> },
    Pattern,
}

impl View for PipelineError {
    type V = PipelineErrorView;

    open spec fn view(&self) -> PipelineErrorView {
        match self {
            PipelineError::Fetch { status } => PipelineErrorView::Fetch { status: *status },
            PipelineError::Schema { field, fault } => PipelineErrorView::Schema {
                field: *field,
                fault: *fault,
            },
            PipelineError::MissingAttribute => PipelineErrorView::MissingAttribute,
            PipelineError::MissingElement => PipelineErrorView::MissingElement,
            PipelineError::UnexpectedContent { text } => PipelineErrorView::UnexpectedContent {
                text: text@,
            },
            PipelineError::Pattern => PipelineErrorView::Pattern,
        }
    }
}

} // verus!
