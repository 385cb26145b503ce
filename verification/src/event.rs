//! What a driver reports back after it has carried out a request.

use vstd::prelude::*;

verus! {

/// The outcome of one request, as the driver that performed it reports it.
///
/// Each request calls for one kind of answer. Any other event, `Failed` above
/// all, counts as the failure of that request.
#[derive(Debug, PartialEq, Eq)]
pub enum Event {
    /// The request was carried out and brought nothing back.
    Done,
    /// The size in bytes of the file that was opened.
    Size(u64),
    /// The bytes that a read brought.
    Data(Vec<u8>),
    /// The current time in seconds since the Unix epoch.
    Time(u64),
    /// The request could not be carried out.
    Failed,
}

/// An [`Event`] with its bytes as a mathematical sequence.
pub enum EventView {
    Done,
    Size(u64),
    Data(Seq<u8>),
    Time(u64),
    Failed,
}

impl View for Event {
    type V = EventView;

    open spec fn view(&self) -> EventView {
        match self {
            Event::Done => EventView::Done,
            Event::Size(n) => EventView::Size(*n),
            Event::Data(bytes) => EventView::Data(bytes@),
            Event::Time(t) => EventView::Time(*t),
            Event::Failed => EventView::Failed,
        }
    }
}

} // verus!
