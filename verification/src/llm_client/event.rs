use vstd::prelude::*;

verus! {

/// A parsed SSE event.
#[derive(Debug, Clone)]
pub struct SseEvent {
    pub event_type: Option<String>,
    pub data: String,
}

impl SseEvent {
    /// The event's data.
    pub fn data_str(&self) -> (r: &str)
        ensures
            r@ == self.data@,
    {
        self.data.as_str()
    }
}

}
