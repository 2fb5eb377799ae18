//! Line indices that use `-1` for "no line".
use vstd::prelude::*;

verus! {

/// Converts an index that follows the convention where `-1` means "absent"
/// into an `Option`. Any other negative value is not a valid index.
pub fn idx_to_opt(idx: i32) -> (r: Option<u32>)
    requires
        idx >= -1,
    ensures
        idx == -1 ==> r is None,
        idx >= 0 ==> r == Some(idx as u32),
{
    if idx == -1 {
        None
    } else {
        Some(idx as u32)
    }
}

/// A marker in a terminal buffer, tracking a line as the buffer scrolls.
pub struct Marker {
    /// Identifier of the marker.
    pub id: u32,
    /// Whether the marker has been disposed of.
    pub is_disposed: bool,
    /// The line index in the buffer, or `-1` if the marker is off the buffer.
    pub line: i32,
}

impl Marker {
    /// Well-formed markers hold a line index that is `-1` or non-negative.
    pub open spec fn wf(&self) -> bool {
        self.line >= -1
    }

    /// The actual line index in the buffer at this point in time, or `None`
    /// when the marker no longer refers to a line.
    pub fn get_line(&self) -> (r: Option<u32>)
        requires
            self.wf(),
        ensures
            self.line == -1 ==> r is None,
            self.line >= 0 ==> r == Some(self.line as u32),
    {
        idx_to_opt(self.line)
    }
}

} // verus!
