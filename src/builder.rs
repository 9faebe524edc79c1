//! The seam where a role's delegates are made.

use vstd::prelude::*;

verus! {

/// Makes the matched reader and writer delegates of one connection. It is
/// called once per connection, before either unit starts, so the two
/// delegates may share state (a table of pending requests, say) that the
/// engine never sees.
pub trait Builder {
    type Reader;

    type Writer;

    fn build(&mut self) -> (Self::Reader, Self::Writer);
}

} // verus!
