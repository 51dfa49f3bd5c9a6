//! The master of a render: it holds the work that is still to be handed out
//! and the results that have come back.

use vstd::prelude::*;
use crate::util::color::Color;

verus! {

/// A piece of work: one row of the image.
#[derive(Copy, Clone, Debug, PartialEq, Eq, Structural)]
pub struct WorkItem {
    pub row: usize,
}

/// The result of a piece of work: the pixels of one row.
pub struct WorkResult {
    pub row: usize,
    pub pixels: Vec<Color>,
}

/// The master renderer.
pub struct Master {
    /// The number of work items of the render.
    pub total_items: usize,
    /// The work items that no worker has taken yet; the first of them is taken first.
    pub requests: Vec<WorkItem>,
    /// The results that have come back, in the order of their coming.
    pub results: Vec<WorkResult>,
}

impl Master {
    /// Creates the master of a render of the given work items: all of them
    /// wait to be taken, in their order, and no result has come back.
    pub fn new(items: Vec<WorkItem>) -> (m: Master)
        ensures
            m.total_items == items.len(),
            m.requests@ == items@,
            m.results@.len() == 0,
    {
        let mut requests: Vec<WorkItem> = Vec::new();
        let mut i: usize = 0;
        while i < items.len()
            invariant
                i <= items.len(),
                requests@ == items@.take(i as int),
            decreases items.len() - i,
        {
            requests.push(items[i]);
            i = i + 1;
            assert(requests@ == items@.take(i as int));
        }
        assert(items@.take(items.len() as int) == items@);
        Master { total_items: items.len(), requests: requests, results: Vec::new() }
    }
}

} // verus!
