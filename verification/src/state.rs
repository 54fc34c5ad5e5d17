use vstd::prelude::*;
use std::sync::Arc;
use crate::model::{FileLineSummary, FileLines, sorted_by_lines, summary_of};
use crate::sorting::is_stable_sort_of;

verus! {

/// The files of one scan with their line counts.
pub type ScanResults = Vec<FileLines>;

/// Holds the result of the most recent scan, or nothing before the first.
/// Its view is the files it holds.
pub struct LastScan {
    results: Option<Arc<ScanResults>>,
}

impl View for LastScan {
    type V = Option<Seq<FileLines>>;

    closed spec fn view(&self) -> Option<Seq<FileLines>> {
        match self.results {
            Some(held) => Some(held@),
            None => None,
        }
    }
}

impl Default for LastScan {
    /// The store before any scan.
    fn default() -> (store: Self)
        ensures
            store@.is_none(),
    {
        LastScan { results: None }
    }
}

impl LastScan {
    /// Replaces what the store holds by `new_results` and hands back a shared
    /// handle to them.
    pub fn set_results(&mut self, new_results: ScanResults) -> (shared: Arc<ScanResults>)
        ensures
            shared@ == new_results@,
            final(self)@ == Some(new_results@),
    {
        let return_arc = Arc::new(new_results);
        let arc_to_store = return_arc.clone();
        self.results = Some(arc_to_store);
        return_arc
    }

    /// A shared handle to what the store holds; `None` before the first scan.
    pub fn get_results(&self) -> (shared: Option<Arc<ScanResults>>)
        ensures
            match shared {
                Some(held) => self@ == Some(held@),
                None => self@.is_none(),
            },
    {
        match &self.results {
            Some(result_ref) => Some(result_ref.clone()),
            None => None,
        }
    }
}

/// A store in which the outcome of a scan was put holds the files of that
/// scan in their ascending order, and their summary is the scan's summary.
pub proof fn lemma_store_holds_the_scan(
    store: LastScan,
    files: Seq<FileLines>,
    sorted: Seq<FileLines>,
    summary: FileLineSummary,
)
    requires
        is_stable_sort_of(sorted, files),
        summary == summary_of(sorted),
        store@ == Some(sorted),
    ensures
        store@ matches Some(held) && is_stable_sort_of(held, files) && sorted_by_lines(held)
            && summary_of(held) == summary,
{
}

} // verus!
