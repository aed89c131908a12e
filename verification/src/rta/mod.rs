//! Rapid type analysis: the state kept across the compiler's callbacks.

use vstd::prelude::*;
use crate::util::options::AnalysisOptions;

verus! {

pub struct RTACallbacks {
    /// Options provided to the analysis.
    pub options: AnalysisOptions,
    /// The relative path of the file being compiled.
    file_name: String,
}

impl RTACallbacks {
    /// The relative path of the file being compiled.
    pub closed spec fn file_name(&self) -> Seq<char> {
        self.file_name@
    }

    /// The options of the analysis.
    pub closed spec fn analysis_options(&self) -> AnalysisOptions {
        self.options
    }

    pub fn new(options: AnalysisOptions) -> (r: RTACallbacks)
        ensures
            r.analysis_options() == options,
            r.file_name() == Seq::<char>::empty(),
    {
        RTACallbacks { options, file_name: String::new() }
    }

    /// Records the path of the file being compiled.
    pub fn set_file_name(&mut self, file_name: String)
        ensures
            final(self).file_name() == file_name@,
            final(self).analysis_options() == old(self).analysis_options(),
    {
        self.file_name = file_name;
    }
}

} // verus!
