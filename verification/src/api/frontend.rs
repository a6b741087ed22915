//! The dashboard's static files.
use vstd::prelude::*;

verus! {

/// Serves the dashboard's built files from `dist_dir`.
#[derive(Debug)]
pub struct FrontendService {
    pub dist_dir: String,
}

impl FrontendService {
    pub fn new(dist_dir: String) -> (r: FrontendService)
        ensures
            r.dist_dir@ == dist_dir@,
    {
        FrontendService { dist_dir }
    }
}

} // verus!
