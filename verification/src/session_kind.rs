//! Which Xbox streaming service a session uses.
use vstd::prelude::*;

verus! {

#[derive(Clone, Copy, PartialEq, Eq, Structural, Debug)]
pub enum StreamKind {
    Home,
    Cloud,
}

impl StreamKind {
    /// The service's path segment in the streaming API.
    pub fn as_path(self) -> (path: &'static str)
        ensures
            path@ == (match self {
                StreamKind::Home => "home"@,
                StreamKind::Cloud => "cloud"@,
            }),
    {
        match self {
            StreamKind::Home => "home",
            StreamKind::Cloud => "cloud",
        }
    }
}

} // verus!
