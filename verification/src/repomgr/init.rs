use vstd::prelude::*;

verus! {

/// Why no repository was found above a path.
#[derive(Debug)]
pub enum FindRepoError {
    Io(std::io::Error),
    NotFound,
}

} // verus!
