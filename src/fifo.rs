//! A named pipe's two open ends, handed out exactly once.
use vstd::prelude::*;

use crate::error::SimulatorError;

verus! {

/// The path of a FIFO node and its opened `(write, read)` ends, until they are taken.
pub struct Fifo<E> {
    path: String,
    ends: Option<(E, E)>,
}

impl<E> Fifo<E> {
    pub closed spec fn spec_path(&self) -> Seq<char> {
        self.path@
    }

    /// The ends not taken yet, if any.
    pub closed spec fn spec_ends(&self) -> Option<(E, E)> {
        self.ends
    }

    /// Whether the ends have been taken.
    pub open spec fn spent(&self) -> bool {
        self.spec_ends() is None
    }

    /// Holds the ends of a FIFO that has been created at `path` and opened twice.
    pub fn new(path: String, write_end: E, read_end: E) -> (r: Self)
        ensures
            r.spec_path() == path@,
            r.spec_ends() == Some((write_end, read_end)),
    {
        Fifo { path, ends: Some((write_end, read_end)) }
    }

    pub fn path(&self) -> (r: &String)
        ensures
            r@ == self.spec_path(),
    {
        &self.path
    }

    /// Yields the `(write, read)` ends the first time; every later call fails.
    pub fn get_ends(&mut self) -> (r: Result<(E, E), SimulatorError>)
        ensures
            final(self).spent(),
            final(self).spec_path() == old(self).spec_path(),
            !old(self).spent() ==> r == Ok::<(E, E), SimulatorError>(old(self).spec_ends()->Some_0),
            old(self).spent() ==> (r matches Err(e) && e is FifoCreationError),
    {
        let mut ends: Option<(E, E)> = None;
        std::mem::swap(&mut ends, &mut self.ends);
        match ends {
            Some(pair) => Ok(pair),
            None => {
                let mut m = String::new();
                m.append("the ends of the FIFO were already taken");
                Err(SimulatorError::FifoCreationError(m))
            },
        }
    }
}

} // verus!
