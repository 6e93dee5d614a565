//! Files of the files service.

use vstd::prelude::*;
use crate::voice::Identity;

verus! {

/// The identity of a file.
pub type FileId = Identity;

/// Local file abstraction
#[derive(Clone, Debug)]
pub struct File {
    pub name: Option<String>,
    pub id: FileId,
    pub data: Option<Vec<u8>>,
    pub owner: Identity,
}

/// Describe a file's lifecycle
///
/// Not to be confused with `FileFilter`, which is part of public API
/// functions to allow users to easily filter for only certain types
/// of file data.
#[derive(Clone, Debug)]
pub enum FileMeta {
    /// Files owned by the current user
    Local(File),
    /// Network files, fully locally mirrored
    Available(File),
    /// Network files, still downloading
    InProgress { size: usize, local: usize, stalled: bool },
    /// A network advertised file that hasn't started downloading
    Advertised { size: usize },
}

/// Describe a file's lifecycle
///
/// Filter functions for each time exist and enable
/// different sub-services based on which phase they
/// aim for.
#[derive(Clone, Copy, Debug, PartialEq, Eq, Structural)]
pub enum FileFilter {
    Local,
    Available,
    InProgress,
}

/// Interface to access files from the network
///
/// Used entirely to namespace API endpoints on an instance, without
/// having long type identifiers.
pub struct Files<'chain, Q> {
    pub(crate) q: &'chain Q,
}

impl<'chain, Q> Files<'chain, Q> {
    /// The instance this scope was opened on.
    pub closed spec fn instance(self) -> Q {
        *self.q
    }

    /// The files scope of an instance.
    pub fn new(q: &'chain Q) -> (f: Files<'chain, Q>)
        ensures
            f.instance() == *q,
    {
        Files { q }
    }

    /// Drop the files scope, back into the instance it was opened on.
    pub fn drop(self) -> (q: &'chain Q)
        ensures
            *q == self.instance(),
    {
        self.q
    }
}

} // verus!
