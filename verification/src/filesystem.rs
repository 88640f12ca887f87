//! The operations on paths that a filesystem offers on top of the storage
//! layer. The storage layer does not depend on them.

use crate::storage::error::Error;
use vstd::prelude::*;

verus! {

/// The operations on paths. Each of them is made of operations on blocks,
/// on the superblock and on the storage connection.
pub trait Filesystem {
    /// Moves a file or directory to a new location.
    fn move_path(&self, old_path: &str, new_path: &str) -> Result<(), Error>;

    /// Creates a new directory.
    fn mkdir(&self, dir: &str) -> Result<(), Error>;

    /// Removes an empty directory.
    fn rmdir(&self, dir: &str) -> Result<(), Error>;

    /// Reads the contents of a directory.
    fn readdir(&self, dir: &str) -> Result<Vec<String>, Error>;

    /// Deletes a file.
    fn delete(&self, file: &str) -> Result<(), Error>;
}

} // verus!
