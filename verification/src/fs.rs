//! The file system, as template installation uses it.
use vstd::prelude::*;

verus! {

/// A file system. Implementations read and write a real (or a test) file system;
/// nothing is promised of what they answer. Paths are `/`-separated strings.
pub trait Filesystem {
    /// Creates the directory `path` and any missing parent.
    fn create_dir_all(&self, path: &str) -> Result<(), String>;

    /// Whether a file exists at `path`.
    fn file_exists(&self, path: &str) -> bool;

    /// The bytes of the file at `path`.
    fn read_file(&self, path: &str) -> Result<Vec<u8>, String>;

    /// Replaces the file at `path` by one holding `contents`.
    fn write_file(&self, path: &str, contents: &[u8]) -> Result<(), String>;
}

} // verus!
