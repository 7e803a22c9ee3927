//! A temporary file that stages a script for an external interpreter. The
//! file is closed directly after creation so the spawned child can read it,
//! and the backing file is removed when the owning value goes out of scope,
//! on every exit path.

use vstd::prelude::*;

verus! {

use crate::text::ends_with;

#[verifier::external_type_specification]
#[verifier::external_body]
pub struct ExTempPath(tempfile::TempPath);

/// A uniquely named file in the system temp directory, holding given content.
/// Dropping the value deletes the file best-effort: `tempfile::TempPath`
/// removes the file in its own `Drop` and ignores removal errors.
pub struct SharableTmpFile {
    path: tempfile::TempPath,
    path_str: String,
}

impl View for SharableTmpFile {
    type V = Seq<char>;

    /// The staged file's path, as text.
    closed spec fn view(&self) -> Seq<char> {
        self.path_str@
    }
}

impl SharableTmpFile {
    /// Creates a new sharable tmp file with the given text content and name suffix.
    /// The file is located in the system's temp directory.
    ///
    /// Relies on `tempfile::Builder::tempfile` with `Builder::suffix`, which
    /// creates a uniquely named file in the system temp directory whose name
    /// ends with `suffix`, and on `std::io::Write::write_all`, which writes
    /// the whole of `content` into it. The file persists until the returned
    /// value is dropped.
    #[verifier::external_body]
    pub fn new(content: &str, suffix: &str) -> (r: Result<Self, std::io::Error>)
        ensures
            r matches Ok(f) ==> ends_with(f@, suffix@),
    {
        let mut file = tempfile::Builder::new().suffix(suffix).tempfile()?;
        std::io::Write::write_all(&mut file, content.as_bytes())?;
        let path = file.into_temp_path();
        let path_str = path.to_string_lossy().into_owned();
        Ok(SharableTmpFile { path, path_str })
    }

    /// The staged file's resolved path, for handing to a process launcher.
    pub fn path_str(&self) -> (r: &str)
        ensures
            r@ == self@,
    {
        self.path_str.as_str()
    }
}

} // verus!
