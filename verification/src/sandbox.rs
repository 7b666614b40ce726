//! Settings of the script sandbox and the rules of `file.save`.
use vstd::prelude::*;
use crate::io::{budget_error, check_filename, filename_error, join, join_path};
use crate::text::owned;

verus! {

/// Configuration for the Lua sandbox.
#[derive(Debug, Clone, Copy, PartialEq, Eq)]
pub struct SandboxConfig {
    /// Maximum memory the Lua VM may allocate, in bytes.
    pub memory_limit: Option<usize>,
}

impl Default for SandboxConfig {
    /// 64 MiB.
    fn default() -> (r: Self)
        ensures
            r.memory_limit == Some(67108864usize),
    {
        SandboxConfig { memory_limit: Some(67108864) }
    }
}

/// Record of a file written by a script via `file.save()`.
#[derive(Debug, Clone, PartialEq, Eq)]
pub struct FileWritten {
    /// The relative filename as provided by the script.
    pub name: String,
    /// The resolved path on disk.
    pub path: String,
    /// Number of bytes written.
    pub bytes: u64,
}

/// The state of `file.save` over one execution: the output directory, the
/// budget, the bytes counted so far and the files written.
#[derive(Debug)]
pub struct SaveTracker {
    dir: String,
    max_bytes: u64,
    bytes_written: u64,
    files: Vec<FileWritten>,
}

impl SaveTracker {
    #[verifier::type_invariant]
    closed spec fn inv(self) -> bool {
        self.bytes_written <= self.max_bytes
    }

    /// The output directory.
    pub closed spec fn out_dir(&self) -> Seq<char> {
        self.dir@
    }

    /// The budget in bytes.
    pub closed spec fn budget(&self) -> u64 {
        self.max_bytes
    }

    /// The bytes counted so far.
    pub closed spec fn written(&self) -> u64 {
        self.bytes_written
    }

    /// The files recorded so far, in order.
    pub closed spec fn saved(&self) -> Seq<FileWritten> {
        self.files@
    }

    /// Nothing saved yet.
    pub fn new(dir: String, max_bytes: u64) -> (r: SaveTracker)
        ensures
            r.out_dir() == dir@,
            r.budget() == max_bytes,
            r.written() == 0,
            r.saved().len() == 0,
    {
        SaveTracker { dir, max_bytes, bytes_written: 0, files: Vec::new() }
    }

    /// Admits a `file.save` of `len` bytes under `filename`: the name must
    /// be acceptable and the bytes must fit the budget, and then they are
    /// counted (before the file is written). Gives the path to write.
    pub fn begin_save(&mut self, filename: &str, len: u64) -> (r: Result<String, String>)
        ensures
            filename_error(filename@) matches Some(e) ==> (r matches Err(m) && m@ == e
                && *final(self) == *old(self)),
            filename_error(filename@) is None && old(self).written() + len > old(self).budget()
                ==> (r matches Err(m) && m@ == budget_error(old(self).budget()) && *final(self)
                == *old(self)),
            filename_error(filename@) is None && old(self).written() + len <= old(self).budget()
                ==> (r matches Ok(p) && p@ == join_path(old(self).out_dir(), filename@)
                && final(self).written() == old(self).written() + len && final(self).budget()
                == old(self).budget() && final(self).out_dir() == old(self).out_dir()
                && final(self).saved() == old(self).saved()),
    {
        proof {
            use_type_invariant(&*self);
        }
        match check_filename(filename) {
            Err(e) => Err(e),
            Ok(()) => {
                if len > self.max_bytes - self.bytes_written {
                    let mut m = owned("output size limit exceeded (");
                    crate::text::push_decimal(&mut m, self.max_bytes);
                    crate::text::push_str(&mut m, " bytes)");
                    return Err(m);
                }
                self.bytes_written = self.bytes_written + len;
                Ok(join(self.dir.as_str(), filename))
            },
        }
    }

    /// Records a file that was written.
    pub fn record(&mut self, name: String, path: String, bytes: u64)
        ensures
            final(self).saved() == old(self).saved().push(FileWritten { name, path, bytes }),
            final(self).written() == old(self).written(),
            final(self).budget() == old(self).budget(),
            final(self).out_dir() == old(self).out_dir(),
    {
        proof {
            use_type_invariant(&*self);
        }
        let mut files: Vec<FileWritten> = Vec::new();
        std::mem::swap(&mut files, &mut self.files);
        files.push(FileWritten { name, path, bytes });
        self.files = files;
    }

    /// The files recorded so far, in order.
    pub fn files(&self) -> (r: &Vec<FileWritten>)
        ensures
            r@ == self.saved(),
    {
        &self.files
    }
}

} // verus!
