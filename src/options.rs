use vstd::prelude::*;
use vstd::string::StringSliceAdditionalSpecFns;
use vstd::string::StrSliceExecFns;

verus! {

/// What the traversal does with each entry.
#[derive(Clone, Debug, PartialEq, Eq)]
pub enum Method {
    DryRun,
    /// Write every path, like `find`.
    List,
    /// Count file sizes, like `du`.
    DU { count_inode: bool },
    DumpSTAT { get_xattr: bool },
    CloneDirectory {
        dst: Vec<u8>,
        use_o_direct: bool,
        use_fallocate: bool,
        buffer_byte_size: u64,
    },
}

/// Order of the entries of one directory.
#[derive(Clone, Copy, Debug, PartialEq, Eq, Structural)]
pub enum Order {
    Alphabetical,
    Readdir,
    Unordered,
}

/// Options of a traversal. Paths are raw bytes.
#[derive(Clone, Debug)]
pub struct Options {
    pub src_path: Vec<u8>,
    pub readdir_dirent_buffer_size: usize,
    pub max_ioreq_depth: usize,
    pub follow_symlink: bool,
    pub order: Order,
    pub num_threads: usize,
    pub ignore_eaccess: bool,
    pub method: Method,
}

impl Method {
    /// Whether the method emits one record per entry.
    pub fn records_entries(&self) -> (r: bool)
        ensures
            r == (*self is List),
    {
        match self {
            Method::List => true,
            _ => false,
        }
    }
}

/// Options for trying the traversal on `path`: listing, readdir-independent
/// unordered output, one thread, permission-denied directories skipped.
pub fn test_option(path: &str) -> (r: Options)
    ensures
        r.src_path@ == path.spec_bytes(),
        r.readdir_dirent_buffer_size == 64,
        r.max_ioreq_depth == 32,
        !r.follow_symlink,
        r.order == Order::Unordered,
        r.num_threads == 1,
        r.method is List,
        r.ignore_eaccess,
{
    Options {
        src_path: path.as_bytes_vec(),
        readdir_dirent_buffer_size: 64,
        max_ioreq_depth: 32,
        follow_symlink: false,
        order: Order::Unordered,
        num_threads: 1,
        method: Method::List,
        ignore_eaccess: true,
    }
}

} // verus!
