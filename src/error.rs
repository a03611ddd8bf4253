use vstd::prelude::*;
use crate::options::Options;

verus! {

/// An I/O error of std, carried through unchanged.
#[verifier::external_type_specification]
#[verifier::external_body]
pub struct ExIoError(std::io::Error);

/// The errno value of a permission-denied failure.
pub const EACCES: i32 = 13;

/// Errors of a traversal. Error codes are errno values.
#[derive(Debug)]
pub enum E {
    /// A worker could not be announced as free: the pool is gone.
    SendFreeThreadError,
    /// No free worker could be received: the pool is gone.
    RecvFreeThreadError,
    OpenDirError { path: Vec<u8>, eno: i32 },
    ReadDirError { dirpath: Vec<u8>, entry_pos: usize, eno: i32 },
    GenericIOError { eno: std::io::Error },
}

impl E {
    /// The error may be skipped: a directory that could not be opened for
    /// lack of permission, when the options ask for such directories to be
    /// skipped.
    pub open spec fn spec_is_ignorable(&self, ignore_eaccess: bool) -> bool {
        match self {
            E::OpenDirError { eno, .. } => *eno == EACCES && ignore_eaccess,
            _ => false,
        }
    }

    pub fn is_ignorable_error(&self, opts: &Options) -> (r: bool)
        ensures
            r == self.spec_is_ignorable(opts.ignore_eaccess),
    {
        match self {
            E::OpenDirError { path: _, eno } => *eno == EACCES && opts.ignore_eaccess,
            _ => false,
        }
    }
}

/// Tags the failure of opening the directory at `abs_path`.
pub fn maybe_open_dir_error<V>(abs_path: &[u8], r: Result<V, i32>) -> (res: Result<V, E>)
    ensures
        r is Ok ==> res == Ok::<V, E>(r->Ok_0),
        r is Err ==> (res matches Err(E::OpenDirError { path, eno }) && path@ == abs_path@ && eno
            == r->Err_0),
{
    match r {
        Ok(v) => Ok(v),
        Err(e) => Err(E::OpenDirError { path: vstd::slice::slice_to_vec(abs_path), eno: e }),
    }
}

/// Tags the failure of reading entry number `pos` of the directory at
/// `abs_path`.
pub fn maybe_readdir_error<V>(abs_path: &[u8], pos: usize, r: Result<V, i32>) -> (res: Result<V, E>)
    ensures
        r is Ok ==> res == Ok::<V, E>(r->Ok_0),
        r is Err ==> (res matches Err(E::ReadDirError { dirpath, entry_pos, eno }) && dirpath@
            == abs_path@ && entry_pos == pos && eno == r->Err_0),
{
    match r {
        Ok(v) => Ok(v),
        Err(e) => Err(
            E::ReadDirError { dirpath: vstd::slice::slice_to_vec(abs_path), entry_pos: pos, eno: e },
        ),
    }
}

/// Tags a failure of std's I/O, such as writing the output.
pub fn maybe_generic_io_error<V>(r: Result<V, std::io::Error>) -> (res: Result<V, E>)
    ensures
        r is Ok ==> res == Ok::<V, E>(r->Ok_0),
        r is Err ==> res == Err::<V, E>(E::GenericIOError { eno: r->Err_0 }),
{
    match r {
        Ok(v) => Ok(v),
        Err(e) => Err(E::GenericIOError { eno: e }),
    }
}

} // verus!
