use vstd::prelude::*;
use crate::constants::{
    HS_DB_PLATFORM_ERROR, HS_DB_VERSION_ERROR, HS_INVALID, HS_NOMEM, HS_SUCCESS,
};
use crate::errors::ErrorKind;

verus! {

/// An owned, contiguous buffer, as a serialized database comes in.
#[derive(Debug, Clone)]
pub struct CBuffer<T> {
    data: Vec<T>,
}

impl<T> View for CBuffer<T> {
    type V = Seq<T>;

    closed spec fn view(&self) -> Seq<T> {
        self.data@
    }
}

impl<T> CBuffer<T> {
    /// Takes the items over as they are.
    pub fn new(data: Vec<T>) -> (r: CBuffer<T>)
        ensures
            r@ == data@,
    {
        CBuffer { data }
    }

    /// The number of items.
    pub fn len(&self) -> (r: usize)
        ensures
            r == self@.len(),
    {
        self.data.len()
    }

    /// The items, in place.
    pub fn as_slice(&self) -> (r: &[T])
        ensures
            r@ == self@,
    {
        self.data.as_slice()
    }

    /// Gives the items back.
    pub fn into_vec(self) -> (r: Vec<T>)
        ensures
            r@ == self@,
    {
        self.data
    }
}

impl<T> AsRef<[T]> for CBuffer<T> {
    fn as_ref(&self) -> (r: &[T])
        ensures
            r@ == self@,
    {
        self.data.as_slice()
    }
}

impl<T> core::ops::Deref for CBuffer<T> {
    type Target = [T];

    fn deref(&self) -> (r: &[T])
        ensures
            r@ == self@,
    {
        self.data.as_slice()
    }
}

/// What a status of the engine means for a call that reads a serialized
/// database: success, or the error that the status stands for. Every status
/// without a meaning of its own says that the buffer is too short or that
/// its header is not valid.
pub open spec fn status_result(status: i32) -> Result<(), ErrorKind> {
    if status == HS_SUCCESS {
        Ok(())
    } else if status == HS_NOMEM {
        Err(ErrorKind::AllocationFailed)
    } else if status == HS_DB_VERSION_ERROR {
        Err(ErrorKind::VersionMismatch)
    } else if status == HS_DB_PLATFORM_ERROR {
        Err(ErrorKind::PlatformMismatch)
    } else {
        Err(ErrorKind::CorruptHeader)
    }
}

/// Reads the status of a call that reads a serialized database.
pub fn serialized_outcome(status: i32) -> (r: Result<(), ErrorKind>)
    ensures
        r == status_result(status),
{
    if status == HS_SUCCESS {
        Ok(())
    } else if status == HS_NOMEM {
        Err(ErrorKind::AllocationFailed)
    } else if status == HS_DB_VERSION_ERROR {
        Err(ErrorKind::VersionMismatch)
    } else if status == HS_DB_PLATFORM_ERROR {
        Err(ErrorKind::PlatformMismatch)
    } else {
        Err(ErrorKind::CorruptHeader)
    }
}

/// The size that the engine reported for a serialized database, where its
/// status says that the header was read; else the error of the status.
pub fn size_outcome(status: i32, size: usize) -> (r: Result<usize, ErrorKind>)
    ensures
        r == match status_result(status) {
            Ok(_) => Ok::<usize, ErrorKind>(size),
            Err(e) => Err::<usize, ErrorKind>(e),
        },
{
    match serialized_outcome(status) {
        Ok(()) => Ok(size),
        Err(e) => Err(e),
    }
}

/// Whether a region of `available` bytes can take a database that needs
/// `required` bytes.
pub fn check_region(required: usize, available: usize) -> (r: Result<(), ErrorKind>)
    ensures
        r == if available >= required {
            Ok::<(), ErrorKind>(())
        } else {
            Err::<(), ErrorKind>(ErrorKind::SizeMismatch)
        },
{
    if available >= required {
        Ok(())
    } else {
        Err(ErrorKind::SizeMismatch)
    }
}

/// No status but success lets a serialized database through: a buffer that
/// the engine does not accept is always answered with an error.
pub proof fn lemma_only_success_is_ok(status: i32)
    ensures
        status_result(status) is Ok <==> status == HS_SUCCESS,
        status == HS_INVALID ==> status_result(status) == Err::<(), ErrorKind>(
            ErrorKind::CorruptHeader,
        ),
{
}

} // verus!
