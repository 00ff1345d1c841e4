use vstd::prelude::*;

use crate::buffer::Buffer;
use crate::error::Error;
use crate::types::Metadata;

verus! {

/// A lazy byte stream. An empty buffer signals the end of the stream.
///
/// `read_rel` relates the reader before a call, the reader after it and
/// what the call returned; it holds of anything unless an implementation
/// says more. The relations of the other stream traits are alike.
pub trait Read: Sized {
    open spec fn read_rel(&self, after: Self, r: Result<Buffer, Error>) -> bool {
        true
    }

    fn read(&mut self) -> (r: Result<Buffer, Error>)
        ensures
            old(self).read_rel(*final(self), r),
    ;
}

/// A sink of chunks, finished by exactly one of `close` or `abort`.
pub trait Write: Sized {
    /// The writer's own well-formedness; none unless an implementation
    /// states one.
    open spec fn inv(&self) -> bool {
        true
    }

    open spec fn write_rel(&self, after: Self, bs: Seq<u8>, r: Result<(), Error>) -> bool {
        true
    }

    fn write(&mut self, bs: Buffer) -> (r: Result<(), Error>)
        requires
            old(self).inv(),
        ensures
            final(self).inv(),
            old(self).write_rel(*final(self), bs@, r),
    ;

    open spec fn close_rel(&self, after: Self, r: Result<Metadata, Error>) -> bool {
        true
    }

    fn close(&mut self) -> (r: Result<Metadata, Error>)
        requires
            old(self).inv(),
        ensures
            final(self).inv(),
            old(self).close_rel(*final(self), r),
    ;

    open spec fn abort_rel(&self, after: Self, r: Result<(), Error>) -> bool {
        true
    }

    fn abort(&mut self) -> (r: Result<(), Error>)
        requires
            old(self).inv(),
        ensures
            final(self).inv(),
            old(self).abort_rel(*final(self), r),
    ;
}

/// One record of a listing.
#[derive(Debug)]
pub struct Entry {
    pub path: String,
    pub metadata: Metadata,
}

/// A finite lazy sequence of entries; `None` ends it.
pub trait List: Sized {
    open spec fn next_rel(&self, after: Self, r: Result<Option<Entry>, Error>) -> bool {
        true
    }

    fn next(&mut self) -> (r: Result<Option<Entry>, Error>)
        ensures
            old(self).next_rel(*final(self), r),
    ;
}

/// Arguments of one deletion.
#[derive(Clone, Debug, Default)]
pub struct OpDelete {
    pub version: Option<String>,
}

/// A batch sink of deletions. `flush` returns how many objects were deleted
/// since the last flush.
pub trait Delete: Sized {
    open spec fn delete_rel(&self, after: Self, path: Seq<char>, args: OpDelete, r: Result<(), Error>) -> bool {
        true
    }

    fn delete(&mut self, path: &str, args: OpDelete) -> (r: Result<(), Error>)
        ensures
            old(self).delete_rel(*final(self), path@, args, r),
    ;

    open spec fn flush_rel(&self, after: Self, r: Result<usize, Error>) -> bool {
        true
    }

    fn flush(&mut self) -> (r: Result<usize, Error>)
        ensures
            old(self).flush_rel(*final(self), r),
    ;
}

/// The version text logged for a deletion: the version asked for, or
/// `<latest>` when none was.
pub open spec fn version_text(args: OpDelete) -> Seq<char> {
    match args.version {
        Some(v) => v@,
        None => "<latest>"@,
    }
}

} // verus!
