use vstd::prelude::*;

use crate::error::Error;
use crate::oio::{Delete, List, Read, Write};
use crate::types::Metadata;

verus! {

/// The operations an accessor supports, and with which options.
#[derive(Clone, Copy, Debug, PartialEq, Eq, Structural)]
pub struct Capability {
    pub stat: bool,
    pub stat_with_if_match: bool,
    pub stat_with_if_none_match: bool,
    pub read: bool,
    pub read_with_if_match: bool,
    pub read_with_if_none_match: bool,
    pub write: bool,
    pub write_can_empty: bool,
    pub write_can_multi: bool,
    pub write_multi_min_size: Option<usize>,
    pub write_multi_max_size: Option<usize>,
    pub write_with_if_not_exists: bool,
    pub create_dir: bool,
    pub delete: bool,
    pub delete_max_size: Option<usize>,
    pub copy: bool,
    pub rename: bool,
    pub list: bool,
    pub list_with_limit: bool,
    pub list_with_start_after: bool,
    pub list_with_recursive: bool,
    pub presign: bool,
    pub presign_stat: bool,
    pub presign_read: bool,
    pub presign_write: bool,
    pub shared: bool,
}

/// What an accessor describes of itself, as mathematical values.
pub struct AccessorInfoView {
    pub scheme: Seq<char>,
    pub name: Seq<char>,
    pub root: Seq<char>,
    pub capability: Capability,
}

/// The descriptor of a backend: scheme, instance name, root and capability.
pub struct AccessorInfo {
    scheme: String,
    name: String,
    root: String,
    capability: Capability,
}

impl View for AccessorInfo {
    type V = AccessorInfoView;

    closed spec fn view(&self) -> AccessorInfoView {
        AccessorInfoView {
            scheme: self.scheme@,
            name: self.name@,
            root: self.root@,
            capability: self.capability,
        }
    }
}

impl AccessorInfo {
    pub fn new(scheme: &str, name: &str, root: &str, capability: Capability) -> (r: AccessorInfo)
        ensures
            r@.scheme == scheme@,
            r@.name == name@,
            r@.root == root@,
            r@.capability == capability,
    {
        AccessorInfo {
            scheme: scheme.to_string(),
            name: name.to_string(),
            root: root.to_string(),
            capability,
        }
    }

    pub fn scheme(&self) -> (r: &str)
        ensures
            r@ == self@.scheme,
    {
        self.scheme.as_str()
    }

    pub fn name(&self) -> (r: &str)
        ensures
            r@ == self@.name,
    {
        self.name.as_str()
    }

    pub fn root(&self) -> (r: &str)
        ensures
            r@ == self@.root,
    {
        self.root.as_str()
    }

    pub fn capability(&self) -> (r: Capability)
        ensures
            r == self@.capability,
    {
        self.capability
    }

    /// A second descriptor with the same contents.
    pub fn duplicate(&self) -> (r: AccessorInfo)
        ensures
            r@ == self@,
    {
        AccessorInfo {
            scheme: self.scheme.clone(),
            name: self.name.clone(),
            root: self.root.clone(),
            capability: self.capability,
        }
    }
}

#[derive(Clone, Debug, Default)]
pub struct OpCreateDir {}

#[derive(Clone, Debug, Default)]
pub struct OpStat {
    pub if_match: Option<String>,
    pub if_none_match: Option<String>,
    pub version: Option<String>,
}

#[derive(Clone, Debug, Default)]
pub struct OpRead {
    pub offset: u64,
    pub size: Option<u64>,
    pub if_match: Option<String>,
    pub if_none_match: Option<String>,
}

#[derive(Clone, Debug, Default)]
pub struct OpWrite {
    pub concurrent: usize,
    pub content_type: Option<String>,
    pub content_encoding: Option<String>,
    pub cache_control: Option<String>,
    pub if_not_exists: bool,
}

#[derive(Clone, Debug, Default)]
pub struct OpCopy {}

#[derive(Clone, Debug, Default)]
pub struct OpRename {}

#[derive(Clone, Debug, Default)]
pub struct OpList {
    pub recursive: bool,
    pub limit: Option<usize>,
    pub start_after: Option<String>,
}

/// Which request a presign produces.
#[derive(Clone, Copy, Debug, PartialEq, Eq, Structural)]
pub enum PresignOperation {
    Stat,
    Read,
    Write,
    Delete,
}

#[derive(Clone, Debug)]
pub struct OpPresign {
    pub operation: PresignOperation,
    pub expire_secs: u64,
}

#[derive(Clone, Debug, Default)]
pub struct RpCreateDir {}

#[derive(Clone, Debug)]
pub struct RpStat {
    pub metadata: Metadata,
}

#[derive(Clone, Debug, Default)]
pub struct RpRead {}

#[derive(Clone, Debug, Default)]
pub struct RpWrite {}

#[derive(Clone, Debug, Default)]
pub struct RpCopy {}

#[derive(Clone, Debug, Default)]
pub struct RpRename {}

#[derive(Clone, Debug, Default)]
pub struct RpDelete {}

#[derive(Clone, Debug, Default)]
pub struct RpList {}

/// A signed request that a caller can send to the backend directly.
#[derive(Clone, Debug)]
pub struct RpPresign {
    pub method: String,
    pub uri: String,
    pub headers: Vec<(String, String)>,
}

/// The operations every backend and every layer offers.
///
/// Each operation comes with a relation between its arguments and its
/// result. A backend leaves it open (anything may come back); a layer ties
/// it to the relation of the accessor it wraps.
pub trait Access {
    type Reader: Read;

    type Writer: Write;

    type Lister: List;

    type Deleter: Delete;

    open spec fn info_post(&self, r: AccessorInfoView) -> bool {
        true
    }

    fn info(&self) -> (r: &AccessorInfo)
        ensures
            self.info_post(r@),
    ;

    open spec fn create_dir_post(
        &self,
        path: Seq<char>,
        args: OpCreateDir,
        r: Result<RpCreateDir, Error>,
    ) -> bool {
        true
    }

    fn create_dir(&self, path: &str, args: OpCreateDir) -> (r: Result<RpCreateDir, Error>)
        ensures
            self.create_dir_post(path@, args, r),
    ;

    open spec fn stat_post(&self, path: Seq<char>, args: OpStat, r: Result<RpStat, Error>) -> bool {
        true
    }

    fn stat(&self, path: &str, args: OpStat) -> (r: Result<RpStat, Error>)
        ensures
            self.stat_post(path@, args, r),
    ;

    open spec fn read_post(
        &self,
        path: Seq<char>,
        args: OpRead,
        r: Result<(RpRead, Self::Reader), Error>,
    ) -> bool {
        true
    }

    fn read(&self, path: &str, args: OpRead) -> (r: Result<(RpRead, Self::Reader), Error>)
        ensures
            self.read_post(path@, args, r),
    ;

    open spec fn write_post(
        &self,
        path: Seq<char>,
        args: OpWrite,
        r: Result<(RpWrite, Self::Writer), Error>,
    ) -> bool {
        true
    }

    fn write(&self, path: &str, args: OpWrite) -> (r: Result<(RpWrite, Self::Writer), Error>)
        ensures
            self.write_post(path@, args, r),
            r is Ok ==> r->Ok_0.1.inv(),
    ;

    open spec fn copy_post(
        &self,
        from: Seq<char>,
        to: Seq<char>,
        args: OpCopy,
        r: Result<RpCopy, Error>,
    ) -> bool {
        true
    }

    fn copy(&self, from: &str, to: &str, args: OpCopy) -> (r: Result<RpCopy, Error>)
        ensures
            self.copy_post(from@, to@, args, r),
    ;

    open spec fn rename_post(
        &self,
        from: Seq<char>,
        to: Seq<char>,
        args: OpRename,
        r: Result<RpRename, Error>,
    ) -> bool {
        true
    }

    fn rename(&self, from: &str, to: &str, args: OpRename) -> (r: Result<RpRename, Error>)
        ensures
            self.rename_post(from@, to@, args, r),
    ;

    open spec fn delete_post(&self, r: Result<(RpDelete, Self::Deleter), Error>) -> bool {
        true
    }

    fn delete(&self) -> (r: Result<(RpDelete, Self::Deleter), Error>)
        ensures
            self.delete_post(r),
    ;

    open spec fn list_post(
        &self,
        path: Seq<char>,
        args: OpList,
        r: Result<(RpList, Self::Lister), Error>,
    ) -> bool {
        true
    }

    fn list(&self, path: &str, args: OpList) -> (r: Result<(RpList, Self::Lister), Error>)
        ensures
            self.list_post(path@, args, r),
    ;

    open spec fn presign_post(
        &self,
        path: Seq<char>,
        args: OpPresign,
        r: Result<RpPresign, Error>,
    ) -> bool {
        true
    }

    fn presign(&self, path: &str, args: OpPresign) -> (r: Result<RpPresign, Error>)
        ensures
            self.presign_post(path@, args, r),
    ;
}

/// Wraps an accessor into another one with added behaviour.
pub trait Layer<A: Access> {
    type LayeredAccess: Access;

    /// How the wrapped accessor relates to the one it wraps.
    open spec fn layer_post(&self, inner: A, r: Self::LayeredAccess) -> bool {
        true
    }

    fn layer(&self, inner: A) -> (r: Self::LayeredAccess)
        ensures
            self.layer_post(inner, r),
    ;
}

} // verus!
