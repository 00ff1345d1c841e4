use std::cell::RefCell;
use std::rc::Rc;

use opendal::buffer::Buffer;
use opendal::error::{Error, ErrorKind};
use opendal::logging::{DefaultLoggingInterceptor, Level, LoggingInterceptor, LoggingLayer};
use opendal::oio::{Delete, Entry, List, OpDelete, Read, Write};
use opendal::raw::{
    Access, AccessorInfo, Capability, Layer, OpCopy, OpCreateDir, OpList, OpPresign, OpRead,
    OpRename, OpStat, OpWrite, PresignOperation, RpCopy, RpCreateDir, RpDelete, RpList,
    RpPresign, RpRead, RpRename, RpStat, RpWrite,
};
use opendal::types::{Metadata, Operation};

type Store = Rc<RefCell<Vec<(String, Vec<u8>)>>>;

fn capability() -> Capability {
    Capability {
        stat: true,
        stat_with_if_match: false,
        stat_with_if_none_match: false,
        read: true,
        read_with_if_match: false,
        read_with_if_none_match: false,
        write: true,
        write_can_empty: true,
        write_can_multi: false,
        write_multi_min_size: None,
        write_multi_max_size: None,
        write_with_if_not_exists: false,
        create_dir: true,
        delete: true,
        delete_max_size: Some(100),
        copy: true,
        rename: false,
        list: true,
        list_with_limit: false,
        list_with_start_after: false,
        list_with_recursive: false,
        presign: false,
        presign_stat: false,
        presign_read: false,
        presign_write: false,
        shared: false,
    }
}

struct Memory {
    info: AccessorInfo,
    store: Store,
}

impl Memory {
    fn new() -> Self {
        Memory {
            info: AccessorInfo::new("memory", "test", "/", capability()),
            store: Rc::new(RefCell::new(Vec::new())),
        }
    }

    fn get(&self, path: &str) -> Option<Vec<u8>> {
        self.store
            .borrow()
            .iter()
            .find(|(p, _)| p == path)
            .map(|(_, v)| v.clone())
    }

    fn put(store: &Store, path: &str, data: Vec<u8>) {
        let mut s = store.borrow_mut();
        s.retain(|(p, _)| p != path);
        s.push((path.to_string(), data));
    }
}

fn not_found() -> Error {
    Error::new(ErrorKind::NotFound, "object not found")
}

struct MemReader {
    data: Vec<u8>,
    chunk: usize,
}

impl Read for MemReader {
    fn read(&mut self) -> Result<Buffer, Error> {
        let n = self.chunk.min(self.data.len());
        let rest = self.data.split_off(n);
        let out = std::mem::replace(&mut self.data, rest);
        Ok(Buffer::from_vec(out))
    }
}

struct MemWriter {
    store: Store,
    path: String,
    data: Vec<u8>,
}

impl Write for MemWriter {
    fn write(&mut self, bs: Buffer) -> Result<(), Error> {
        self.data.extend(bs.to_vec());
        Ok(())
    }

    fn close(&mut self) -> Result<Metadata, Error> {
        Memory::put(&self.store, &self.path, self.data.clone());
        Ok(Metadata::with_content_length(self.data.len() as u64))
    }

    fn abort(&mut self) -> Result<(), Error> {
        self.data.clear();
        Ok(())
    }
}

struct MemLister {
    entries: Vec<String>,
}

impl List for MemLister {
    fn next(&mut self) -> Result<Option<Entry>, Error> {
        if self.entries.is_empty() {
            return Ok(None);
        }
        let path = self.entries.remove(0);
        Ok(Some(Entry {
            path,
            metadata: Metadata::with_content_length(0),
        }))
    }
}

struct MemDeleter {
    store: Store,
    pending: Vec<String>,
}

impl Delete for MemDeleter {
    fn delete(&mut self, path: &str, _: OpDelete) -> Result<(), Error> {
        if path.is_empty() {
            return Err(Error::new(ErrorKind::ConfigInvalid, "empty path"));
        }
        self.pending.push(path.to_string());
        Ok(())
    }

    fn flush(&mut self) -> Result<usize, Error> {
        let n = self.pending.len();
        let mut s = self.store.borrow_mut();
        for p in self.pending.drain(..) {
            s.retain(|(q, _)| *q != p);
        }
        Ok(n)
    }
}

impl Access for Memory {
    type Reader = MemReader;
    type Writer = MemWriter;
    type Lister = MemLister;
    type Deleter = MemDeleter;

    fn info(&self) -> &AccessorInfo {
        &self.info
    }

    fn create_dir(&self, path: &str, _: OpCreateDir) -> Result<RpCreateDir, Error> {
        Memory::put(&self.store, path, Vec::new());
        Ok(RpCreateDir {})
    }

    fn stat(&self, path: &str, _: OpStat) -> Result<RpStat, Error> {
        match self.get(path) {
            Some(v) => Ok(RpStat {
                metadata: Metadata::with_content_length(v.len() as u64),
            }),
            None => Err(not_found()),
        }
    }

    fn read(&self, path: &str, _: OpRead) -> Result<(RpRead, MemReader), Error> {
        match self.get(path) {
            Some(data) => Ok((RpRead {}, MemReader { data, chunk: 16 })),
            None => Err(not_found()),
        }
    }

    fn write(&self, path: &str, _: OpWrite) -> Result<(RpWrite, MemWriter), Error> {
        Ok((
            RpWrite {},
            MemWriter {
                store: self.store.clone(),
                path: path.to_string(),
                data: Vec::new(),
            },
        ))
    }

    fn copy(&self, from: &str, to: &str, _: OpCopy) -> Result<RpCopy, Error> {
        let v = self.get(from).ok_or_else(not_found)?;
        Memory::put(&self.store, to, v);
        Ok(RpCopy {})
    }

    fn rename(&self, _: &str, _: &str, _: OpRename) -> Result<RpRename, Error> {
        Err(Error::new(ErrorKind::Unsupported, "rename is not supported"))
    }

    fn delete(&self) -> Result<(RpDelete, MemDeleter), Error> {
        Ok((
            RpDelete {},
            MemDeleter {
                store: self.store.clone(),
                pending: Vec::new(),
            },
        ))
    }

    fn list(&self, path: &str, _: OpList) -> Result<(RpList, MemLister), Error> {
        let entries = self
            .store
            .borrow()
            .iter()
            .filter(|(p, _)| p.starts_with(path))
            .map(|(p, _)| p.clone())
            .collect();
        Ok((RpList {}, MemLister { entries }))
    }

    fn presign(&self, _: &str, _: OpPresign) -> Result<RpPresign, Error> {
        Err(Error::new(ErrorKind::Unsupported, "presign is not supported"))
    }
}

#[derive(Debug, Clone, PartialEq)]
struct Logged {
    operation: Operation,
    context: Vec<(String, String)>,
    message: String,
    error: Option<ErrorKind>,
}

#[derive(Clone, Default)]
struct Recorder {
    events: Rc<RefCell<Vec<Logged>>>,
}

impl LoggingInterceptor for Recorder {
    fn log(
        &self,
        _: &AccessorInfo,
        operation: Operation,
        context: &[(&str, &str)],
        message: &str,
        err: Option<&Error>,
    ) {
        self.events.borrow_mut().push(Logged {
            operation,
            context: context
                .iter()
                .map(|(k, v)| (k.to_string(), v.to_string()))
                .collect(),
            message: message.to_string(),
            error: err.map(|e| e.kind()),
        });
    }
}

impl Recorder {
    fn messages(&self) -> Vec<(Operation, String)> {
        self.events
            .borrow()
            .iter()
            .map(|e| (e.operation, e.message.clone()))
            .collect()
    }
}

fn ctx(pairs: &[(&str, &str)]) -> Vec<(String, String)> {
    pairs
        .iter()
        .map(|(k, v)| (k.to_string(), v.to_string()))
        .collect()
}

fn layered() -> (opendal::logging::LoggingAccessor<Memory, Recorder>, Recorder, Store) {
    let backend = Memory::new();
    let store = backend.store.clone();
    let rec = Recorder::default();
    let acc = LoggingLayer::new(rec.clone()).layer(backend);
    (acc, rec, store)
}

#[test]
fn logging_read_of_ten_bytes() {
    let (acc, rec, store) = layered();
    Memory::put(&store, "obj", b"0123456789".to_vec());
    let (_, mut r) = acc.read("obj", OpRead::default()).unwrap();
    let mut got = Vec::new();
    loop {
        let bs = r.read().unwrap();
        if bs.is_empty() {
            break;
        }
        got.extend(bs.to_vec());
    }
    assert_eq!(got, b"0123456789".to_vec());
    assert_eq!(
        rec.messages(),
        vec![
            (Operation::Read, "started".to_string()),
            (Operation::Read, "created reader".to_string()),
            (Operation::Read, "finished".to_string()),
        ]
    );
    let last = rec.events.borrow().last().unwrap().clone();
    assert_eq!(
        last.context,
        ctx(&[("path", "obj"), ("read", "10"), ("size", "0")])
    );
    assert_eq!(r.read_bytes(), 10);
}

#[test]
fn logging_keeps_results_and_errors() {
    let (acc, rec, store) = layered();
    Memory::put(&store, "a", b"xyz".to_vec());
    let st = acc.stat("a", OpStat::default()).unwrap();
    assert_eq!(st.metadata.content_length, 3);
    let err = acc.stat("missing", OpStat::default()).unwrap_err();
    assert_eq!(err.kind(), ErrorKind::NotFound);
    let err = acc.rename("a", "b", OpRename::default()).unwrap_err();
    assert_eq!(err.kind(), ErrorKind::Unsupported);
    acc.copy("a", "c", OpCopy::default()).unwrap();
    acc.create_dir("dir/", OpCreateDir::default()).unwrap();
    let err = acc
        .presign(
            "a",
            OpPresign {
                operation: PresignOperation::Read,
                expire_secs: 60,
            },
        )
        .unwrap_err();
    assert_eq!(err.kind(), ErrorKind::Unsupported);
    assert_eq!(
        rec.messages(),
        vec![
            (Operation::Stat, "started".to_string()),
            (Operation::Stat, "finished".to_string()),
            (Operation::Stat, "started".to_string()),
            (Operation::Stat, "failed".to_string()),
            (Operation::Rename, "started".to_string()),
            (Operation::Rename, "failed".to_string()),
            (Operation::Copy, "started".to_string()),
            (Operation::Copy, "finished".to_string()),
            (Operation::CreateDir, "started".to_string()),
            (Operation::CreateDir, "finished".to_string()),
            (Operation::Presign, "started".to_string()),
            (Operation::Presign, "failed".to_string()),
        ]
    );
    let events = rec.events.borrow();
    assert_eq!(events[3].error, Some(ErrorKind::NotFound));
    assert_eq!(events[6].context, ctx(&[("from", "a"), ("to", "c")]));
}

#[test]
fn logging_writer_counts_and_round_trips() {
    let (acc, rec, _) = layered();
    let (_, mut w) = acc.write("f", OpWrite::default()).unwrap();
    w.write(Buffer::from_vec(b"hello ".to_vec())).unwrap();
    w.write(Buffer::from_vec(b"world".to_vec())).unwrap();
    assert_eq!(w.written_bytes(), 11);
    let meta = w.close().unwrap();
    assert_eq!(meta.content_length, 11);
    let last = rec.events.borrow().last().unwrap().clone();
    assert_eq!(last.message, "close succeeded");
    assert_eq!(last.context, ctx(&[("path", "f"), ("written", "11")]));

    let (_, mut r) = acc.read("f", OpRead::default()).unwrap();
    let mut got = Vec::new();
    loop {
        let bs = r.read().unwrap();
        if bs.is_empty() {
            break;
        }
        got.extend(bs.to_vec());
    }
    assert_eq!(got, b"hello world".to_vec());
}

#[test]
fn logging_writer_abort() {
    let (acc, rec, _) = layered();
    let (_, mut w) = acc.write("g", OpWrite::default()).unwrap();
    w.write(Buffer::from_vec(vec![1, 2, 3])).unwrap();
    w.abort().unwrap();
    let last = rec.events.borrow().last().unwrap().clone();
    assert_eq!(last.message, "abort succeeded");
    assert_eq!(last.context, ctx(&[("path", "g"), ("written", "3")]));
}

#[test]
fn logging_lister_counts_entries() {
    let (acc, rec, store) = layered();
    Memory::put(&store, "d/1", vec![]);
    Memory::put(&store, "d/2", vec![]);
    Memory::put(&store, "e/3", vec![]);
    let (_, mut l) = acc.list("d/", OpList::default()).unwrap();
    let mut names = Vec::new();
    while let Some(e) = l.next().unwrap() {
        names.push(e.path);
    }
    assert_eq!(names, vec!["d/1".to_string(), "d/2".to_string()]);
    assert_eq!(l.listed_entries(), 2);
    let events = rec.events.borrow();
    assert_eq!(events[1].message, "created lister");
    let last = events.last().unwrap();
    assert_eq!(last.message, "finished");
    assert_eq!(last.context, ctx(&[("path", "d/"), ("listed", "2")]));
}

#[test]
fn logging_deleter_moves_queued_to_deleted() {
    let (acc, rec, store) = layered();
    Memory::put(&store, "x", vec![1]);
    Memory::put(&store, "y", vec![2]);
    let (_, mut d) = acc.delete().unwrap();
    d.delete("x", OpDelete::default()).unwrap();
    d.delete(
        "y",
        OpDelete {
            version: Some("v1".to_string()),
        },
    )
    .unwrap();
    assert_eq!(d.queued(), 2);
    let err = d.delete("", OpDelete::default()).unwrap_err();
    assert_eq!(err.kind(), ErrorKind::ConfigInvalid);
    assert_eq!(d.queued(), 2);
    assert_eq!(d.flush().unwrap(), 2);
    assert_eq!(d.queued(), 0);
    assert_eq!(d.deleted(), 2);
    assert!(store.borrow().is_empty());
    let events = rec.events.borrow();
    let failed = events.iter().find(|e| e.message == "failed").unwrap();
    assert_eq!(
        failed.context,
        ctx(&[
            ("path", ""),
            ("version", "<latest>"),
            ("queued", "2"),
            ("deleted", "0")
        ])
    );
    let last = events.last().unwrap();
    assert_eq!(last.message, "succeeded");
    assert_eq!(last.context, ctx(&[("queued", "0"), ("deleted", "2")]));
}

#[test]
fn logging_read_failure_is_forwarded() {
    let (acc, rec, _) = layered();
    let err = acc.read("nothing", OpRead::default()).err().unwrap();
    assert_eq!(err.kind(), ErrorKind::NotFound);
    assert_eq!(rec.events.borrow().last().unwrap().message, "failed");
}

#[test]
fn default_interceptor_levels_and_lines() {
    let info = AccessorInfo::new("s3", "bucket", "/", capability());
    let li = DefaultLoggingInterceptor;
    let recs = li.records(&info, Operation::Stat, &[("path", "a/b")], "started", None);
    assert_eq!(
        recs,
        vec![(
            Level::Debug,
            "service=s3 name=bucket path=a/b: stat started".to_string()
        )]
    );
    let e = Error::new(ErrorKind::Unexpected, "boom").with_context("upload_id", "u1".to_string());
    let recs = li.records(&info, Operation::Write, &[("path", "f")], "failed", Some(&e));
    assert_eq!(recs.len(), 2);
    assert_eq!(recs[0].0, Level::Error);
    assert_eq!(
        recs[0].1,
        "service=s3 name=bucket path=f: write failed Unexpected => boom upload_id=u1"
    );
    assert_eq!(recs[1].0, Level::Debug);
    let e = Error::new(ErrorKind::NotFound, "gone");
    let recs = li.records(&info, Operation::Read, &[], "failed", Some(&e));
    assert_eq!(recs[0].0, Level::Warn);
    assert_eq!(
        recs[0].1,
        "service=s3 name=bucket: read failed NotFound => gone"
    );
}
