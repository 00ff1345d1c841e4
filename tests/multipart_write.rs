use std::cell::{Cell, RefCell};

use opendal::buffer::Buffer;
use opendal::error::{Error, ErrorKind};
use opendal::multipart::{MultipartWrite, MultipartWriter};
use opendal::types::{Metadata, MultipartPart};

/// A small deterministic generator standing in for a random source.
struct Lcg(Cell<u64>);

impl Lcg {
    fn new(seed: u64) -> Self {
        Lcg(Cell::new(seed))
    }

    fn next(&self) -> u64 {
        let v = self
            .0
            .get()
            .wrapping_mul(6364136223846793005)
            .wrapping_add(1442695040888963407);
        self.0.set(v);
        v >> 33
    }

    fn gen_range(&self, lo: u64, hi: u64) -> u64 {
        lo + self.next() % (hi - lo)
    }

    /// True one time in `n`, on average.
    fn one_in(&self, n: u64) -> bool {
        self.next() % n == 0
    }
}

#[derive(Debug, Clone, PartialEq)]
enum Event {
    WriteOnce(u64, Vec<u8>),
    Initiate,
    WritePart(String, usize, u64, Vec<u8>),
    Complete(String, Vec<usize>),
    Abort(String),
}

struct TestWrite {
    upload_id: String,
    part_numbers: RefCell<Vec<usize>>,
    length: Cell<u64>,
    content: RefCell<Option<Vec<u8>>>,
    events: RefCell<Vec<Event>>,
    rng: Lcg,
    flaky: bool,
}

impl TestWrite {
    fn new(seed: u64, flaky: bool) -> Self {
        TestWrite {
            upload_id: format!("upload-{seed}"),
            part_numbers: RefCell::new(Vec::new()),
            length: Cell::new(0),
            content: RefCell::new(None),
            events: RefCell::new(Vec::new()),
            rng: Lcg::new(seed),
            flaky,
        }
    }

    fn fails(&self) -> bool {
        self.flaky && self.rng.one_in(10)
    }
}

fn monkey() -> Error {
    Error::new(ErrorKind::Unexpected, "I'm a crazy monkey!").set_temporary()
}

impl MultipartWrite for TestWrite {
    fn write_once(&self, size: u64, body: Buffer) -> Result<Metadata, Error> {
        self.events
            .borrow_mut()
            .push(Event::WriteOnce(size, body.to_vec()));
        if self.fails() {
            return Err(monkey());
        }
        self.length.set(size);
        *self.content.borrow_mut() = Some(body.to_vec());
        Ok(Metadata::with_content_length(size))
    }

    fn initiate_part(&self) -> Result<String, Error> {
        self.events.borrow_mut().push(Event::Initiate);
        Ok(self.upload_id.clone())
    }

    fn write_part(
        &self,
        upload_id: &str,
        part_number: usize,
        size: u64,
        body: Buffer,
    ) -> Result<MultipartPart, Error> {
        assert_eq!(upload_id, self.upload_id);
        self.events.borrow_mut().push(Event::WritePart(
            upload_id.to_string(),
            part_number,
            size,
            body.to_vec(),
        ));
        if self.fails() {
            return Err(monkey());
        }
        self.part_numbers.borrow_mut().push(part_number);
        self.length.set(self.length.get() + size);
        let mut content = self.content.borrow_mut();
        content.get_or_insert_with(Vec::new).extend(body.to_vec());
        Ok(MultipartPart {
            part_number,
            etag: "etag".to_string(),
            checksum: None,
        })
    }

    fn complete_part(&self, upload_id: &str, parts: &[MultipartPart]) -> Result<Metadata, Error> {
        assert_eq!(upload_id, self.upload_id);
        assert_eq!(parts.len(), self.part_numbers.borrow().len());
        self.events.borrow_mut().push(Event::Complete(
            upload_id.to_string(),
            parts.iter().map(|p| p.part_number).collect(),
        ));
        Ok(Metadata::with_content_length(self.length.get()))
    }

    fn abort_part(&self, upload_id: &str) -> Result<(), Error> {
        assert_eq!(upload_id, self.upload_id);
        self.events
            .borrow_mut()
            .push(Event::Abort(upload_id.to_string()));
        Ok(())
    }
}

fn buf(bs: &[u8]) -> Buffer {
    Buffer::from_vec(bs.to_vec())
}

#[test]
fn test_multipart_upload_writer_with_concurrent_errors() {
    let rng = Lcg::new(7);
    let mut w = MultipartWriter::new(TestWrite::new(11, true), 200);
    let mut total_size = 0u64;
    let mut all = Vec::new();

    for _ in 0..1000 {
        let size = rng.gen_range(1, 1024) as usize;
        total_size += size as u64;
        let bs: Vec<u8> = (0..size).map(|_| rng.next() as u8).collect();
        all.extend_from_slice(&bs);
        loop {
            match w.write(buf(&bs)) {
                Ok(_) => break,
                Err(_) => continue,
            }
        }
    }

    loop {
        match w.close() {
            Ok(_) => break,
            Err(_) => continue,
        }
    }

    let actual_parts: Vec<_> = w.parts_collected().iter().map(|v| v.part_number).collect();
    let expected_parts: Vec<_> = (0..1000).collect();
    assert_eq!(actual_parts, expected_parts);

    let actual_size = w.inner().length.get();
    assert_eq!(actual_size, total_size);
    assert_eq!(w.inner().content.borrow().clone().unwrap(), all);
}

#[test]
fn test_multipart_writer_with_retry_when_write_once_error() {
    let rng = Lcg::new(3);
    for round in 0..100 {
        let mut w = MultipartWriter::new(TestWrite::new(round, true), 200);
        let size = rng.gen_range(1, 1024) as usize;
        let bs: Vec<u8> = (0..size).map(|_| rng.next() as u8).collect();

        loop {
            match w.write(buf(&bs)) {
                Ok(_) => break,
                Err(_) => continue,
            }
        }

        loop {
            match w.close() {
                Ok(_) => break,
                Err(_) => continue,
            }
        }

        let inner = w.inner();
        assert_eq!(inner.length.get(), size as u64);
        assert!(inner.content.borrow().is_some());
        assert_eq!(inner.content.borrow().clone().unwrap(), bs);
    }
}

#[test]
fn single_shot_write_calls_write_once_only() {
    let mut w = MultipartWriter::new(TestWrite::new(1, false), 4);
    w.write(buf(&[0x61, 0x62, 0x63])).unwrap();
    let meta = w.close().unwrap();
    assert_eq!(meta.content_length, 3);
    let events = w.inner().events.borrow().clone();
    assert_eq!(events, vec![Event::WriteOnce(3, b"abc".to_vec())]);
}

#[test]
fn two_part_write_uploads_parts_in_order() {
    let mut w = MultipartWriter::new(TestWrite::new(2, false), 4);
    w.write(buf(b"aa")).unwrap();
    w.write(buf(b"bb")).unwrap();
    let meta = w.close().unwrap();
    assert_eq!(meta.content_length, 4);
    let id = "upload-2".to_string();
    let events = w.inner().events.borrow().clone();
    assert_eq!(
        events,
        vec![
            Event::Initiate,
            Event::WritePart(id.clone(), 0, 2, b"aa".to_vec()),
            Event::WritePart(id.clone(), 1, 2, b"bb".to_vec()),
            Event::Complete(id, vec![0, 1]),
        ]
    );
    assert_eq!(w.inner().content.borrow().clone().unwrap(), b"aabb".to_vec());
}

#[test]
fn empty_close_writes_empty_object() {
    let mut w = MultipartWriter::new(TestWrite::new(4, false), 1);
    let meta = w.close().unwrap();
    assert_eq!(meta.content_length, 0);
    let events = w.inner().events.borrow().clone();
    assert_eq!(events, vec![Event::WriteOnce(0, Vec::new())]);
}

#[test]
fn abort_after_two_chunks_aborts_upload() {
    let mut w = MultipartWriter::new(TestWrite::new(5, false), 4);
    w.write(Buffer::from_vec(vec![1u8; 64 * 1024])).unwrap();
    w.write(Buffer::from_vec(vec![2u8; 64 * 1024])).unwrap();
    w.abort().unwrap();
    let events = w.inner().events.borrow().clone();
    assert_eq!(events.first(), Some(&Event::Initiate));
    assert_eq!(events.last(), Some(&Event::Abort("upload-5".to_string())));
    assert!(!events.iter().any(|e| matches!(e, Event::Complete(..))));
}

#[test]
fn abort_without_upload_is_noop() {
    let mut w = MultipartWriter::new(TestWrite::new(6, false), 4);
    w.write(buf(b"x")).unwrap();
    w.abort().unwrap();
    assert!(w.inner().events.borrow().is_empty());
    // The cached chunk is still there: closing commits it.
    w.close().unwrap();
    assert_eq!(w.inner().content.borrow().clone().unwrap(), b"x".to_vec());
}

struct FailOnce {
    inner: TestWrite,
    failed: Cell<bool>,
}

impl MultipartWrite for FailOnce {
    fn write_once(&self, size: u64, body: Buffer) -> Result<Metadata, Error> {
        if !self.failed.get() {
            self.failed.set(true);
            return Err(monkey());
        }
        self.inner.write_once(size, body)
    }

    fn initiate_part(&self) -> Result<String, Error> {
        self.inner.initiate_part()
    }

    fn write_part(
        &self,
        upload_id: &str,
        part_number: usize,
        size: u64,
        body: Buffer,
    ) -> Result<MultipartPart, Error> {
        self.inner.write_part(upload_id, part_number, size, body)
    }

    fn complete_part(&self, upload_id: &str, parts: &[MultipartPart]) -> Result<Metadata, Error> {
        self.inner.complete_part(upload_id, parts)
    }

    fn abort_part(&self, upload_id: &str) -> Result<(), Error> {
        self.inner.abort_part(upload_id)
    }
}

#[test]
fn failed_close_keeps_cache_for_retry() {
    let backend = FailOnce {
        inner: TestWrite::new(8, false),
        failed: Cell::new(false),
    };
    let mut w = MultipartWriter::new(backend, 2);
    w.write(buf(b"hello")).unwrap();
    let err = w.close().unwrap_err();
    assert!(err.is_temporary());
    assert_eq!(err.kind(), ErrorKind::Unexpected);
    let meta = w.close().unwrap();
    assert_eq!(meta.content_length, 5);
    assert_eq!(
        w.inner().inner.content.borrow().clone().unwrap(),
        b"hello".to_vec()
    );
}

#[test]
fn write_after_multipart_close_is_rejected() {
    let mut w = MultipartWriter::new(TestWrite::new(9, false), 2);
    w.write(buf(b"a")).unwrap();
    w.write(buf(b"b")).unwrap();
    w.close().unwrap();
    let err = w.write(buf(b"c")).unwrap_err();
    assert_eq!(err.kind(), ErrorKind::Unexpected);
}

#[test]
fn many_parts_with_small_pool_keep_order() {
    let mut w = MultipartWriter::new(TestWrite::new(10, false), 1);
    for i in 0..20u8 {
        w.write(buf(&[i])).unwrap();
    }
    w.close().unwrap();
    let parts: Vec<_> = w.parts_collected().iter().map(|p| p.part_number).collect();
    assert_eq!(parts, (0..20).collect::<Vec<_>>());
    assert_eq!(
        w.inner().content.borrow().clone().unwrap(),
        (0..20u8).collect::<Vec<_>>()
    );
}
