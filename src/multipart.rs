use vstd::prelude::*;

use crate::buffer::Buffer;
use crate::error::{Error, ErrorKind, ErrorView};
use crate::oio::Write;
use crate::tasks::{ConcurrentTasks, Task};
use crate::types::{decimal, decimal_string, Metadata, MultipartPart};

verus! {

/// The service-level primitives of a multipart upload protocol.
///
/// A service implements these five calls; [`MultipartWriter`] turns them
/// into a writer that buffers one chunk, uploads a single-shot object when
/// only one chunk was written, and otherwise uploads numbered parts through a
/// bounded pool.
pub trait MultipartWrite {
    /// How `write_once` relates its arguments to its result; open unless
    /// an implementation says more. The same holds of the other `*_post`
    /// relations below.
    open spec fn write_once_post(&self, size: u64, body: Seq<u8>, r: Result<Metadata, Error>) -> bool {
        true
    }

    /// Writes the whole object at once.
    fn write_once(&self, size: u64, body: Buffer) -> (r: Result<Metadata, Error>)
        ensures
            self.write_once_post(size, body@, r),
    ;

    open spec fn initiate_post(&self, r: Result<Seq<char>, Error>) -> bool {
        true
    }

    /// Starts a multipart upload and returns its upload id.
    fn initiate_part(&self) -> (r: Result<String, Error>)
        ensures
            self.initiate_post(id_view(r)),
    ;

    open spec fn write_part_post(
        &self,
        upload_id: Seq<char>,
        part_number: usize,
        size: u64,
        body: Seq<u8>,
        r: Result<MultipartPart, Error>,
    ) -> bool {
        true
    }

    /// Uploads one part. The part that comes back carries the part number
    /// it was asked for, counted from 0.
    fn write_part(&self, upload_id: &str, part_number: usize, size: u64, body: Buffer) -> (r:
        Result<MultipartPart, Error>)
        ensures
            r is Ok ==> r->Ok_0.part_number == part_number,
            self.write_part_post(upload_id@, part_number, size, body@, r),
    ;

    open spec fn complete_post(
        &self,
        upload_id: Seq<char>,
        parts: Seq<MultipartPart>,
        r: Result<Metadata, Error>,
    ) -> bool {
        true
    }

    /// Completes the upload from the ordered list of its parts.
    fn complete_part(&self, upload_id: &str, parts: &[MultipartPart]) -> (r: Result<Metadata, Error>)
        ensures
            self.complete_post(upload_id@, parts@, r),
    ;

    open spec fn abort_post(&self, upload_id: Seq<char>, r: Result<(), Error>) -> bool {
        true
    }

    /// Cancels the upload and purges what was uploaded.
    fn abort_part(&self, upload_id: &str) -> (r: Result<(), Error>)
        ensures
            self.abort_post(upload_id@, r),
    ;
}

/// An upload id result as a mathematical value.
pub open spec fn id_view(r: Result<String, Error>) -> Result<Seq<char>, Error> {
    match r {
        Ok(s) => Ok(s@),
        Err(e) => Err(e),
    }
}

/// A primitive that the writer invoked, other than a part upload.
pub enum Call {
    WriteOnce { size: nat, body: Seq<u8> },
    Initiate,
    Complete { upload_id: Seq<char>, part_numbers: Seq<int> },
    Abort { upload_id: Seq<char> },
}

/// The part numbers `0, 1, ..., n - 1`.
pub open spec fn dense(n: nat) -> Seq<int> {
    Seq::new(n, |i: int| i)
}

/// The part numbers of a list of parts, in its order.
pub open spec fn part_numbers(parts: Seq<MultipartPart>) -> Seq<int> {
    parts.map_values(|p: MultipartPart| p.part_number as int)
}

/// One part upload waiting in the pool.
pub struct WriteInput {
    upload_id: String,
    part_number: usize,
    bytes: Buffer,
}

impl WriteInput {
    pub closed spec fn spec_upload_id(&self) -> Seq<char> {
        self.upload_id@
    }

    pub closed spec fn spec_part_number(&self) -> usize {
        self.part_number
    }

    pub closed spec fn spec_bytes(&self) -> Seq<u8> {
        self.bytes@
    }
}

/// The error `close` returns when the collected parts do not number as
/// many as were submitted.
pub open spec fn mismatch_error(expected: nat, actual: nat, upload_id: Seq<char>) -> ErrorView {
    ErrorView {
        kind: ErrorKind::Unexpected,
        message: "multipart part numbers mismatch"@,
        context: seq![
            ("expected"@, decimal(expected)),
            ("actual"@, decimal(actual)),
            ("upload_id"@, upload_id),
        ],
        temporary: false,
    }
}

fn mismatch(expected: usize, actual: usize, upload_id: String) -> (r: Error)
    ensures
        r@ == mismatch_error(expected as nat, actual as nat, upload_id@),
{
    let e = Error::new(ErrorKind::Unexpected, "multipart part numbers mismatch")
        .with_context("expected", decimal_string(expected as u64))
        .with_context("actual", decimal_string(actual as u64))
        .with_context("upload_id", upload_id);
    proof {
        assert(e@.context =~= mismatch_error(expected as nat, actual as nat, upload_id@).context);
    }
    e
}

/// The error a part upload fails with when the executor's timeout fires
/// before the upload finishes: unexpected, temporary, and naming the upload
/// and the part.
pub fn part_timeout_error(upload_id: &str, part_number: usize) -> (r: Error)
    ensures
        r@.kind == ErrorKind::Unexpected,
        r@.message == "write part timeout"@,
        r@.context == seq![
            ("upload_id"@, upload_id@),
            ("part_number"@, decimal(part_number as nat)),
        ],
        r@.temporary,
{
    let e = Error::new(ErrorKind::Unexpected, "write part timeout")
        .with_context("upload_id", upload_id.to_string())
        .with_context("part_number", decimal_string(part_number as u64))
        .set_temporary();
    proof {
        assert(e@.context =~= seq![
            ("upload_id"@, upload_id@),
            ("part_number"@, decimal(part_number as nat)),
        ]);
    }
    e
}

/// Runs part uploads against a service.
pub struct PartWriter<'a, W> {
    pub w: &'a W,
}

impl<'a, W: MultipartWrite> Task<WriteInput, MultipartPart> for PartWriter<'a, W> {
    /// The part upload was asked of the service with the input's upload id,
    /// part number, size and body, and its outcome is what came back.
    open spec fn ran(&self, input: WriteInput, output: Result<MultipartPart, Error>) -> bool {
        &&& output is Ok ==> output->Ok_0.part_number == input.spec_part_number()
        &&& self.w.write_part_post(
            input.spec_upload_id(),
            input.spec_part_number(),
            input.spec_bytes().len() as u64,
            input.spec_bytes(),
            output,
        )
    }

    fn run(&self, input: &WriteInput) -> (r: Result<MultipartPart, Error>) {
        let size = input.bytes.len() as u64;
        self.w.write_part(input.upload_id.as_str(), input.part_number, size, input.bytes.duplicate())
    }
}

/// A writer built on the multipart primitives of a service.
pub struct MultipartWriter<W> {
    w: W,
    upload_id: Option<String>,
    parts: Vec<MultipartPart>,
    cache: Option<Buffer>,
    next_part_number: usize,
    tasks: ConcurrentTasks<WriteInput, MultipartPart>,
    calls: Ghost<Seq<Call>>,
    submitted: Ghost<Seq<int>>,
    aborted: Ghost<bool>,
    written: Ghost<Seq<u8>>,
    bodies: Ghost<Seq<Seq<u8>>>,
}

impl<W: MultipartWrite> MultipartWriter<W> {
    /// The service this writer drives.
    pub closed spec fn backend(&self) -> W {
        self.w
    }

    /// The upload id, once a multipart upload was started.
    pub closed spec fn upload_id(&self) -> Option<Seq<char>> {
        match self.upload_id {
            Some(id) => Some(id@),
            None => None,
        }
    }

    /// The buffered chunk that is not submitted yet.
    pub closed spec fn cache(&self) -> Option<Seq<u8>> {
        match self.cache {
            Some(b) => Some(b@),
            None => None,
        }
    }

    /// The parts collected from the pool, in submission order.
    pub closed spec fn parts(&self) -> Seq<MultipartPart> {
        self.parts@
    }

    /// The number that the next submitted part gets.
    pub closed spec fn next_part_number(&self) -> nat {
        self.next_part_number as nat
    }

    /// The primitives invoked so far, part uploads aside, in order.
    pub closed spec fn calls(&self) -> Seq<Call> {
        self.calls@
    }

    /// The part numbers submitted to the pool so far, in order.
    pub closed spec fn submitted(&self) -> Seq<int> {
        self.submitted@
    }

    /// Whether `abort` was called.
    pub closed spec fn aborted(&self) -> bool {
        self.aborted@
    }

    /// Every byte accepted by a successful `write` since the writer was
    /// created or last committed through `write_once`, in order.
    pub closed spec fn written(&self) -> Seq<u8> {
        self.written@
    }

    /// The body of each submitted part, by part number.
    pub closed spec fn bodies(&self) -> Seq<Seq<u8>> {
        self.bodies@
    }

    /// The pool of part uploads.
    pub closed spec fn tasks(&self) -> ConcurrentTasks<WriteInput, MultipartPart> {
        self.tasks
    }

    pub closed spec fn wf(&self) -> bool {
        let n = self.parts@.len();
        let d = self.tasks.done();
        let p = self.tasks.pending();
        &&& self.tasks.wf()
        &&& self.submitted@ == dense(self.next_part_number as nat)
        &&& self.bodies@.len() == self.next_part_number
        &&& !self.aborted@ ==> concat(self.bodies@) + cached_bytes(self.cache()) == self.written@
        &&& part_numbers(self.parts@) == dense(n)
        &&& n <= self.next_part_number
        &&& self.tasks.errored() ==> n < self.next_part_number
        &&& self.upload_id is Some ==> forall|i: int|
            0 <= i < n ==> self.w.write_part_post(
                self.upload_id()->Some_0,
                i as usize,
                self.bodies@[i].len() as u64,
                self.bodies@[i],
                Ok(#[trigger] self.parts@[i]),
            )
        &&& self.upload_id is Some && !self.tasks.errored() ==> forall|j: int|
            0 <= j < d.len() ==> self.w.write_part_post(
                self.upload_id()->Some_0,
                (n + j) as usize,
                self.bodies@[n + j].len() as u64,
                self.bodies@[n + j],
                Ok(#[trigger] d[j]),
            )
        &&& self.upload_id is None ==> {
            &&& forall|i: int|
                0 <= i < self.calls@.len() ==> #[trigger] self.calls@[i] is WriteOnce
                    || self.calls@[i] is Initiate
            &&& self.tasks.idle()
            &&& !self.tasks.errored()
            &&& n == 0
            &&& self.next_part_number == 0
        }
        &&& self.aborted@ ==> self.cache is None && self.tasks.idle() && self.upload_id is Some
        &&& !self.tasks.errored() && !self.aborted@ ==> self.next_part_number == n + d.len() + p.len()
        &&& !self.tasks.errored() ==> {
            &&& forall|j: int| 0 <= j < d.len() ==> #[trigger] d[j].part_number == n + j
            &&& forall|k: int|
                0 <= k < p.len() ==> #[trigger] p[k].spec_part_number() == n + d.len() + k
            &&& forall|k: int|
                0 <= k < p.len() ==> Some(#[trigger] p[k].spec_upload_id()) == self.upload_id()
            &&& forall|k: int|
                0 <= k < p.len() ==> #[trigger] p[k].spec_bytes() == self.bodies@[n + d.len() + k]
        }
    }

    /// As long as no multipart upload was started, the writer has submitted
    /// no part and invoked no completion or abort: its log holds only
    /// single-shot writes and initiations that failed.
    pub proof fn lemma_single_shot_calls(&self)
        requires
            self.wf(),
            self.upload_id() is None,
        ensures
            self.submitted().len() == 0,
            forall|i: int|
                0 <= i < self.calls().len() ==> #[trigger] self.calls()[i] is WriteOnce
                    || self.calls()[i] is Initiate,
    {
    }

    /// A writer that has written nothing yet. `concurrent` bounds the part
    /// uploads in flight.
    pub fn new(inner: W, concurrent: usize) -> (r: Self)
        requires
            concurrent >= 1,
        ensures
            r.wf(),
            r.upload_id() is None,
            r.cache() is None,
            r.parts().len() == 0,
            r.next_part_number() == 0,
            r.calls().len() == 0,
            r.written().len() == 0,
            r.bodies().len() == 0,
            !r.aborted(),
            r.tasks().concurrent() == concurrent,
            r.tasks().idle(),
            !r.tasks().errored(),
            r.backend() == inner,
    {
        let r = MultipartWriter {
            w: inner,
            upload_id: None,
            parts: Vec::new(),
            cache: None,
            next_part_number: 0,
            tasks: ConcurrentTasks::new(concurrent),
            calls: Ghost(Seq::empty()),
            submitted: Ghost(Seq::empty()),
            aborted: Ghost(false),
            written: Ghost(Seq::empty()),
            bodies: Ghost(Seq::empty()),
        };
        proof {
            assert(dense(0) =~= Seq::<int>::empty());
            assert(part_numbers(r.parts@) =~= dense(0));
            assert(concat(r.bodies@) + cached_bytes(r.cache()) =~= r.written@);
        }
        r
    }

    /// The service this writer drives.
    pub fn inner(&self) -> &W {
        &self.w
    }

    /// The parts collected so far, in submission order.
    pub fn parts_collected(&self) -> (r: &[MultipartPart])
        ensures
            r@ == self.parts(),
    {
        self.parts.as_slice()
    }

    fn fill_cache(&mut self, bs: Buffer) -> (r: usize)
        ensures
            r == bs@.len(),
            final(self).cache() == Some(bs@),
            final(self).upload_id() == old(self).upload_id(),
            final(self).parts() == old(self).parts(),
            final(self).next_part_number() == old(self).next_part_number(),
            final(self).calls() == old(self).calls(),
            final(self).submitted() == old(self).submitted(),
            final(self).tasks() == old(self).tasks(),
            final(self).aborted == old(self).aborted,
            final(self).written == old(self).written,
            final(self).bodies == old(self).bodies,
            final(self).w == old(self).w,
    {
        let size = bs.len();
        self.cache = Some(bs);
        size
    }

    fn finished_error() -> (r: Error)
        ensures
            r@.kind == ErrorKind::Unexpected,
            !r@.temporary,
    {
        Error::new(ErrorKind::Unexpected, "writer has no pending chunk: it was closed or aborted")
    }

    fn overflow_error() -> (r: Error)
        ensures
            r@.kind == ErrorKind::Unexpected,
            !r@.temporary,
    {
        Error::new(ErrorKind::Unexpected, "part number exceeds the largest usize")
    }

    /// Submits the cached chunk as part `next_part_number` of `upload_id`.
    /// On success the cache is emptied and the number advances; on failure
    /// nothing of the writer changes but the pool, as `execute` says.
    fn submit_cache(&mut self, upload_id: String) -> (r: Result<(), Error>)
        requires
            old(self).wf(),
            old(self).upload_id() == Some(upload_id@),
            old(self).cache() is Some,
        ensures
            final(self).wf(),
            final(self).upload_id() == old(self).upload_id(),
            final(self).parts() == old(self).parts(),
            final(self).calls() == old(self).calls(),
            final(self).tasks().concurrent() == old(self).tasks().concurrent(),
            final(self).aborted == old(self).aborted,
            final(self).written == old(self).written,
            final(self).backend() == old(self).backend(),
            old(self).tasks().errored() || old(self).next_part_number() == usize::MAX ==> {
                &&& r is Err
                &&& r->Err_0@.kind == ErrorKind::Unexpected
                &&& *final(self) == *old(self)
            },
            !old(self).tasks().errored() && old(self).next_part_number() < usize::MAX ==> {
                &&& old(self).tasks().pending().len() < old(self).tasks().concurrent() ==> r is Ok
                &&& r is Err ==> old(self).tasks().pending().len() > 0 && part_failed(
                    old(self).backend(),
                    old(self).tasks().pending()[0],
                    r->Err_0,
                )
            },
            r is Ok ==> {
                &&& final(self).bodies() == old(self).bodies().push(old(self).cache()->Some_0)
                &&& final(self).cache() is None
                &&& final(self).next_part_number() == old(self).next_part_number() + 1
                &&& final(self).submitted() == old(self).submitted().push(
                    old(self).next_part_number() as int,
                )
            },
            r is Err ==> {
                &&& final(self).cache() == old(self).cache()
                &&& final(self).next_part_number() == old(self).next_part_number()
                &&& final(self).submitted() == old(self).submitted()
                &&& final(self).bodies() == old(self).bodies()
                &&& r->Err_0@.temporary ==> final(self).tasks() == old(self).tasks()
            },
    {
        let part_number = self.next_part_number;
        if part_number == usize::MAX {
            return Err(Self::overflow_error());
        }
        let bytes = match &self.cache {
            Some(c) => c.duplicate(),
            None => Buffer::new(),
        };
        let input = WriteInput { upload_id, part_number, bytes };
        let task = PartWriter { w: &self.w };
        let ghost n = self.parts@.len();
        let ghost d0 = self.tasks.done();
        let ghost p0 = self.tasks.pending();
        proof {
            self.tasks.lemma_wf();
        }
        let res = self.tasks.execute(&task, input);
        match res {
            Ok(()) => {
                self.cache = None;
                self.next_part_number = part_number + 1;
                proof {
                    self.submitted@ = self.submitted@.push(part_number as int);
                    self.bodies@ = self.bodies@.push(input.spec_bytes());
                    lemma_concat_push(old(self).bodies@, input.spec_bytes());
                    assert(self.submitted@ =~= dense(self.next_part_number as nat));
                    let b0 = old(self).bodies@;
                    assert forall|i: int| 0 <= i < b0.len() implies self.bodies@[i] == b0[i] by {}
                    assert forall|i: int| 0 <= i < n implies self.w.write_part_post(
                        self.upload_id()->Some_0,
                        i as usize,
                        self.bodies@[i].len() as u64,
                        self.bodies@[i],
                        Ok(#[trigger] self.parts@[i]),
                    ) by {
                        assert(self.bodies@[i] == b0[i]);
                    }
                    if !self.tasks.errored() {
                        let d = self.tasks.done();
                        let p = self.tasks.pending();
                        if p0.len() < self.tasks.concurrent() {
                            assert(d == d0);
                            assert(p == p0.push(input));
                            assert forall|j: int| 0 <= j < d.len() implies self.w.write_part_post(
                                self.upload_id()->Some_0,
                                (n + j) as usize,
                                self.bodies@[n + j].len() as u64,
                                self.bodies@[n + j],
                                Ok(#[trigger] d[j]),
                            ) by {
                                assert(self.bodies@[n + j] == b0[n + j]);
                                assert(d[j] == d0[j]);
                            }
                            assert forall|k: int| 0 <= k < p.len() implies #[trigger] p[k].spec_part_number()
                                == n + d.len() + k by {
                                if k < p0.len() {
                                    assert(p[k] == p0[k]);
                                }
                            }
                            assert forall|k: int| 0 <= k < p.len() implies #[trigger] p[k].spec_bytes()
                                == self.bodies@[n + d.len() + k] by {
                                if k < p0.len() {
                                    assert(p[k] == p0[k]);
                                }
                            }
                        } else {
                            assert(p == p0.drop_first().push(input));
                            assert(d.drop_last() == d0);
                            assert(p0[0].spec_part_number() == n + d0.len());
                            assert(p0[0].spec_bytes() == b0[(n + d0.len()) as int]);
                            assert(Some(p0[0].spec_upload_id()) == old(self).upload_id());
                            assert forall|j: int| 0 <= j < d.len() implies self.w.write_part_post(
                                self.upload_id()->Some_0,
                                (n + j) as usize,
                                self.bodies@[n + j].len() as u64,
                                self.bodies@[n + j],
                                Ok(#[trigger] d[j]),
                            ) by {
                                assert(self.bodies@[n + j] == b0[n + j]);
                                if j < d0.len() {
                                    assert(d[j] == d.drop_last()[j]);
                                } else {
                                    assert(d[j] == d.last());
                                }
                            }
                            assert forall|j: int| 0 <= j < d.len() implies #[trigger] d[j].part_number == n + j by {
                                if j < d0.len() {
                                    assert(d[j] == d.drop_last()[j]);
                                } else {
                                    assert(d[j] == d.last());
                                }
                            }
                            assert forall|k: int| 0 <= k < p.len() implies #[trigger] p[k].spec_part_number()
                                == n + d.len() + k by {
                                if k < p.len() - 1 {
                                    assert(p[k] == p0[k + 1]);
                                }
                            }
                            assert forall|k: int| 0 <= k < p.len() implies Some(#[trigger] p[k].spec_upload_id())
                                == self.upload_id() by {
                                if k < p.len() - 1 {
                                    assert(p[k] == p0[k + 1]);
                                }
                            }
                            assert forall|k: int| 0 <= k < p.len() implies #[trigger] p[k].spec_bytes()
                                == self.bodies@[n + d.len() + k] by {
                                if k < p.len() - 1 {
                                    assert(p[k] == p0[k + 1]);
                                }
                            }
                        }
                    }
                }
                Ok(())
            },
            Err(e) => Err(e),
        }
    }

    /// Takes one chunk. The first chunk is only cached. A later chunk starts
    /// a multipart upload if none was started, submits the cached chunk as
    /// the next part and is cached in its place. On failure the cached chunk
    /// and the part number stay, so the same call can be made again.
    pub fn write(&mut self, bs: Buffer) -> (r: Result<(), Error>)
        requires
            old(self).wf(),
        ensures
            final(self).wf(),
            final(self).parts() == old(self).parts(),
            final(self).tasks().concurrent() == old(self).tasks().concurrent(),
            final(self).aborted() == old(self).aborted(),
            final(self).backend() == old(self).backend(),
            old(self).upload_id() is None && old(self).cache() is Some && final(self).upload_id() is None
                ==> r is Err && old(self).backend().initiate_post(Err(r->Err_0)),
            old(self).upload_id() is None && old(self).cache() is Some && final(self).upload_id() is Some
                ==> old(self).backend().initiate_post(Ok(final(self).upload_id()->Some_0)),
            old(self).upload_id() is None && old(self).cache() is Some && final(self).upload_id() is Some
                ==> r is Ok,
            old(self).upload_id() is Some && old(self).cache() is Some && !old(self).tasks().errored()
                && old(self).next_part_number() < usize::MAX ==> {
                &&& old(self).tasks().pending().len() < old(self).tasks().concurrent() ==> r is Ok
                &&& r is Err ==> old(self).tasks().pending().len() > 0 && part_failed(
                    old(self).backend(),
                    old(self).tasks().pending()[0],
                    r->Err_0,
                )
            },
            old(self).upload_id() is Some && old(self).cache() is Some && (old(self).tasks().errored()
                || old(self).next_part_number() == usize::MAX) ==> {
                &&& r is Err
                &&& r->Err_0@.kind == ErrorKind::Unexpected
                &&& *final(self) == *old(self)
            },
            old(self).upload_id() is None && old(self).cache() is None ==> {
                &&& r is Ok
                &&& final(self).cache() == Some(bs@)
                &&& final(self).upload_id() is None
                &&& final(self).calls() == old(self).calls()
                &&& final(self).next_part_number() == old(self).next_part_number()
                &&& final(self).submitted() == old(self).submitted()
            },
            old(self).upload_id() is None && old(self).cache() is Some ==> final(self).calls()
                == old(self).calls().push(Call::Initiate),
            old(self).upload_id() is Some ==> {
                &&& final(self).calls() == old(self).calls()
                &&& final(self).upload_id() == old(self).upload_id()
            },
            old(self).upload_id() is Some && old(self).cache() is None ==> r is Err && *final(self)
                == *old(self),
            old(self).cache() is Some && r is Ok ==> {
                &&& final(self).upload_id() is Some
                &&& final(self).cache() == Some(bs@)
                &&& final(self).next_part_number() == old(self).next_part_number() + 1
                &&& final(self).submitted() == old(self).submitted().push(
                    old(self).next_part_number() as int,
                )
            },
            r is Err ==> {
                &&& final(self).cache() == old(self).cache()
                &&& final(self).next_part_number() == old(self).next_part_number()
                &&& final(self).submitted() == old(self).submitted()
            },
            r is Ok && final(self).upload_id() is None ==> final(self).calls() == old(self).calls(),
            r is Ok ==> final(self).written() == old(self).written() + bs@,
            r is Ok && old(self).cache() is Some ==> final(self).bodies() == old(self).bodies().push(
                old(self).cache()->Some_0,
            ),
            r is Err ==> final(self).written() == old(self).written() && final(self).bodies()
                == old(self).bodies(),
    {
        let upload_id = match &self.upload_id {
            Some(v) => {
                if self.cache.is_none() {
                    return Err(Self::finished_error());
                }
                v.clone()
            },
            None => {
                if self.cache.is_none() {
                    self.fill_cache(bs);
                    proof {
                        self.written@ = self.written@ + bs@;
                        assert(self.bodies@ =~= Seq::<Seq<u8>>::empty());
                        assert(old(self).written@ =~= Seq::<u8>::empty());
                    }
                    return Ok(());
                }
                let res = self.w.initiate_part();
                proof {
                    self.calls@ = self.calls@.push(Call::Initiate);
                }
                let upload_id = res?;
                self.upload_id = Some(upload_id.clone());
                proof {
                    self.tasks.lemma_wf();
                }
                upload_id
            },
        };
        let ghost before = self.bodies@;
        let ghost cached = self.cache()->Some_0;
        self.submit_cache(upload_id)?;
        self.fill_cache(bs);
        proof {
            self.written@ = self.written@ + bs@;
            lemma_concat_push(before, cached);
            assert(concat(self.bodies@) + cached_bytes(self.cache()) =~= self.written@);
        }
        Ok(())
    }

    /// Finishes the write. Without a multipart upload the cached chunk (or
    /// nothing) goes out through `write_once`, and stays cached if that
    /// fails, so that `close` can be called again. Otherwise the cached chunk
    /// is submitted as the last part, every part is collected in submission
    /// order, and the upload is completed from that list.
    pub fn close(&mut self) -> (r: Result<Metadata, Error>)
        requires
            old(self).wf(),
        ensures
            final(self).wf(),
            final(self).upload_id() == old(self).upload_id(),
            final(self).aborted() == old(self).aborted(),
            final(self).backend() == old(self).backend(),
            old(self).upload_id() is None ==> old(self).backend().write_once_post(
                cached_bytes(old(self).cache()).len() as u64,
                cached_bytes(old(self).cache()),
                r,
            ),
            old(self).upload_id() is Some && final(self).calls().len() == old(self).calls().len() + 1
                ==> old(self).backend().complete_post(old(self).upload_id()->Some_0, final(self).parts(), r),
            old(self).upload_id() is Some && (old(self).tasks().errored() || (old(self).cache() is Some
                && old(self).next_part_number() == usize::MAX)) ==> {
                &&& r is Err
                &&& r->Err_0@.kind == ErrorKind::Unexpected
                &&& final(self).calls() == old(self).calls()
            },
            old(self).upload_id() is Some ==> {
                &&& final(self).cache() is None || final(self).cache() == old(self).cache()
                &&& final(self).next_part_number() == old(self).next_part_number() + (if old(
                    self,
                ).cache() is Some && final(self).cache() is None {
                    1int
                } else {
                    0int
                })
                &&& final(self).parts().len() >= old(self).parts().len()
                &&& final(self).parts().subrange(0, old(self).parts().len() as int) == old(self).parts()
                &&& final(self).bodies().len() >= old(self).bodies().len()
                &&& final(self).bodies().subrange(0, old(self).bodies().len() as int) == old(self).bodies()
            },
            old(self).upload_id() is Some && old(self).tasks().errored() && old(self).cache() is None ==> {
                &&& r is Err
                &&& r->Err_0@ == mismatch_error(
                    old(self).next_part_number(),
                    old(self).parts().len(),
                    old(self).upload_id()->Some_0,
                )
                &&& *final(self) == *old(self)
            },
            old(self).upload_id() is Some && r is Err && final(self).calls() == old(self).calls() ==> {
                ||| old(self).tasks().errored()
                ||| old(self).cache() is Some && old(self).next_part_number() == usize::MAX
                ||| final(self).parts().len() != final(self).next_part_number() && r->Err_0@
                    == mismatch_error(
                    final(self).next_part_number(),
                    final(self).parts().len(),
                    old(self).upload_id()->Some_0,
                )
                ||| exists|k: int|
                    final(self).parts().len() <= k < final(self).bodies().len()
                        && #[trigger] final(self).bodies()[k] == final(self).bodies()[k]
                        && old(self).backend().write_part_post(
                        old(self).upload_id()->Some_0,
                        k as usize,
                        final(self).bodies()[k].len() as u64,
                        final(self).bodies()[k],
                        Err(r->Err_0),
                    )
            },
            old(self).upload_id() is None ==> {
                &&& final(self).calls() == old(self).calls().push(
                    Call::WriteOnce {
                        size: cached_bytes(old(self).cache()).len(),
                        body: cached_bytes(old(self).cache()),
                    },
                )
                &&& cached_bytes(old(self).cache()) == old(self).written()
                &&& r is Ok ==> final(self).cache() is None && final(self).written().len() == 0
                &&& r is Err ==> final(self).cache() == old(self).cache() && final(self).written()
                    == old(self).written()
                &&& final(self).parts() == old(self).parts()
                &&& final(self).next_part_number() == old(self).next_part_number()
                &&& final(self).submitted() == old(self).submitted()
            },
            old(self).upload_id() is Some && r is Ok ==> {
                &&& final(self).cache() is None
                &&& final(self).next_part_number() == old(self).next_part_number() + (if old(
                    self,
                ).cache() is Some {
                    1int
                } else {
                    0int
                })
                &&& final(self).submitted() == dense(final(self).next_part_number())
                &&& part_numbers(final(self).parts()) == dense(final(self).next_part_number())
                &&& final(self).bodies().len() == final(self).next_part_number()
                &&& !old(self).aborted() ==> concat(final(self).bodies()) == old(self).written()
                &&& forall|i: int|
                    0 <= i < final(self).parts().len() ==> old(self).backend().write_part_post(
                        old(self).upload_id()->Some_0,
                        i as usize,
                        final(self).bodies()[i].len() as u64,
                        final(self).bodies()[i],
                        Ok(#[trigger] final(self).parts()[i]),
                    )
                &&& final(self).calls() == old(self).calls().push(
                    Call::Complete {
                        upload_id: old(self).upload_id()->Some_0,
                        part_numbers: dense(final(self).next_part_number()),
                    },
                )
            },
            old(self).upload_id() is Some && r is Err ==> {
                ||| final(self).calls() == old(self).calls()
                ||| final(self).calls() == old(self).calls().push(
                    Call::Complete {
                        upload_id: old(self).upload_id()->Some_0,
                        part_numbers: dense(final(self).next_part_number()),
                    },
                )
            },
    {
        let upload_id = match &self.upload_id {
            Some(v) => v.clone(),
            None => {
                proof {
                    assert(self.bodies@ =~= Seq::<Seq<u8>>::empty());
                    assert(concat(self.bodies@) + cached_bytes(self.cache()) =~= cached_bytes(self.cache()));
                }
                let (size, body) = match &self.cache {
                    Some(cache) => (cache.len(), cache.duplicate()),
                    None => (0, Buffer::new()),
                };
                let res = self.w.write_once(size as u64, body);
                proof {
                    self.calls@ = self.calls@.push(
                        Call::WriteOnce { size: cached_bytes(old(self).cache()).len(), body: cached_bytes(old(self).cache()) },
                    );
                }
                let meta = res?;
                self.cache = None;
                proof {
                    self.written@ = Seq::empty();
                    assert(concat(self.bodies@) + cached_bytes(self.cache()) =~= self.written@);
                }
                return Ok(meta);
            },
        };
        if self.cache.is_some() {
            let ghost before = self.bodies@;
            let ghost cached = self.cache()->Some_0;
            proof {
                self.tasks.lemma_wf();
            }
            match self.submit_cache(upload_id.clone()) {
                Ok(()) => {},
                Err(e) => {
                    proof {
                        let n = self.parts@.len();
                        let d0 = old(self).tasks.done();
                        let p0 = old(self).tasks.pending();
                        if !old(self).tasks.errored() && old(self).next_part_number < usize::MAX {
                            assert(p0[0].spec_part_number() == n + d0.len() + 0);
                            assert(p0[0].spec_bytes() == self.bodies@[(n + d0.len()) as int]);
                            assert(Some(p0[0].spec_upload_id()) == old(self).upload_id());
                            let k = (n + d0.len()) as int;
                            assert(self.bodies()[k] == self.bodies@[k]);
                        }
                        assert(self.bodies@.subrange(0, old(self).bodies@.len() as int) =~= old(self).bodies@);
                        assert(self.parts@.subrange(0, old(self).parts@.len() as int) =~= old(self).parts@);
                    }
                    return Err(e);
                },
            }
            proof {
                lemma_concat_push(before, cached);
            }
        }
        proof {
            assert(concat(self.bodies@) + cached_bytes(self.cache()) =~= concat(self.bodies@));
        }
        let ghost next = self.next_part_number;
        assert(old(self).upload_id() == Some(upload_id@));
        assert(self.bodies@.subrange(0, old(self).bodies@.len() as int) =~= old(self).bodies@);
        assert(self.parts@.subrange(0, old(self).parts@.len() as int) =~= old(self).parts@);
        let ghost bodies1 = self.bodies@;
        loop
            invariant
                self.wf(),
                self.upload_id() == Some(upload_id@),
                old(self).upload_id() == Some(upload_id@),
                self.cache() is None,
                self.next_part_number == next,
                self.calls@ == old(self).calls@,
                self.written@ == old(self).written@,
                self.aborted@ == old(self).aborted@,
                !self.aborted@ ==> concat(self.bodies@) == self.written@,
                self.w == old(self).w,
                old(self).tasks.errored() ==> self.tasks.errored() && self.parts@ == old(self).parts@,
                self.parts@.len() >= old(self).parts@.len(),
                self.parts@.subrange(0, old(self).parts@.len() as int) == old(self).parts@,
                next == old(self).next_part_number + (if old(self).cache is Some { 1int } else { 0int }),
                self.bodies@ == bodies1,
                old(self).tasks.errored() && old(self).cache is None ==> *self == *old(self),
                bodies1.len() >= old(self).bodies@.len(),
                bodies1.subrange(0, old(self).bodies@.len() as int) == old(self).bodies@,
            decreases self.tasks.done().len() + self.tasks.pending().len(),
        {
            let task = PartWriter { w: &self.w };
            let ghost n = self.parts@.len();
            let ghost d0 = self.tasks.done();
            let ghost p0 = self.tasks.pending();
            let ghost parts0 = self.parts@;
            match self.tasks.next(&task) {
                None => break,
                Some(Ok(part)) => {
                    proof {
                        if d0.len() > 0 {
                            assert(d0[0].part_number == n + 0);
                        } else {
                            assert(p0[0].spec_part_number() == n + 0 + 0);
                        }
                    }
                    self.parts.push(part);
                    proof {
                        assert(self.parts@.subrange(0, old(self).parts@.len() as int) =~= parts0.subrange(
                            0,
                            old(self).parts@.len() as int,
                        ));
                        assert(part.part_number == n);
                        assert forall|i: int| 0 <= i < n + 1 implies #[trigger] part_numbers(self.parts@)[i]
                            == dense(n + 1)[i] by {
                            if i < n {
                                assert(self.parts@[i] == parts0[i]);
                                assert(part_numbers(parts0)[i] == dense(n)[i]);
                            }
                        }
                        assert(part_numbers(self.parts@) =~= dense(n + 1));
                        let d = self.tasks.done();
                        let p = self.tasks.pending();
                        if d0.len() > 0 {
                            assert forall|j: int| 0 <= j < d.len() implies #[trigger] d[j].part_number
                                == (n + 1) + j by {
                                assert(d[j] == d0[j + 1]);
                            }
                        } else {
                            assert forall|k: int| 0 <= k < p.len() implies #[trigger] p[k].spec_part_number()
                                == (n + 1) + d.len() + k by {
                                assert(p[k] == p0[k + 1]);
                            }
                            assert forall|k: int| 0 <= k < p.len() implies Some(#[trigger] p[k].spec_upload_id())
                                == self.upload_id() by {
                                assert(p[k] == p0[k + 1]);
                            }
                            assert forall|k: int| 0 <= k < p.len() implies #[trigger] p[k].spec_bytes()
                                == self.bodies@[(n + 1) + d.len() + k] by {
                                assert(p[k] == p0[k + 1]);
                            }
                        }
                    }
                },
                Some(Err(e)) => {
                    proof {
                        if !self.aborted@ {
                            assert(p0[0].spec_part_number() == n + 0 + 0);
                            assert(p0[0].spec_bytes() == self.bodies@[n as int]);
                            assert(Some(p0[0].spec_upload_id()) == self.upload_id());
                            assert(self.bodies()[n as int] == self.bodies@[n as int]);
                            assert(p0.len() > 0);
                            assert(n < self.bodies@.len());
                            assert((n as int) as usize == p0[0].spec_part_number());
                            assert(old(self).backend().write_part_post(
                                upload_id@,
                                (n as int) as usize,
                                self.bodies@[n as int].len() as u64,
                                self.bodies@[n as int],
                                Err(e),
                            ));
                        }
                    }
                    return Err(e);
                },
            }
        }
        if self.parts.len() != self.next_part_number {
            return Err(mismatch(self.next_part_number, self.parts.len(), upload_id));
        }
        let res = self.w.complete_part(upload_id.as_str(), self.parts.as_slice());
        proof {
            self.calls@ = self.calls@.push(
                Call::Complete { upload_id: upload_id@, part_numbers: dense(self.next_part_number as nat) },
            );
        }
        res
    }

    /// Cancels the write. Without a multipart upload nothing happens.
    /// Otherwise the pool and the cached chunk are dropped and the upload is
    /// aborted.
    pub fn abort(&mut self) -> (r: Result<(), Error>)
        requires
            old(self).wf(),
        ensures
            final(self).wf(),
            old(self).upload_id() is None ==> r is Ok && *final(self) == *old(self),
            old(self).upload_id() is Some ==> {
                &&& final(self).calls() == old(self).calls().push(
                    Call::Abort { upload_id: old(self).upload_id()->Some_0 },
                )
                &&& old(self).backend().abort_post(old(self).upload_id()->Some_0, r)
                &&& final(self).upload_id() == old(self).upload_id()
                &&& final(self).cache() is None
                &&& final(self).tasks().idle()
                &&& final(self).parts() == old(self).parts()
            },
    {
        let upload_id = match &self.upload_id {
            Some(v) => v.clone(),
            None => {
                return Ok(());
            },
        };
        self.tasks.clear();
        self.cache = None;
        proof {
            self.aborted@ = true;
        }
        let res = self.w.abort_part(upload_id.as_str());
        proof {
            self.calls@ = self.calls@.push(Call::Abort { upload_id: upload_id@ });
        }
        res
    }
}

impl<W: MultipartWrite> Write for MultipartWriter<W> {
    closed spec fn inv(&self) -> bool {
        self.wf()
    }

    fn write(&mut self, bs: Buffer) -> Result<(), Error> {
        MultipartWriter::write(self, bs)
    }

    fn close(&mut self) -> Result<Metadata, Error> {
        MultipartWriter::close(self)
    }

    fn abort(&mut self) -> Result<(), Error> {
        MultipartWriter::abort(self)
    }
}

/// The service reported `e` for the upload of the part that `input` holds.
pub open spec fn part_failed<W: MultipartWrite>(w: W, input: WriteInput, e: Error) -> bool {
    w.write_part_post(
        input.spec_upload_id(),
        input.spec_part_number(),
        input.spec_bytes().len() as u64,
        input.spec_bytes(),
        Err(e),
    )
}

/// The chunks of `s` joined in order.
pub open spec fn concat(s: Seq<Seq<u8>>) -> Seq<u8>
    decreases s.len(),
{
    if s.len() == 0 {
        Seq::empty()
    } else {
        concat(s.drop_last()) + s.last()
    }
}

/// Parts whose numbers run `0, 1, ..., n - 1`, as a completed session hands
/// them to `complete_part`, number `n` and are sorted ascending by part
/// number, without gap or duplicate.
pub proof fn lemma_completed_parts_sorted(parts: Seq<MultipartPart>, n: nat)
    requires
        part_numbers(parts) == dense(n),
    ensures
        parts.len() == n,
        forall|i: int| 0 <= i < n ==> #[trigger] parts[i].part_number == i,
        forall|i: int, j: int|
            0 <= i < j < n ==> #[trigger] parts[i].part_number < #[trigger] parts[j].part_number,
{
    assert(part_numbers(parts).len() == n);
    assert forall|i: int| 0 <= i < n implies #[trigger] parts[i].part_number == i by {
        assert(part_numbers(parts)[i] == dense(n)[i]);
        assert(part_numbers(parts)[i] == parts[i].part_number as int);
    }
}

/// Joining one more chunk appends its bytes.
pub proof fn lemma_concat_push(s: Seq<Seq<u8>>, c: Seq<u8>)
    ensures
        concat(s.push(c)) == concat(s) + c,
{
    assert(s.push(c).drop_last() =~= s);
}

/// The cached chunk, or nothing.
pub open spec fn cached_bytes(c: Option<Seq<u8>>) -> Seq<u8> {
    match c {
        Some(b) => b,
        None => Seq::empty(),
    }
}

} // verus!
