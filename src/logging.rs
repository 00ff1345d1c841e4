use vstd::prelude::*;
use vstd::string::StringExecFns;

use crate::buffer::Buffer;
use crate::error::{Error, ErrorKind, ErrorView};
use crate::oio::{version_text, Delete, Entry, List, OpDelete, Read, Write};
use crate::raw::{
    Access, AccessorInfo, AccessorInfoView, Layer, OpCopy, OpCreateDir, OpList, OpPresign, OpRead,
    OpRename, OpStat, OpWrite, RpCopy, RpCreateDir, RpDelete, RpList, RpPresign, RpRead, RpRename,
    RpStat, RpWrite,
};
use crate::types::{decimal, decimal_string, operation_name, Metadata, Operation};

verus! {

/// Severity of a log line.
#[derive(Clone, Copy, Debug, PartialEq, Eq, Structural)]
pub enum Level {
    Error,
    Warn,
    Debug,
}

/// Receives every lifecycle event of the logging layer.
///
/// Implementations should stay lightweight: no I/O, nothing slow.
pub trait LoggingInterceptor: Clone {
    fn log(
        &self,
        info: &AccessorInfo,
        operation: Operation,
        context: &[(&str, &str)],
        message: &str,
        err: Option<&Error>,
    );
}

/// The mathematical value of a list of borrowed context pairs.
pub open spec fn pairs_view(c: Seq<(&str, &str)>) -> Seq<(Seq<char>, Seq<char>)> {
    c.map_values(|p: (&str, &str)| (p.0@, p.1@))
}

/// Context pairs as text: ` key=value` for each pair, in order.
pub open spec fn context_text(c: Seq<(Seq<char>, Seq<char>)>) -> Seq<char>
    decreases c.len(),
{
    if c.len() == 0 {
        Seq::empty()
    } else {
        context_text(c.drop_last()) + " "@ + c.last().0 + "="@ + c.last().1
    }
}

pub open spec fn kind_name(k: ErrorKind) -> Seq<char> {
    match k {
        ErrorKind::NotFound => "NotFound"@,
        ErrorKind::AlreadyExists => "AlreadyExists"@,
        ErrorKind::PermissionDenied => "PermissionDenied"@,
        ErrorKind::ConfigInvalid => "ConfigInvalid"@,
        ErrorKind::Unsupported => "Unsupported"@,
        ErrorKind::RateLimited => "RateLimited"@,
        ErrorKind::ConditionNotMatch => "ConditionNotMatch"@,
        ErrorKind::RangeNotSatisfied => "RangeNotSatisfied"@,
        ErrorKind::IsADirectory => "IsADirectory"@,
        ErrorKind::NotADirectory => "NotADirectory"@,
        ErrorKind::IsSameFile => "IsSameFile"@,
        ErrorKind::Unexpected => "Unexpected"@,
    }
}

/// An error as text: `Kind => message` and its context pairs.
pub open spec fn error_text(e: ErrorView) -> Seq<char> {
    kind_name(e.kind) + " => "@ + e.message + context_text(e.context)
}

/// The text of one event.
pub open spec fn log_line(
    info: AccessorInfoView,
    op: Operation,
    context: Seq<(Seq<char>, Seq<char>)>,
    message: Seq<char>,
) -> Seq<char> {
    "service="@ + info.scheme + " name="@ + info.name + context_text(context) + ": "@
        + operation_name(op) + " "@ + message
}

/// Unexpected errors are logged as errors, all others as warnings.
pub open spec fn level_of(k: ErrorKind) -> Level {
    if k == ErrorKind::Unexpected {
        Level::Error
    } else {
        Level::Warn
    }
}

/// The lines logged for one event: a line with the error at its level when
/// there is one, then the event at debug level.
pub open spec fn event_records(
    info: AccessorInfoView,
    op: Operation,
    context: Seq<(Seq<char>, Seq<char>)>,
    message: Seq<char>,
    err: Option<ErrorView>,
) -> Seq<(Level, Seq<char>)> {
    let line = log_line(info, op, context, message);
    match err {
        Some(e) => seq![(level_of(e.kind), line + " "@ + error_text(e)), (Level::Debug, line)],
        None => seq![(Level::Debug, line)],
    }
}

pub open spec fn records_view(r: Seq<(Level, String)>) -> Seq<(Level, Seq<char>)> {
    r.map_values(|p: (Level, String)| (p.0, p.1@))
}

pub fn kind_str(k: ErrorKind) -> (r: &'static str)
    ensures
        r@ == kind_name(k),
{
    match k {
        ErrorKind::NotFound => "NotFound",
        ErrorKind::AlreadyExists => "AlreadyExists",
        ErrorKind::PermissionDenied => "PermissionDenied",
        ErrorKind::ConfigInvalid => "ConfigInvalid",
        ErrorKind::Unsupported => "Unsupported",
        ErrorKind::RateLimited => "RateLimited",
        ErrorKind::ConditionNotMatch => "ConditionNotMatch",
        ErrorKind::RangeNotSatisfied => "RangeNotSatisfied",
        ErrorKind::IsADirectory => "IsADirectory",
        ErrorKind::NotADirectory => "NotADirectory",
        ErrorKind::IsSameFile => "IsSameFile",
        ErrorKind::Unexpected => "Unexpected",
    }
}

/// Appends ` key=value`.
fn append_pair(out: &mut String, key: &str, value: &str)
    ensures
        final(out)@ == old(out)@ + " "@ + key@ + "="@ + value@,
{
    out.append(" ");
    out.append(key);
    out.append("=");
    out.append(value);
}

/// Appends ` key=value` for each pair.
pub fn append_context(out: &mut String, context: &[(&str, &str)])
    ensures
        final(out)@ == old(out)@ + context_text(pairs_view(context@)),
{
    let mut i: usize = 0;
    while i < context.len()
        invariant
            i <= context@.len(),
            out@ == old(out)@ + context_text(pairs_view(context@.take(i as int))),
        decreases context@.len() - i,
    {
        let (k, v) = context[i];
        append_pair(out, k, v);
        proof {
            let c = pairs_view(context@.take(i as int + 1));
            assert(c.drop_last() =~= pairs_view(context@.take(i as int)));
            assert(c.last() == (k@, v@));
        }
        i = i + 1;
    }
    proof {
        assert(context@.take(i as int) =~= context@);
    }
}

/// The text of an error: `Kind => message` and its context pairs.
pub fn error_string(e: &Error) -> (r: String)
    ensures
        r@ == error_text(e@),
{
    let mut out = String::from_str(kind_str(e.kind()));
    out.append(" => ");
    out.append(e.message());
    let n = e.context_len();
    let mut i: usize = 0;
    while i < n
        invariant
            n == e@.context.len(),
            i <= n,
            out@ == kind_name(e@.kind) + " => "@ + e@.message + context_text(e@.context.take(i as int)),
        decreases n - i,
    {
        let (k, v) = e.context_at(i);
        append_pair(&mut out, k, v);
        proof {
            let c = e@.context.take(i as int + 1);
            assert(c.drop_last() =~= e@.context.take(i as int));
        }
        i = i + 1;
    }
    proof {
        assert(e@.context.take(i as int) =~= e@.context);
    }
    out
}

/// The text of one event.
pub fn line_string(
    info: &AccessorInfo,
    operation: Operation,
    context: &[(&str, &str)],
    message: &str,
) -> (r: String)
    ensures
        r@ == log_line(info@, operation, pairs_view(context@), message@),
{
    let mut out = String::from_str("service=");
    out.append(info.scheme());
    out.append(" name=");
    out.append(info.name());
    append_context(&mut out, context);
    out.append(": ");
    out.append(operation.into_static());
    out.append(" ");
    out.append(message);
    out
}

/// The interceptor that hands every event to the standard logging facade:
/// it decides the level and the text of each line.
#[derive(Clone, Copy, Debug, Default)]
pub struct DefaultLoggingInterceptor;

impl DefaultLoggingInterceptor {
    /// The level and text of each line logged for one event, in order.
    pub fn records(
        &self,
        info: &AccessorInfo,
        operation: Operation,
        context: &[(&str, &str)],
        message: &str,
        err: Option<&Error>,
    ) -> (r: Vec<(Level, String)>)
        ensures
            records_view(r@) == event_records(
                info@,
                operation,
                pairs_view(context@),
                message@,
                match err {
                    Some(e) => Some(e@),
                    None => None,
                },
            ),
    {
        let line = line_string(info, operation, context, message);
        let mut r: Vec<(Level, String)> = Vec::new();
        match err {
            Some(e) => {
                let lvl = if e.kind() == ErrorKind::Unexpected {
                    Level::Error
                } else {
                    Level::Warn
                };
                let mut with_err = line.clone();
                with_err.append(" ");
                with_err.append(error_string(e).as_str());
                r.push((lvl, with_err));
                r.push((Level::Debug, line));
                proof {
                    assert(records_view(r@) =~= event_records(
                        info@,
                        operation,
                        pairs_view(context@),
                        message@,
                        Some(e@),
                    ));
                }
            },
            None => {
                r.push((Level::Debug, line));
                proof {
                    assert(records_view(r@) =~= event_records(
                        info@,
                        operation,
                        pairs_view(context@),
                        message@,
                        None,
                    ));
                }
            },
        }
        r
    }
}

/// One call of an interceptor, as mathematical values.
pub struct LogEvent {
    pub operation: Operation,
    pub context: Seq<(Seq<char>, Seq<char>)>,
    pub message: Seq<char>,
    pub err: Option<ErrorView>,
}

pub open spec fn err_view(err: Option<&Error>) -> Option<ErrorView> {
    match err {
        Some(e) => Some(e@),
        None => None,
    }
}

/// The event that a call of `log` with these arguments hands over.
pub open spec fn log_event(
    operation: Operation,
    context: Seq<(Seq<char>, Seq<char>)>,
    message: Seq<char>,
    err: Option<ErrorView>,
) -> LogEvent {
    LogEvent { operation, context, message, err }
}

/// Hands one event to the interceptor.
fn emit<I: LoggingInterceptor>(
    logger: &I,
    info: &AccessorInfo,
    operation: Operation,
    context: &[(&str, &str)],
    message: &str,
    err: Option<&Error>,
) -> (ev: Ghost<LogEvent>)
    ensures
        ev@ == log_event(operation, pairs_view(context@), message@, err_view(err)),
{
    logger.log(info, operation, context, message, err);
    Ghost(log_event(operation, pairs_view(context@), message@, err_view(err)))
}

/// The context of an event about one path.
pub open spec fn path_context(path: Seq<char>) -> Seq<(Seq<char>, Seq<char>)> {
    seq![("path"@, path)]
}

/// The context of an event about a source and a destination.
pub open spec fn from_to_context(from: Seq<char>, to: Seq<char>) -> Seq<(Seq<char>, Seq<char>)> {
    seq![("from"@, from), ("to"@, to)]
}

/// The event that ends a single-shot operation: `finished`, or `failed`
/// with the error.
pub open spec fn outcome_event<T>(
    operation: Operation,
    context: Seq<(Seq<char>, Seq<char>)>,
    res: Result<T, Error>,
    done: Seq<char>,
    failed: Seq<char>,
) -> LogEvent {
    match res {
        Ok(_) => log_event(operation, context, done, None),
        Err(e) => log_event(operation, context, failed, Some(e@)),
    }
}

/// A layer that reports every operation, and the end of every stream, to
/// an interceptor, and otherwise forwards everything unchanged.
pub struct LoggingLayer<I> {
    logger: I,
}

impl<I: LoggingInterceptor> LoggingLayer<I> {
    pub closed spec fn logger(&self) -> I {
        self.logger
    }

    /// The layer with the given interceptor.
    pub fn new(logger: I) -> (r: LoggingLayer<I>)
        ensures
            r.logger() == logger,
    {
        LoggingLayer { logger }
    }
}

impl<A: Access, I: LoggingInterceptor> Layer<A> for LoggingLayer<I> {
    type LayeredAccess = LoggingAccessor<A, I>;

    open spec fn layer_post(&self, inner: A, r: LoggingAccessor<A, I>) -> bool {
        r.inner_spec() == inner
    }

    fn layer(&self, inner: A) -> (r: LoggingAccessor<A, I>) {
        LoggingAccessor::new(inner, self.logger.clone())
    }
}

/// An accessor wrapped by [`LoggingLayer`]. Its descriptor is the inner
/// accessor's own.
pub struct LoggingAccessor<A, I> {
    inner: A,
    logger: I,
}

impl<A: Access, I: LoggingInterceptor> LoggingAccessor<A, I> {
    pub closed spec fn inner_spec(&self) -> A {
        self.inner
    }

    pub closed spec fn logger_spec(&self) -> I {
        self.logger
    }

    pub fn new(inner: A, logger: I) -> (r: Self)
        ensures
            r.inner_spec() == inner,
            r.logger_spec() == logger,
    {
        LoggingAccessor { inner, logger }
    }

    /// The wrapped accessor.
    pub fn inner(&self) -> (r: &A)
        ensures
            *r == self.inner_spec(),
    {
        &self.inner
    }

    fn started(&self, operation: Operation, context: &[(&str, &str)]) -> (ev: Ghost<LogEvent>)
        ensures
            ev@ == log_event(operation, pairs_view(context@), "started"@, None),
    {
        emit(&self.logger, self.inner.info(), operation, context, "started", None)
    }

    /// Reports the end of a single-shot operation and hands its result back
    /// unchanged.
    pub fn finish<T>(&self, operation: Operation, context: &[(&str, &str)], res: Result<T, Error>) -> (r: (
        Result<T, Error>,
        Ghost<LogEvent>,
    ))
        ensures
            r.0 == res,
            r.1@ == outcome_event(operation, pairs_view(context@), res, "finished"@, "failed"@),
    {
        match res {
            Ok(v) => {
                let ev = emit(&self.logger, self.inner.info(), operation, context, "finished", None);
                (Ok(v), ev)
            },
            Err(e) => {
                let ev = emit(&self.logger, self.inner.info(), operation, context, "failed", Some(&e));
                (Err(e), ev)
            },
        }
    }

    /// Wraps the reader that the inner accessor returned, or hands its error
    /// back unchanged.
    pub fn wrap_reader(&self, path: &str, res: Result<(RpRead, A::Reader), Error>) -> (r: (
        Result<(RpRead, LoggingReader<A::Reader, I>), Error>,
        Ghost<LogEvent>,
    ))
        ensures
            match res {
                Ok((rp, v)) => r.0 is Ok && r.0->Ok_0.0 == rp && r.0->Ok_0.1.inner_spec() == v
                    && r.0->Ok_0.1.events().len() == 0 && r.0->Ok_0.1.read_count() == 0 && r.0->Ok_0.1.path_spec() == path@,
                Err(e) => r.0 == Err::<(RpRead, LoggingReader<A::Reader, I>), Error>(e),
            },
            r.1@ == outcome_event(Operation::Read, path_context(path@), res, "created reader"@, "failed"@),
    {
        let ctx = [("path", path)];
        proof {
            assert(pairs_view(ctx@) =~= path_context(path@));
        }
        match res {
            Ok((rp, v)) => {
                let ev = emit(&self.logger, self.inner.info(), Operation::Read, &ctx, "created reader", None);
                (Ok((rp, LoggingReader::new(self.inner.info().duplicate(), self.logger.clone(), path, v))), ev)
            },
            Err(e) => {
                let ev = emit(&self.logger, self.inner.info(), Operation::Read, &ctx, "failed", Some(&e));
                (Err(e), ev)
            },
        }
    }

    /// Wraps the writer that the inner accessor returned, or hands its error
    /// back unchanged.
    pub fn wrap_writer(&self, path: &str, res: Result<(RpWrite, A::Writer), Error>) -> (r: (
        Result<(RpWrite, LoggingWriter<A::Writer, I>), Error>,
        Ghost<LogEvent>,
    ))
        ensures
            match res {
                Ok((rp, v)) => r.0 is Ok && r.0->Ok_0.0 == rp && r.0->Ok_0.1.inner_spec() == v
                    && r.0->Ok_0.1.events().len() == 0 && r.0->Ok_0.1.written_count() == 0 && r.0->Ok_0.1.path_spec() == path@,
                Err(e) => r.0 == Err::<(RpWrite, LoggingWriter<A::Writer, I>), Error>(e),
            },
            r.1@ == outcome_event(Operation::Write, path_context(path@), res, "created writer"@, "failed"@),
    {
        let ctx = [("path", path)];
        proof {
            assert(pairs_view(ctx@) =~= path_context(path@));
        }
        match res {
            Ok((rp, v)) => {
                let ev = emit(&self.logger, self.inner.info(), Operation::Write, &ctx, "created writer", None);
                (Ok((rp, LoggingWriter::new(self.inner.info().duplicate(), self.logger.clone(), path, v))), ev)
            },
            Err(e) => {
                let ev = emit(&self.logger, self.inner.info(), Operation::Write, &ctx, "failed", Some(&e));
                (Err(e), ev)
            },
        }
    }

    /// Wraps the lister that the inner accessor returned, or hands its error
    /// back unchanged.
    pub fn wrap_lister(&self, path: &str, res: Result<(RpList, A::Lister), Error>) -> (r: (
        Result<(RpList, LoggingLister<A::Lister, I>), Error>,
        Ghost<LogEvent>,
    ))
        ensures
            match res {
                Ok((rp, v)) => r.0 is Ok && r.0->Ok_0.0 == rp && r.0->Ok_0.1.inner_spec() == v
                    && r.0->Ok_0.1.events().len() == 0 && r.0->Ok_0.1.listed_count() == 0 && r.0->Ok_0.1.path_spec() == path@,
                Err(e) => r.0 == Err::<(RpList, LoggingLister<A::Lister, I>), Error>(e),
            },
            r.1@ == outcome_event(Operation::List, path_context(path@), res, "created lister"@, "failed"@),
    {
        let ctx = [("path", path)];
        proof {
            assert(pairs_view(ctx@) =~= path_context(path@));
        }
        match res {
            Ok((rp, v)) => {
                let ev = emit(&self.logger, self.inner.info(), Operation::List, &ctx, "created lister", None);
                (Ok((rp, LoggingLister::new(self.inner.info().duplicate(), self.logger.clone(), path, v))), ev)
            },
            Err(e) => {
                let ev = emit(&self.logger, self.inner.info(), Operation::List, &ctx, "failed", Some(&e));
                (Err(e), ev)
            },
        }
    }

    /// Wraps the deleter that the inner accessor returned, or hands its error
    /// back unchanged.
    pub fn wrap_deleter(&self, res: Result<(RpDelete, A::Deleter), Error>) -> (r: (
        Result<(RpDelete, LoggingDeleter<A::Deleter, I>), Error>,
        Ghost<LogEvent>,
    ))
        ensures
            match res {
                Ok((rp, v)) => r.0 is Ok && r.0->Ok_0.0 == rp && r.0->Ok_0.1.inner_spec() == v
                    && r.0->Ok_0.1.events().len() == 0 && r.0->Ok_0.1.queued_count() == 0 && r.0->Ok_0.1.deleted_count() == 0,
                Err(e) => r.0 == Err::<(RpDelete, LoggingDeleter<A::Deleter, I>), Error>(e),
            },
            r.1@ == outcome_event(Operation::Delete, Seq::<(Seq<char>, Seq<char>)>::empty(), res, "finished"@, "failed"@),
    {
        let ctx: [(&str, &str); 0] = [];
        proof {
            assert(pairs_view(ctx@) =~= Seq::<(Seq<char>, Seq<char>)>::empty());
        }
        match res {
            Ok((rp, v)) => {
                let ev = emit(&self.logger, self.inner.info(), Operation::Delete, &ctx, "finished", None);
                (Ok((rp, LoggingDeleter::new(self.inner.info().duplicate(), self.logger.clone(), v))), ev)
            },
            Err(e) => {
                let ev = emit(&self.logger, self.inner.info(), Operation::Delete, &ctx, "failed", Some(&e));
                (Err(e), ev)
            },
        }
    }

    /// `create_dir`, with the events it hands to the interceptor: `started`, then
    /// `finished` or `failed`.
    pub fn create_dir_logged(&self, path: &str, args: OpCreateDir) -> (r: (Result<RpCreateDir, Error>, Ghost<Seq<LogEvent>>))
        ensures
            self.inner_spec().create_dir_post(path@, args, r.0),
            r.1@ == seq![
                log_event(Operation::CreateDir, path_context(path@), "started"@, None),
                outcome_event(Operation::CreateDir, path_context(path@), r.0, "finished"@, "failed"@),
            ],
    {
        let ctx = [("path", path)];
        proof {
            assert(pairs_view(ctx@) =~= path_context(path@));
        }
        let started = self.started(Operation::CreateDir, &ctx);
        let res = self.inner.create_dir(path, args);
        let (r, done) = self.finish(Operation::CreateDir, &ctx, res);
        let ghost events = seq![started@, done@];
        (r, Ghost(events))
    }

    /// `stat`, with the events it hands to the interceptor: `started`, then
    /// `finished` or `failed`.
    pub fn stat_logged(&self, path: &str, args: OpStat) -> (r: (Result<RpStat, Error>, Ghost<Seq<LogEvent>>))
        ensures
            self.inner_spec().stat_post(path@, args, r.0),
            r.1@ == seq![
                log_event(Operation::Stat, path_context(path@), "started"@, None),
                outcome_event(Operation::Stat, path_context(path@), r.0, "finished"@, "failed"@),
            ],
    {
        let ctx = [("path", path)];
        proof {
            assert(pairs_view(ctx@) =~= path_context(path@));
        }
        let started = self.started(Operation::Stat, &ctx);
        let res = self.inner.stat(path, args);
        let (r, done) = self.finish(Operation::Stat, &ctx, res);
        let ghost events = seq![started@, done@];
        (r, Ghost(events))
    }

    /// `copy`, with the events it hands to the interceptor: `started`, then
    /// `finished` or `failed`.
    pub fn copy_logged(&self, from: &str, to: &str, args: OpCopy) -> (r: (Result<RpCopy, Error>, Ghost<Seq<LogEvent>>))
        ensures
            self.inner_spec().copy_post(from@, to@, args, r.0),
            r.1@ == seq![
                log_event(Operation::Copy, from_to_context(from@, to@), "started"@, None),
                outcome_event(Operation::Copy, from_to_context(from@, to@), r.0, "finished"@, "failed"@),
            ],
    {
        let ctx = [("from", from), ("to", to)];
        proof {
            assert(pairs_view(ctx@) =~= from_to_context(from@, to@));
        }
        let started = self.started(Operation::Copy, &ctx);
        let res = self.inner.copy(from, to, args);
        let (r, done) = self.finish(Operation::Copy, &ctx, res);
        let ghost events = seq![started@, done@];
        (r, Ghost(events))
    }

    /// `rename`, with the events it hands to the interceptor: `started`, then
    /// `finished` or `failed`.
    pub fn rename_logged(&self, from: &str, to: &str, args: OpRename) -> (r: (Result<RpRename, Error>, Ghost<Seq<LogEvent>>))
        ensures
            self.inner_spec().rename_post(from@, to@, args, r.0),
            r.1@ == seq![
                log_event(Operation::Rename, from_to_context(from@, to@), "started"@, None),
                outcome_event(Operation::Rename, from_to_context(from@, to@), r.0, "finished"@, "failed"@),
            ],
    {
        let ctx = [("from", from), ("to", to)];
        proof {
            assert(pairs_view(ctx@) =~= from_to_context(from@, to@));
        }
        let started = self.started(Operation::Rename, &ctx);
        let res = self.inner.rename(from, to, args);
        let (r, done) = self.finish(Operation::Rename, &ctx, res);
        let ghost events = seq![started@, done@];
        (r, Ghost(events))
    }

    /// `presign`, with the events it hands to the interceptor: `started`, then
    /// `finished` or `failed`.
    pub fn presign_logged(&self, path: &str, args: OpPresign) -> (r: (Result<RpPresign, Error>, Ghost<Seq<LogEvent>>))
        ensures
            self.inner_spec().presign_post(path@, args, r.0),
            r.1@ == seq![
                log_event(Operation::Presign, path_context(path@), "started"@, None),
                outcome_event(Operation::Presign, path_context(path@), r.0, "finished"@, "failed"@),
            ],
    {
        let ctx = [("path", path)];
        proof {
            assert(pairs_view(ctx@) =~= path_context(path@));
        }
        let started = self.started(Operation::Presign, &ctx);
        let res = self.inner.presign(path, args);
        let (r, done) = self.finish(Operation::Presign, &ctx, res);
        let ghost events = seq![started@, done@];
        (r, Ghost(events))
    }

    /// `read`, with the events it hands to the interceptor: `started`, then
    /// `created reader` or `failed`.
    pub fn read_logged(&self, path: &str, args: OpRead) -> (r: (Result<(RpRead, LoggingReader<A::Reader, I>), Error>, Ghost<Seq<LogEvent>>))
        ensures
            self.read_post(path@, args, r.0),
            r.1@ == seq![
                log_event(Operation::Read, path_context(path@), "started"@, None),
                outcome_event(Operation::Read, path_context(path@), r.0, "created reader"@, "failed"@),
            ],
    {
        let ctx = [("path", path)];
        proof {
            assert(pairs_view(ctx@) =~= path_context(path@));
        }
        let started = self.started(Operation::Read, &ctx);
        let res = self.inner.read(path, args);
        let (r, done) = self.wrap_reader(path, res);
        let ghost events = seq![started@, done@];
        (r, Ghost(events))
    }

    /// `write`, with the events it hands to the interceptor: `started`, then
    /// `created writer` or `failed`.
    pub fn write_logged(&self, path: &str, args: OpWrite) -> (r: (Result<(RpWrite, LoggingWriter<A::Writer, I>), Error>, Ghost<Seq<LogEvent>>))
        ensures
            self.write_post(path@, args, r.0),
            r.0 is Ok ==> r.0->Ok_0.1.inv(),
            r.1@ == seq![
                log_event(Operation::Write, path_context(path@), "started"@, None),
                outcome_event(Operation::Write, path_context(path@), r.0, "created writer"@, "failed"@),
            ],
    {
        let ctx = [("path", path)];
        proof {
            assert(pairs_view(ctx@) =~= path_context(path@));
        }
        let started = self.started(Operation::Write, &ctx);
        let res = self.inner.write(path, args);
        let (r, done) = self.wrap_writer(path, res);
        let ghost events = seq![started@, done@];
        (r, Ghost(events))
    }

    /// `list`, with the events it hands to the interceptor: `started`, then
    /// `created lister` or `failed`.
    pub fn list_logged(&self, path: &str, args: OpList) -> (r: (Result<(RpList, LoggingLister<A::Lister, I>), Error>, Ghost<Seq<LogEvent>>))
        ensures
            self.list_post(path@, args, r.0),
            r.1@ == seq![
                log_event(Operation::List, path_context(path@), "started"@, None),
                outcome_event(Operation::List, path_context(path@), r.0, "created lister"@, "failed"@),
            ],
    {
        let ctx = [("path", path)];
        proof {
            assert(pairs_view(ctx@) =~= path_context(path@));
        }
        let started = self.started(Operation::List, &ctx);
        let res = self.inner.list(path, args);
        let (r, done) = self.wrap_lister(path, res);
        let ghost events = seq![started@, done@];
        (r, Ghost(events))
    }

    /// `delete`, with the events it hands to the interceptor: `started`, then
    /// `finished` or `failed`.
    pub fn delete_logged(&self) -> (r: (Result<(RpDelete, LoggingDeleter<A::Deleter, I>), Error>, Ghost<Seq<LogEvent>>))
        ensures
            self.delete_post(r.0),
            r.1@ == seq![
                log_event(Operation::Delete, Seq::<(Seq<char>, Seq<char>)>::empty(), "started"@, None),
                outcome_event(Operation::Delete, Seq::<(Seq<char>, Seq<char>)>::empty(), r.0, "finished"@, "failed"@),
            ],
    {
        let ctx: [(&str, &str); 0] = [];
        proof {
            assert(pairs_view(ctx@) =~= Seq::<(Seq<char>, Seq<char>)>::empty());
        }
        let started = self.started(Operation::Delete, &ctx);
        let res = self.inner.delete();
        let (r, done) = self.wrap_deleter(res);
        let ghost events = seq![started@, done@];
        (r, Ghost(events))
    }
}

impl<A: Access, I: LoggingInterceptor> Access for LoggingAccessor<A, I> {
    type Reader = LoggingReader<A::Reader, I>;

    type Writer = LoggingWriter<A::Writer, I>;

    type Lister = LoggingLister<A::Lister, I>;

    type Deleter = LoggingDeleter<A::Deleter, I>;

    open spec fn info_post(&self, r: AccessorInfoView) -> bool {
        self.inner_spec().info_post(r)
    }

    fn info(&self) -> (r: &AccessorInfo) {
        self.inner.info()
    }

    open spec fn create_dir_post(&self, path: Seq<char>, args: OpCreateDir, r: Result<RpCreateDir, Error>) -> bool {
        self.inner_spec().create_dir_post(path, args, r)
    }

    fn create_dir(&self, path: &str, args: OpCreateDir) -> (r: Result<RpCreateDir, Error>) {
        self.create_dir_logged(path, args).0
    }

    open spec fn stat_post(&self, path: Seq<char>, args: OpStat, r: Result<RpStat, Error>) -> bool {
        self.inner_spec().stat_post(path, args, r)
    }

    fn stat(&self, path: &str, args: OpStat) -> (r: Result<RpStat, Error>) {
        self.stat_logged(path, args).0
    }

    open spec fn copy_post(&self, from: Seq<char>, to: Seq<char>, args: OpCopy, r: Result<RpCopy, Error>) -> bool {
        self.inner_spec().copy_post(from, to, args, r)
    }

    fn copy(&self, from: &str, to: &str, args: OpCopy) -> (r: Result<RpCopy, Error>) {
        self.copy_logged(from, to, args).0
    }

    open spec fn rename_post(&self, from: Seq<char>, to: Seq<char>, args: OpRename, r: Result<RpRename, Error>) -> bool {
        self.inner_spec().rename_post(from, to, args, r)
    }

    fn rename(&self, from: &str, to: &str, args: OpRename) -> (r: Result<RpRename, Error>) {
        self.rename_logged(from, to, args).0
    }

    open spec fn presign_post(&self, path: Seq<char>, args: OpPresign, r: Result<RpPresign, Error>) -> bool {
        self.inner_spec().presign_post(path, args, r)
    }

    fn presign(&self, path: &str, args: OpPresign) -> (r: Result<RpPresign, Error>) {
        self.presign_logged(path, args).0
    }

    open spec fn read_post(&self, path: Seq<char>, args: OpRead, r: Result<(RpRead, Self::Reader), Error>) -> bool {
        match r {
            Ok((rp, v)) => self.inner_spec().read_post(path, args, Ok(
                (rp, v.inner_spec()),
            )) && v.read_count() == 0 && v.path_spec() == path && v.events().len() == 0,
            Err(e) => self.inner_spec().read_post(path, args, Err(e)),
        }
    }

    fn read(&self, path: &str, args: OpRead) -> (r: Result<(RpRead, Self::Reader), Error>) {
        self.read_logged(path, args).0
    }

    open spec fn write_post(&self, path: Seq<char>, args: OpWrite, r: Result<(RpWrite, Self::Writer), Error>) -> bool {
        match r {
            Ok((rp, v)) => self.inner_spec().write_post(path, args, Ok(
                (rp, v.inner_spec()),
            )) && v.written_count() == 0 && v.path_spec() == path && v.events().len() == 0,
            Err(e) => self.inner_spec().write_post(path, args, Err(e)),
        }
    }

    fn write(&self, path: &str, args: OpWrite) -> (r: Result<(RpWrite, Self::Writer), Error>) {
        self.write_logged(path, args).0
    }

    open spec fn list_post(&self, path: Seq<char>, args: OpList, r: Result<(RpList, Self::Lister), Error>) -> bool {
        match r {
            Ok((rp, v)) => self.inner_spec().list_post(path, args, Ok(
                (rp, v.inner_spec()),
            )) && v.listed_count() == 0 && v.path_spec() == path && v.events().len() == 0,
            Err(e) => self.inner_spec().list_post(path, args, Err(e)),
        }
    }

    fn list(&self, path: &str, args: OpList) -> (r: Result<(RpList, Self::Lister), Error>) {
        self.list_logged(path, args).0
    }

    open spec fn delete_post(&self, r: Result<(RpDelete, Self::Deleter), Error>) -> bool {
        match r {
            Ok((rp, v)) => self.inner_spec().delete_post(Ok(
                (rp, v.inner_spec()),
            )) && v.queued_count() == 0 && v.deleted_count() == 0 && v.events().len() == 0,
            Err(e) => self.inner_spec().delete_post(Err(e)),
        }
    }

    fn delete(&self) -> (r: Result<(RpDelete, Self::Deleter), Error>) {
        self.delete_logged().0
    }
}

/// `a + b`, or the largest value of the counter's type `max` if that is
/// exceeded.
pub open spec fn sat_add(a: nat, b: nat, max: nat) -> nat {
    if a + b > max {
        max
    } else {
        a + b
    }
}

/// `a - b`, or zero if `b` exceeds `a`.
pub open spec fn sat_sub(a: nat, b: nat) -> nat {
    if b > a {
        0
    } else {
        (a - b) as nat
    }
}

pub open spec fn counter_pair(key: Seq<char>, n: nat) -> (Seq<char>, Seq<char>) {
    (key, decimal(n))
}

/// A reader that counts the bytes it delivered and reports the end of the
/// stream and failures.
pub struct LoggingReader<R, I> {
    info: AccessorInfo,
    logger: I,
    path: String,
    read: u64,
    inner: R,
    events: Ghost<Seq<LogEvent>>,
}

impl<R: Read, I: LoggingInterceptor> LoggingReader<R, I> {
    /// The events handed to the interceptor so far, in order.
    pub closed spec fn events(&self) -> Seq<LogEvent> {
        self.events@
    }

    pub closed spec fn info_spec(&self) -> AccessorInfoView {
        self.info@
    }

    pub closed spec fn logger_spec(&self) -> I {
        self.logger
    }

    pub closed spec fn inner_spec(&self) -> R {
        self.inner
    }

    pub closed spec fn read_count(&self) -> nat {
        self.read as nat
    }

    pub closed spec fn path_spec(&self) -> Seq<char> {
        self.path@
    }

    pub fn new(info: AccessorInfo, logger: I, path: &str, reader: R) -> (r: Self)
        ensures
            r.inner_spec() == reader,
            r.events().len() == 0,
            r.info_spec() == info@,
            r.logger_spec() == logger,
            r.read_count() == 0,
            r.path_spec() == path@,
    {
        LoggingReader { info, logger, path: path.to_string(), read: 0, inner: reader, events: Ghost(Seq::empty()) }
    }

    /// Bytes delivered so far.
    pub fn read_bytes(&self) -> (r: u64)
        ensures
            r == self.read_count(),
    {
        self.read
    }


    /// What the wrapper itself does for this outcome: counters and events.
    pub open spec fn read_observed(before: Self, after: Self, res: Result<Buffer, Error>) -> bool {
        &&& after.events() == match res {
            Ok(bs) => if bs@.len() == 0 {
                before.events().push(
                    log_event(
                        Operation::Read,
                        seq![
                            ("path"@, before.path_spec()),
                            counter_pair("read"@, before.read_count()),
                            counter_pair("size"@, 0),
                        ],
                        "finished"@,
                        None,
                    ),
                )
            } else {
                before.events()
            },
            Err(e) => before.events().push(
                log_event(
                    Operation::Read,
                    seq![("path"@, before.path_spec()), counter_pair("read"@, before.read_count())],
                    "failed"@,
                    Some(e@),
                ),
            )
        }
        &&& after.path_spec() == before.path_spec()
        &&& after.read_count() == match res {
            Ok(bs) => sat_add(before.read_count(), bs@.len(), u64::MAX as nat),
            Err(_) => before.read_count()
        }
        &&& after.info_spec() == before.info_spec()
        &&& after.logger_spec() == before.logger_spec()
    }

    /// Accounts for what the inner reader returned and hands it back
    /// unchanged.
    pub fn observe(&mut self, res: Result<Buffer, Error>) -> (r: Result<Buffer, Error>)
        ensures
            r == res,
            final(self).inner_spec() == old(self).inner_spec(),
            Self::read_observed(*old(self), *final(self), res),
    {
        match res {
            Ok(bs) => {
                if bs.is_empty() {
                    let read = decimal_string(self.read);
                    let size = decimal_string(0);
                    let ctx = [("path", self.path.as_str()), ("read", read.as_str()), ("size", size.as_str())];
                    proof {
                        assert(pairs_view(ctx@) =~= seq![("path"@, self.path@), ("read"@, read@), ("size"@, size@)]);
                    }
                    let ev = emit(&self.logger, &self.info, Operation::Read, &ctx, "finished", None);
                proof {
                    self.events@ = self.events@.push(ev@);
                }
                } else {
                    let n = bs.len() as u64;
                    self.read = if u64::MAX - self.read < n {
                        u64::MAX
                    } else {
                        self.read + n
                    };
                }
                Ok(bs)
            },
            Err(e) => {
                let read = decimal_string(self.read);
                let ctx = [("path", self.path.as_str()), ("read", read.as_str())];
                proof {
                    assert(pairs_view(ctx@) =~= seq![("path"@, self.path@), ("read"@, read@)]);
                }
                let ev = emit(&self.logger, &self.info, Operation::Read, &ctx, "failed", Some(&e));
                proof {
                    self.events@ = self.events@.push(ev@);
                }
                Err(e)
            },
        }
    }
}

impl<R: Read, I: LoggingInterceptor> Read for LoggingReader<R, I> {
    open spec fn read_rel(&self, after: Self, r: Result<Buffer, Error>) -> bool {
        &&& self.inner_spec().read_rel(after.inner_spec(), r)
        &&& Self::read_observed(*self, after, r)
    }

    fn read(&mut self) -> (r: Result<Buffer, Error>) {
        let res = self.inner.read();
        self.observe(res)
    }
}

/// A writer that counts the bytes it accepted and reports how it ended.
pub struct LoggingWriter<W, I> {
    info: AccessorInfo,
    logger: I,
    path: String,
    written: u64,
    inner: W,
    events: Ghost<Seq<LogEvent>>,
}

impl<W: Write, I: LoggingInterceptor> LoggingWriter<W, I> {
    /// The events handed to the interceptor so far, in order.
    pub closed spec fn events(&self) -> Seq<LogEvent> {
        self.events@
    }

    pub closed spec fn info_spec(&self) -> AccessorInfoView {
        self.info@
    }

    pub closed spec fn logger_spec(&self) -> I {
        self.logger
    }

    pub closed spec fn inner_spec(&self) -> W {
        self.inner
    }

    pub closed spec fn written_count(&self) -> nat {
        self.written as nat
    }

    pub closed spec fn path_spec(&self) -> Seq<char> {
        self.path@
    }

    pub fn new(info: AccessorInfo, logger: I, path: &str, writer: W) -> (r: Self)
        ensures
            r.inner_spec() == writer,
            r.events().len() == 0,
            r.info_spec() == info@,
            r.logger_spec() == logger,
            r.written_count() == 0,
            r.path_spec() == path@,
    {
        LoggingWriter { info, logger, path: path.to_string(), written: 0, inner: writer, events: Ghost(Seq::empty()) }
    }

    /// Bytes accepted so far.
    pub fn written_bytes(&self) -> (r: u64)
        ensures
            r == self.written_count(),
    {
        self.written
    }


    /// What the wrapper itself does for this outcome: counters and events.
    pub open spec fn write_observed(before: Self, after: Self, size: usize, res: Result<(), Error>) -> bool {
        &&& after.events() == match res {
            Ok(_) => before.events(),
            Err(e) => before.events().push(
                log_event(
                    Operation::Write,
                    seq![
                        ("path"@, before.path_spec()),
                        counter_pair("written"@, before.written_count()),
                        counter_pair("size"@, size as nat),
                    ],
                    "failed"@,
                    Some(e@),
                ),
            )
        }
        &&& after.path_spec() == before.path_spec()
        &&& after.written_count() == if res is Ok {
            sat_add(before.written_count(), size as nat, u64::MAX as nat)
        } else {
            before.written_count()
        }
        &&& after.info_spec() == before.info_spec()
        &&& after.logger_spec() == before.logger_spec()
    }

    /// Accounts for a write of `size` bytes and hands its result back
    /// unchanged.
    pub fn observe_write(&mut self, size: usize, res: Result<(), Error>) -> (r: Result<(), Error>)
        ensures
            r == res,
            final(self).inner_spec() == old(self).inner_spec(),
            Self::write_observed(*old(self), *final(self), size, res),
    {
        match res {
            Ok(u) => {
                let n = size as u64;
                self.written = if u64::MAX - self.written < n {
                    u64::MAX
                } else {
                    self.written + n
                };
                Ok(u)
            },
            Err(e) => {
                let written = decimal_string(self.written);
                let sz = decimal_string(size as u64);
                let ctx = [("path", self.path.as_str()), ("written", written.as_str()), ("size", sz.as_str())];
                proof {
                    assert(pairs_view(ctx@) =~= seq![("path"@, self.path@), ("written"@, written@), ("size"@, sz@)]);
                }
                let ev = emit(&self.logger, &self.info, Operation::Write, &ctx, "failed", Some(&e));
                proof {
                    self.events@ = self.events@.push(ev@);
                }
                Err(e)
            },
        }
    }


    /// What the wrapper itself does for this outcome: counters and events.
    pub open spec fn close_observed(before: Self, after: Self, res: Result<Metadata, Error>) -> bool {
        &&& after.path_spec() == before.path_spec()
        &&& after.written_count() == before.written_count()
        &&& after.events() == before.events().push(
            outcome_event(
                Operation::Write,
                seq![("path"@, before.path_spec()), counter_pair("written"@, before.written_count())],
                res,
                "close succeeded"@,
                "close failed"@,
            )
        )
        &&& after.info_spec() == before.info_spec()
        &&& after.logger_spec() == before.logger_spec()
    }

    /// Reports how `close` ended and hands its result back unchanged.
    pub fn observe_close(&mut self, res: Result<Metadata, Error>) -> (r: Result<Metadata, Error>)
        ensures
            final(self).inner_spec() == old(self).inner_spec(),
            r == res,
            Self::close_observed(*old(self), *final(self), res),
    {
        let written = decimal_string(self.written);
        let ctx = [("path", self.path.as_str()), ("written", written.as_str())];
        proof {
            assert(pairs_view(ctx@) =~= seq![("path"@, self.path@), ("written"@, written@)]);
        }
        match res {
            Ok(meta) => {
                let ev = emit(&self.logger, &self.info, Operation::Write, &ctx, "close succeeded", None);
                proof {
                    self.events@ = self.events@.push(ev@);
                }
                Ok(meta)
            },
            Err(e) => {
                let ev = emit(&self.logger, &self.info, Operation::Write, &ctx, "close failed", Some(&e));
                proof {
                    self.events@ = self.events@.push(ev@);
                }
                Err(e)
            },
        }
    }


    /// What the wrapper itself does for this outcome: counters and events.
    pub open spec fn abort_observed(before: Self, after: Self, res: Result<(), Error>) -> bool {
        &&& after.path_spec() == before.path_spec()
        &&& after.written_count() == before.written_count()
        &&& after.events() == before.events().push(
            outcome_event(
                Operation::Write,
                seq![("path"@, before.path_spec()), counter_pair("written"@, before.written_count())],
                res,
                "abort succeeded"@,
                "abort failed"@,
            )
        )
        &&& after.info_spec() == before.info_spec()
        &&& after.logger_spec() == before.logger_spec()
    }

    /// Reports how `abort` ended and hands its result back unchanged.
    pub fn observe_abort(&mut self, res: Result<(), Error>) -> (r: Result<(), Error>)
        ensures
            final(self).inner_spec() == old(self).inner_spec(),
            r == res,
            Self::abort_observed(*old(self), *final(self), res),
    {
        let written = decimal_string(self.written);
        let ctx = [("path", self.path.as_str()), ("written", written.as_str())];
        proof {
            assert(pairs_view(ctx@) =~= seq![("path"@, self.path@), ("written"@, written@)]);
        }
        match res {
            Ok(u) => {
                let ev = emit(&self.logger, &self.info, Operation::Write, &ctx, "abort succeeded", None);
                proof {
                    self.events@ = self.events@.push(ev@);
                }
                Ok(u)
            },
            Err(e) => {
                let ev = emit(&self.logger, &self.info, Operation::Write, &ctx, "abort failed", Some(&e));
                proof {
                    self.events@ = self.events@.push(ev@);
                }
                Err(e)
            },
        }
    }
}

impl<W: Write, I: LoggingInterceptor> Write for LoggingWriter<W, I> {
    closed spec fn inv(&self) -> bool {
        self.inner.inv()
    }

    open spec fn write_rel(&self, after: Self, bs: Seq<u8>, r: Result<(), Error>) -> bool {
        &&& self.inner_spec().write_rel(after.inner_spec(), bs, r)
        &&& Self::write_observed(*self, after, bs.len() as usize, r)
    }

    open spec fn close_rel(&self, after: Self, r: Result<Metadata, Error>) -> bool {
        &&& self.inner_spec().close_rel(after.inner_spec(), r)
        &&& Self::close_observed(*self, after, r)
    }

    open spec fn abort_rel(&self, after: Self, r: Result<(), Error>) -> bool {
        &&& self.inner_spec().abort_rel(after.inner_spec(), r)
        &&& Self::abort_observed(*self, after, r)
    }

    fn write(&mut self, bs: Buffer) -> (r: Result<(), Error>) {
        let size = bs.len();
        let res = self.inner.write(bs);
        self.observe_write(size, res)
    }

    fn close(&mut self) -> (r: Result<Metadata, Error>) {
        let res = self.inner.close();
        self.observe_close(res)
    }

    fn abort(&mut self) -> (r: Result<(), Error>) {
        let res = self.inner.abort();
        self.observe_abort(res)
    }
}

/// A lister that counts the entries it delivered and reports the end of
/// the listing and failures.
pub struct LoggingLister<P, I> {
    info: AccessorInfo,
    logger: I,
    path: String,
    listed: usize,
    inner: P,
    events: Ghost<Seq<LogEvent>>,
}

impl<P: List, I: LoggingInterceptor> LoggingLister<P, I> {
    /// The events handed to the interceptor so far, in order.
    pub closed spec fn events(&self) -> Seq<LogEvent> {
        self.events@
    }

    pub closed spec fn info_spec(&self) -> AccessorInfoView {
        self.info@
    }

    pub closed spec fn logger_spec(&self) -> I {
        self.logger
    }

    pub closed spec fn inner_spec(&self) -> P {
        self.inner
    }

    pub closed spec fn listed_count(&self) -> nat {
        self.listed as nat
    }

    pub closed spec fn path_spec(&self) -> Seq<char> {
        self.path@
    }

    pub fn new(info: AccessorInfo, logger: I, path: &str, inner: P) -> (r: Self)
        ensures
            r.inner_spec() == inner,
            r.listed_count() == 0,
            r.events().len() == 0,
            r.info_spec() == info@,
            r.logger_spec() == logger,
            r.path_spec() == path@,
    {
        LoggingLister { info, logger, path: path.to_string(), listed: 0, inner, events: Ghost(Seq::empty()) }
    }

    /// Entries delivered so far.
    pub fn listed_entries(&self) -> (r: usize)
        ensures
            r == self.listed_count(),
    {
        self.listed
    }


    /// What the wrapper itself does for this outcome: counters and events.
    pub open spec fn next_observed(before: Self, after: Self, res: Result<Option<Entry>, Error>) -> bool {
        &&& after.events() == match res {
            Ok(Some(_)) => before.events(),
            Ok(None) => before.events().push(
                log_event(
                    Operation::List,
                    seq![("path"@, before.path_spec()), counter_pair("listed"@, before.listed_count())],
                    "finished"@,
                    None,
                ),
            ),
            Err(e) => before.events().push(
                log_event(
                    Operation::List,
                    seq![("path"@, before.path_spec()), counter_pair("listed"@, before.listed_count())],
                    "failed"@,
                    Some(e@),
                ),
            )
        }
        &&& after.path_spec() == before.path_spec()
        &&& after.listed_count() == match res {
            Ok(Some(_)) => sat_add(before.listed_count(), 1, usize::MAX as nat),
            _ => before.listed_count()
        }
        &&& after.info_spec() == before.info_spec()
        &&& after.logger_spec() == before.logger_spec()
    }

    /// Accounts for what the inner lister returned and hands it back
    /// unchanged.
    pub fn observe(&mut self, res: Result<Option<Entry>, Error>) -> (r: Result<Option<Entry>, Error>)
        ensures
            r == res,
            final(self).inner_spec() == old(self).inner_spec(),
            Self::next_observed(*old(self), *final(self), res),
    {
        match res {
            Ok(Some(entry)) => {
                if self.listed < usize::MAX {
                    self.listed = self.listed + 1;
                }
                Ok(Some(entry))
            },
            Ok(None) => {
                let listed = decimal_string(self.listed as u64);
                let ctx = [("path", self.path.as_str()), ("listed", listed.as_str())];
                proof {
                    assert(pairs_view(ctx@) =~= seq![("path"@, self.path@), ("listed"@, listed@)]);
                }
                let ev = emit(&self.logger, &self.info, Operation::List, &ctx, "finished", None);
                proof {
                    self.events@ = self.events@.push(ev@);
                }
                Ok(None)
            },
            Err(e) => {
                let listed = decimal_string(self.listed as u64);
                let ctx = [("path", self.path.as_str()), ("listed", listed.as_str())];
                proof {
                    assert(pairs_view(ctx@) =~= seq![("path"@, self.path@), ("listed"@, listed@)]);
                }
                let ev = emit(&self.logger, &self.info, Operation::List, &ctx, "failed", Some(&e));
                proof {
                    self.events@ = self.events@.push(ev@);
                }
                Err(e)
            },
        }
    }
}

impl<P: List, I: LoggingInterceptor> List for LoggingLister<P, I> {
    open spec fn next_rel(&self, after: Self, r: Result<Option<Entry>, Error>) -> bool {
        &&& self.inner_spec().next_rel(after.inner_spec(), r)
        &&& Self::next_observed(*self, after, r)
    }

    fn next(&mut self) -> (r: Result<Option<Entry>, Error>) {
        let res = self.inner.next();
        self.observe(res)
    }
}

/// A deleter that counts queued and deleted objects and reports flushes
/// and failures.
pub struct LoggingDeleter<D, I> {
    info: AccessorInfo,
    logger: I,
    queued: usize,
    deleted: usize,
    inner: D,
    events: Ghost<Seq<LogEvent>>,
}

impl<D: Delete, I: LoggingInterceptor> LoggingDeleter<D, I> {
    /// The events handed to the interceptor so far, in order.
    pub closed spec fn events(&self) -> Seq<LogEvent> {
        self.events@
    }

    pub closed spec fn info_spec(&self) -> AccessorInfoView {
        self.info@
    }

    pub closed spec fn logger_spec(&self) -> I {
        self.logger
    }

    pub closed spec fn inner_spec(&self) -> D {
        self.inner
    }

    pub closed spec fn queued_count(&self) -> nat {
        self.queued as nat
    }

    pub closed spec fn deleted_count(&self) -> nat {
        self.deleted as nat
    }

    pub fn new(info: AccessorInfo, logger: I, inner: D) -> (r: Self)
        ensures
            r.inner_spec() == inner,
            r.queued_count() == 0,
            r.events().len() == 0,
            r.info_spec() == info@,
            r.logger_spec() == logger,
            r.deleted_count() == 0,
    {
        LoggingDeleter { info, logger, queued: 0, deleted: 0, inner, events: Ghost(Seq::empty()) }
    }

    /// Deletions submitted and not yet flushed.
    pub fn queued(&self) -> (r: usize)
        ensures
            r == self.queued_count(),
    {
        self.queued
    }

    /// Objects deleted by the flushes so far.
    pub fn deleted(&self) -> (r: usize)
        ensures
            r == self.deleted_count(),
    {
        self.deleted
    }


    /// What the wrapper itself does for this outcome: counters and events.
    pub open spec fn delete_observed(before: Self, after: Self, path: Seq<char>, version: Seq<char>, res: Result<(), Error>) -> bool {
        &&& after.events() == match res {
            Ok(_) => before.events(),
            Err(e) => before.events().push(
                log_event(
                    Operation::Delete,
                    seq![
                        ("path"@, path),
                        ("version"@, version),
                        counter_pair("queued"@, before.queued_count()),
                        counter_pair("deleted"@, before.deleted_count()),
                    ],
                    "failed"@,
                    Some(e@),
                ),
            )
        }
        &&& after.deleted_count() == before.deleted_count()
        &&& after.queued_count() == if res is Ok {
            sat_add(before.queued_count(), 1, usize::MAX as nat)
        } else {
            before.queued_count()
        }
        &&& after.info_spec() == before.info_spec()
        &&& after.logger_spec() == before.logger_spec()
    }

    /// Accounts for one submission of `path` at `version` and hands its
    /// result back unchanged.
    pub fn observe_delete(&mut self, path: &str, version: &str, res: Result<(), Error>) -> (r: Result<
        (),
        Error,
    >)
        ensures
            r == res,
            final(self).inner_spec() == old(self).inner_spec(),
            Self::delete_observed(*old(self), *final(self), path@, version@, res),
    {
        match res {
            Ok(u) => {
                if self.queued < usize::MAX {
                    self.queued = self.queued + 1;
                }
                Ok(u)
            },
            Err(e) => {
                let queued = decimal_string(self.queued as u64);
                let deleted = decimal_string(self.deleted as u64);
                let ctx = [
                    ("path", path),
                    ("version", version),
                    ("queued", queued.as_str()),
                    ("deleted", deleted.as_str()),
                ];
                proof {
                    assert(pairs_view(ctx@) =~= seq![("path"@, path@), ("version"@, version@), ("queued"@, queued@), ("deleted"@, deleted@)]);
                }
                let ev = emit(&self.logger, &self.info, Operation::Delete, &ctx, "failed", Some(&e));
                proof {
                    self.events@ = self.events@.push(ev@);
                }
                Err(e)
            },
        }
    }


    /// What the wrapper itself does for this outcome: counters and events.
    pub open spec fn flush_observed(before: Self, after: Self, res: Result<usize, Error>) -> bool {
        &&& after.events() == before.events().push(
            match res {
                Ok(_) => log_event(
                    Operation::Delete,
                    seq![
                        counter_pair("queued"@, after.queued_count()),
                        counter_pair("deleted"@, after.deleted_count()),
                    ],
                    "succeeded"@,
                    None,
                ),
                Err(e) => log_event(
                    Operation::Delete,
                    seq![
                        counter_pair("queued"@, before.queued_count()),
                        counter_pair("deleted"@, before.deleted_count()),
                    ],
                    "failed"@,
                    Some(e@),
                ),
            }
        )
        &&& match res {
            Ok(n) => {
                &&& after.queued_count() == sat_sub(before.queued_count(), n as nat)
                &&& after.deleted_count() == sat_add(
                    before.deleted_count(),
                    n as nat,
                    usize::MAX as nat,
                )
            },
            Err(_) => {
                &&& after.queued_count() == before.queued_count()
                &&& after.deleted_count() == before.deleted_count()
            }
        }
        &&& after.info_spec() == before.info_spec()
        &&& after.logger_spec() == before.logger_spec()
    }

    /// Accounts for a flush and hands its result back unchanged: the flushed
    /// count moves from queued to deleted.
    pub fn observe_flush(&mut self, res: Result<usize, Error>) -> (r: Result<usize, Error>)
        ensures
            r == res,
            final(self).inner_spec() == old(self).inner_spec(),
            Self::flush_observed(*old(self), *final(self), res),
    {
        match res {
            Ok(n) => {
                self.queued = if n > self.queued {
                    0
                } else {
                    self.queued - n
                };
                self.deleted = if usize::MAX - self.deleted < n {
                    usize::MAX
                } else {
                    self.deleted + n
                };
                let queued = decimal_string(self.queued as u64);
                let deleted = decimal_string(self.deleted as u64);
                let ctx = [("queued", queued.as_str()), ("deleted", deleted.as_str())];
                proof {
                    assert(pairs_view(ctx@) =~= seq![("queued"@, queued@), ("deleted"@, deleted@)]);
                }
                let ev = emit(&self.logger, &self.info, Operation::Delete, &ctx, "succeeded", None);
                proof {
                    self.events@ = self.events@.push(ev@);
                }
                Ok(n)
            },
            Err(e) => {
                let queued = decimal_string(self.queued as u64);
                let deleted = decimal_string(self.deleted as u64);
                let ctx = [("queued", queued.as_str()), ("deleted", deleted.as_str())];
                proof {
                    assert(pairs_view(ctx@) =~= seq![("queued"@, queued@), ("deleted"@, deleted@)]);
                }
                let ev = emit(&self.logger, &self.info, Operation::Delete, &ctx, "failed", Some(&e));
                proof {
                    self.events@ = self.events@.push(ev@);
                }
                Err(e)
            },
        }
    }
}

impl<D: Delete, I: LoggingInterceptor> Delete for LoggingDeleter<D, I> {
    open spec fn delete_rel(&self, after: Self, path: Seq<char>, args: OpDelete, r: Result<(), Error>) -> bool {
        &&& self.inner_spec().delete_rel(after.inner_spec(), path, args, r)
        &&& Self::delete_observed(*self, after, path, version_text(args), r)
    }

    open spec fn flush_rel(&self, after: Self, r: Result<usize, Error>) -> bool {
        &&& self.inner_spec().flush_rel(after.inner_spec(), r)
        &&& Self::flush_observed(*self, after, r)
    }

    fn delete(&mut self, path: &str, args: OpDelete) -> (r: Result<(), Error>) {
        let version = match &args.version {
            Some(v) => v.clone(),
            None => String::from_str("<latest>"),
        };
        let res = self.inner.delete(path, args);
        self.observe_delete(path, version.as_str(), res)
    }

    fn flush(&mut self) -> (r: Result<usize, Error>) {
        let res = self.inner.flush();
        self.observe_flush(res)
    }
}

} // verus!
