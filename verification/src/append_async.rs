//! The decisions of the asynchronous appender: how a task is handed to the worker thread, and
//! what a log call or a flush returns. The thread and the appenders it drives are the caller's.
use vstd::prelude::*;

use crate::error::Error;
use crate::kv::{entries_of, owned_model, Key, KeyOwned, KeyValues, Value, ValueModel, ValueOwned, ValueView, value_text, view_model};
use crate::level::Level;
use crate::record::{Record, RecordBuilder};
use crate::str::RefStr;

use std::borrow::Cow;
use std::time::SystemTime;

use std::sync::mpsc;

verus! {

/// What happens to a task when the channel to the worker is full.
#[derive(Clone, Copy, Debug, PartialEq, Eq, Structural)]
pub enum Overflow {
    /// Blocks until the channel is not full.
    Block,
    /// Drops the incoming task.
    DropIncoming,
}

/// The two kinds of task that the worker receives.
#[derive(Clone, Copy, Debug, PartialEq, Eq, Structural)]
pub enum TaskKind {
    /// Append a log record.
    Log,
    /// Flush the appenders.
    Flush,
}

/// A value that could not be sent because the receiving half is gone; the value comes back.
pub struct SendError<T>(pub T);

/// A value that could not be sent at once; the value comes back.
pub enum TrySendError<T> {
    /// The channel is full.
    Full(T),
    /// The receiving half is gone.
    Disconnected(T),
}

/// What one operation on a channel did with a value handed to it.
pub enum ChannelOp<T> {
    /// A send that waits while a bounded channel is full: the value was queued (`queued`), or
    /// came back because the receiving half is gone.
    Send { value: T, queued: bool },
    /// A send that does not wait: the value was queued (`queued`), or came back because the
    /// channel was full (`full`) or the receiving half is gone.
    TrySend { value: T, queued: bool, full: bool },
}

/// The sending half of an unbounded channel, with the record of the operations made through it.
#[verifier::reject_recursive_types(T)]
pub struct UnboundedSender<T> {
    tx: mpsc::Sender<T>,
    ops: Ghost<Seq<ChannelOp<T>>>,
}

/// The sending half of a bounded channel, with the record of the operations made through it.
#[verifier::reject_recursive_types(T)]
pub struct BoundedSender<T> {
    tx: mpsc::SyncSender<T>,
    ops: Ghost<Seq<ChannelOp<T>>>,
}

/// `std::sync::mpsc::channel`: a new unbounded channel.
#[verifier::external_body]
fn mpsc_unbounded<T>() -> (mpsc::Sender<T>, mpsc::Receiver<T>) {
    mpsc::channel()
}

/// `std::sync::mpsc::sync_channel`: a new channel that holds at most `bound` values.
#[verifier::external_body]
fn mpsc_bounded<T>(bound: usize) -> (mpsc::SyncSender<T>, mpsc::Receiver<T>) {
    mpsc::sync_channel(bound)
}

/// `Clone` of `std::sync::mpsc::Sender`: another sending half of the same channel.
#[verifier::external_body]
fn mpsc_sender_clone<T>(tx: &mpsc::Sender<T>) -> mpsc::Sender<T> {
    tx.clone()
}

/// `Clone` of `std::sync::mpsc::SyncSender`: another sending half of the same channel.
#[verifier::external_body]
fn mpsc_sync_sender_clone<T>(tx: &mpsc::SyncSender<T>) -> mpsc::SyncSender<T> {
    tx.clone()
}

/// `Sender::send` of `std::sync::mpsc`: queues the value (an unbounded channel is never full),
/// or gives it back when the receiving half is gone. The operation is added to the record.
#[verifier::external_body]
fn mpsc_send<T>(s: &mut UnboundedSender<T>, value: T) -> (r: Result<(), T>)
    ensures
        r matches Err(v) ==> v == value,
        final(s).ops@ == old(s).ops@.push((ChannelOp::Send { value, queued: r is Ok })),
{
    match s.tx.send(value) {
        Ok(()) => Ok(()),
        Err(e) => Err(e.0),
    }
}

/// `SyncSender::send` of `std::sync::mpsc`: waits while the channel is full, then queues the
/// value, or gives it back when the receiving half is gone. The operation is added to the record.
#[verifier::external_body]
fn mpsc_sync_send<T>(s: &mut BoundedSender<T>, value: T) -> (r: Result<(), T>)
    ensures
        r matches Err(v) ==> v == value,
        final(s).ops@ == old(s).ops@.push((ChannelOp::Send { value, queued: r is Ok })),
{
    match s.tx.send(value) {
        Ok(()) => Ok(()),
        Err(e) => Err(e.0),
    }
}

/// `SyncSender::try_send` of `std::sync::mpsc`: queues the value if the channel has room, or
/// gives it back at once, saying whether the channel was full or the receiving half is gone.
/// The operation is added to the record.
#[verifier::external_body]
fn mpsc_try_send<T>(s: &mut BoundedSender<T>, value: T) -> (r: Result<(), TrySendError<T>>)
    ensures
        r matches Err(TrySendError::Full(v)) ==> v == value,
        r matches Err(TrySendError::Disconnected(v)) ==> v == value,
        final(s).ops@ == old(s).ops@.push(
            (ChannelOp::TrySend {
                value,
                queued: r is Ok,
                full: r matches Err(TrySendError::Full(_)),
            }),
        ),
{
    match s.tx.try_send(value) {
        Ok(()) => Ok(()),
        Err(mpsc::TrySendError::Full(v)) => Err(TrySendError::Full(v)),
        Err(mpsc::TrySendError::Disconnected(v)) => Err(TrySendError::Disconnected(v)),
    }
}

/// The sending half of the channel to the worker.
#[verifier::reject_recursive_types(T)]
pub enum Sender<T> {
    Unbounded(UnboundedSender<T>),
    Bounded(BoundedSender<T>),
}

/// A channel: bounded to `bound` values where there is a bound, unbounded otherwise. Nothing has
/// been sent through the new sending half.
pub fn channel<T>(bound: Option<usize>) -> (r: (Sender<T>, mpsc::Receiver<T>))
    ensures
        r.0.is_bounded() <==> (bound is Some),
        r.0.ops() == Seq::<ChannelOp<T>>::empty(),
{
    match bound {
        Some(b) => {
            let (tx, rx) = mpsc_bounded(b);
            (Sender::Bounded(BoundedSender { tx, ops: Ghost(Seq::empty()) }), rx)
        },
        None => {
            let (tx, rx) = mpsc_unbounded();
            (Sender::Unbounded(UnboundedSender { tx, ops: Ghost(Seq::empty()) }), rx)
        },
    }
}

impl<T> Sender<T> {
    /// Whether the channel is bounded.
    pub open spec fn is_bounded(&self) -> bool {
        self is Bounded
    }

    /// The operations made through this sending half, the first made first.
    pub closed spec fn ops(&self) -> Seq<ChannelOp<T>> {
        match self {
            Sender::Unbounded(s) => s.ops@,
            Sender::Bounded(s) => s.ops@,
        }
    }

    /// Another sending half of the same channel, through which nothing has been sent yet.
    pub fn clone_sender(&self) -> (r: Sender<T>)
        ensures
            r.is_bounded() == self.is_bounded(),
            r.ops() == Seq::<ChannelOp<T>>::empty(),
    {
        match self {
            Sender::Unbounded(s) => Sender::Unbounded(
                UnboundedSender { tx: mpsc_sender_clone(&s.tx), ops: Ghost(Seq::empty()) },
            ),
            Sender::Bounded(s) => Sender::Bounded(
                BoundedSender { tx: mpsc_sync_sender_clone(&s.tx), ops: Ghost(Seq::empty()) },
            ),
        }
    }

    /// Sends a value, waiting while a bounded channel is full; the value comes back when the
    /// receiving half is gone.
    pub fn send(&mut self, value: T) -> (r: Result<(), SendError<T>>)
        ensures
            r matches Err(e) ==> e.0 == value,
            final(self).is_bounded() == old(self).is_bounded(),
            final(self).ops() == old(self).ops().push((ChannelOp::Send { value, queued: r is Ok })),
    {
        let sent = match self {
            Sender::Unbounded(s) => mpsc_send(s, value),
            Sender::Bounded(s) => mpsc_sync_send(s, value),
        };
        match sent {
            Ok(()) => Ok(()),
            Err(v) => Err(SendError(v)),
        }
    }

    /// Sends a value without waiting; the value comes back when a bounded channel is full or
    /// the receiving half is gone. An unbounded channel is never full: there the value is sent as
    /// by `send`.
    pub fn try_send(&mut self, value: T) -> (r: Result<(), TrySendError<T>>)
        ensures
            r matches Err(TrySendError::Full(v)) ==> v == value && old(self).is_bounded(),
            r matches Err(TrySendError::Disconnected(v)) ==> v == value,
            final(self).is_bounded() == old(self).is_bounded(),
            final(self).ops() == old(self).ops().push(
                if old(self).is_bounded() {
                    (ChannelOp::TrySend {
                        value,
                        queued: r is Ok,
                        full: r matches Err(TrySendError::Full(_)),
                    })
                } else {
                    (ChannelOp::Send { value, queued: r is Ok })
                },
            ),
    {
        match self {
            Sender::Unbounded(s) => match mpsc_send(s, value) {
                Ok(()) => Ok(()),
                Err(v) => Err(TrySendError::Disconnected(v)),
            },
            Sender::Bounded(s) => mpsc_try_send(s, value),
        }
    }
}

/// How a send ended.
#[derive(Clone, Copy, Debug, PartialEq, Eq, Structural)]
pub enum SendOutcome {
    /// The task is in the channel.
    Sent,
    /// The channel was full and the task was dropped.
    Full,
    /// The worker is gone.
    Disconnected,
}

/// The message of the error for a task that cannot reach the worker.
pub open spec fn task_error_message(kind: TaskKind) -> Seq<char> {
    match kind {
        TaskKind::Log => "failed to send log task to async appender"@,
        TaskKind::Flush => "failed to send flush task to async appender"@,
    }
}

/// What a log call or a flush returns after its task was sent: success when the task is in the
/// channel or was dropped because the channel was full, and an error when the worker is gone.
pub fn send_outcome_result(kind: TaskKind, outcome: SendOutcome) -> (r: Result<(), Error>)
    ensures
        r is Ok <==> outcome != SendOutcome::Disconnected,
        r matches Err(e) ==> e.message() == task_error_message(kind) && e.context().len() == 0
            && e.source_texts().len() == 0,
{
    match outcome {
        SendOutcome::Sent => Ok(()),
        SendOutcome::Full => Ok(()),
        SendOutcome::Disconnected => {
            let msg = match kind {
                TaskKind::Log => "failed to send log task to async appender",
                TaskKind::Flush => "failed to send flush task to async appender",
            };
            let e = Error::new(msg.to_string());
            Err(e)
        },
    }
}

/// Whether `op` is the operation by which a task goes to the worker under the overflow policy:
/// a send that waits for room under `Block`, and one that does not wait under `DropIncoming`
/// (an unbounded channel, never full, takes every value by its plain send).
pub open spec fn handed_as<T>(overflow: Overflow, bounded: bool, task: T, op: ChannelOp<T>) -> bool {
    match op {
        ChannelOp::Send { value, .. } => value == task && (overflow == Overflow::Block || !bounded),
        ChannelOp::TrySend { value, .. } => value == task && overflow == Overflow::DropIncoming
            && bounded,
    }
}

/// Whether the send of a task counts as done: the task was queued, or the channel was full and
/// the task was dropped.
pub open spec fn op_done<T>(op: ChannelOp<T>) -> bool {
    match op {
        ChannelOp::Send { queued, .. } => queued,
        ChannelOp::TrySend { queued, full, .. } => queued || full,
    }
}

/// Hands a task to the worker under the overflow policy: blocking while the channel is full, or
/// dropping the task then. Whether the worker is still there is not known in advance; an error
/// comes only from a worker that is gone.
pub fn send_task<T>(overflow: Overflow, sender: &mut Sender<T>, task: T, kind: TaskKind) -> (r: Result<
    (),
    Error,
>)
    ensures
        final(sender).is_bounded() == old(sender).is_bounded(),
        final(sender).ops().len() == old(sender).ops().len() + 1,
        final(sender).ops().drop_last() == old(sender).ops(),
        handed_as(overflow, old(sender).is_bounded(), task, final(sender).ops().last()),
        r is Ok <==> op_done(final(sender).ops().last()),
        r matches Err(e) ==> e.message() == task_error_message(kind) && e.context().len() == 0
            && e.source_texts().len() == 0,
{
    let ghost before = sender.ops();
    let outcome = match overflow {
        Overflow::Block => match sender.send(task) {
            Ok(()) => SendOutcome::Sent,
            Err(_) => SendOutcome::Disconnected,
        },
        Overflow::DropIncoming => match sender.try_send(task) {
            Ok(()) => SendOutcome::Sent,
            Err(TrySendError::Full(_)) => SendOutcome::Full,
            Err(TrySendError::Disconnected(_)) => SendOutcome::Disconnected,
        },
    };
    assert(sender.ops().drop_last() =~= before);
    send_outcome_result(kind, outcome)
}

/// The error that the worker reports for a failed flush: "failed to flush appender", with the
/// error of each appender whose flush failed as a source, in the order of the appenders.
pub open spec fn flush_error_sources(results: Seq<Option<Seq<char>>>) -> Seq<Seq<char>>
    decreases results.len(),
{
    if results.len() == 0 {
        seq![]
    } else {
        let rest = flush_error_sources(results.drop_last());
        match results.last() {
            Some(t) => rest.push(t),
            None => rest,
        }
    }
}

pub open spec fn error_texts(results: Seq<Result<(), Error>>) -> Seq<Option<Seq<char>>> {
    Seq::new(
        results.len(),
        |i: int|
            match results[i] {
                Ok(()) => None,
                Err(e) => Some(e.spec_display()),
            },
    )
}

/// Gathers the results of flushing each appender into the error that a flush returns, if any.
pub fn collect_flush_errors(results: &Vec<Result<(), Error>>) -> (r: Option<Error>)
    ensures
        r is None <==> flush_error_sources(error_texts(results@)).len() == 0,
        r matches Some(e) ==> {
            &&& e.message() == "failed to flush appender"@
            &&& e.context().len() == 0
            &&& e.source_texts() == flush_error_sources(error_texts(results@))
        },
{
    let ghost texts = error_texts(results@);
    let mut error: Option<Error> = None;
    let n = results.len();
    for i in 0..n
        invariant
            n == results@.len(),
            texts == error_texts(results@),
            error is None <==> flush_error_sources(texts.take(i as int)).len() == 0,
            error matches Some(e) ==> {
                &&& e.message() == "failed to flush appender"@
                &&& e.context().len() == 0
                &&& e.source_texts() == flush_error_sources(texts.take(i as int))
            },
    {
        assert(texts.take(i + 1).drop_last() =~= texts.take(i as int));
        match &results[i] {
            Ok(()) => {},
            Err(err) => {
                let base = match error {
                    Some(e) => e,
                    None => Error::new("failed to flush appender".to_string()),
                };
                error = Some(base.with_error_source(err));
            },
        }
    }
    assert(texts.take(n as int) =~= texts);
    error
}

/// What a flush returns once the worker answered: success, the worker's error, or, when the
/// worker went away before answering (`Err` with the text of the receive error), an error saying
/// so.
pub fn flush_reply_result(reply: Result<Option<Error>, String>) -> (r: Result<(), Error>)
    ensures
        match reply {
            Ok(None) => r is Ok,
            Ok(Some(e)) => r matches Err(x) && x == e,
            Err(t) => r matches Err(x) && x.message() == "worker exited before completing flush"@
                && x.context().len() == 0 && x.source_texts() == seq![t@],
        },
{
    match reply {
        Ok(None) => Ok(()),
        Ok(Some(err)) => Err(err),
        Err(text) => {
            let e = Error::new("worker exited before completing flush".to_string()).with_source(text);
            assert(e.source_texts() =~= seq![text@]);
            Err(e)
        },
    }
}

/// The error that the worker reports when an appender fails to append a record.
pub fn append_failure(err: &Error) -> (r: Error)
    ensures
        r.message() == "failed to append record"@,
        r.context().len() == 0,
        r.source_texts() == seq![err.spec_display()],
{
    let e = Error::new("failed to append record".to_string()).with_error_source(err);
    assert(e.source_texts() =~= seq![err.spec_display()]);
    e
}

/// The text of a string and whether it is `'static`.
pub open spec fn cow_model(c: Cow<'static, str>) -> (Seq<char>, bool) {
    (c@, c is Borrowed)
}

pub open spec fn ref_model(r: RefStr) -> (Seq<char>, bool) {
    (r.text(), r.is_static())
}

pub open spec fn opt_cow_model(c: Option<Cow<'static, str>>) -> Option<(Seq<char>, bool)> {
    match c {
        Some(x) => Some(cow_model(x)),
        None => None,
    }
}

pub open spec fn opt_ref_model(r: Option<RefStr>) -> Option<(Seq<char>, bool)> {
    match r {
        Some(x) => Some(ref_model(x)),
        None => None,
    }
}

/// A `'static` copy of a string: the string itself when it is `'static`, an owned copy
/// otherwise.
fn to_static_cow(r: RefStr) -> (c: Cow<'static, str>)
    ensures
        cow_model(c) == ref_model(r),
{
    r.into_cow_static()
}

fn cow_as_ref<'r>(c: &'r Cow<'static, str>) -> (r: RefStr<'r>)
    ensures
        ref_model(r) == cow_model(*c),
{
    match c {
        Cow::Borrowed(s) => RefStr::Static(s),
        Cow::Owned(s) => RefStr::Borrowed(s.as_str()),
    }
}

/// A record that the worker thread owns.
pub struct RecordOwned {
    now: SystemTime,
    level: Level,
    target: Cow<'static, str>,
    module_name: Option<Cow<'static, str>>,
    file: Option<Cow<'static, str>>,
    line: Option<u32>,
    payload: Cow<'static, str>,
    kvs: Vec<(KeyOwned, ValueOwned)>,
}

pub open spec fn owned_pairs(kvs: Seq<(KeyOwned, ValueOwned)>) -> Seq<(Seq<char>, ValueModel)> {
    Seq::new(kvs.len(), |i: int| (kvs[i].0.text(), kvs[i].1.model()))
}

impl RecordOwned {
    pub closed spec fn spec_time(&self) -> SystemTime {
        self.now
    }

    pub closed spec fn spec_level(&self) -> Level {
        self.level
    }

    pub closed spec fn spec_target(&self) -> (Seq<char>, bool) {
        cow_model(self.target)
    }

    pub closed spec fn spec_module_name(&self) -> Option<(Seq<char>, bool)> {
        opt_cow_model(self.module_name)
    }

    pub closed spec fn spec_file(&self) -> Option<(Seq<char>, bool)> {
        opt_cow_model(self.file)
    }

    pub closed spec fn spec_line(&self) -> Option<u32> {
        self.line
    }

    pub closed spec fn spec_payload(&self) -> (Seq<char>, bool) {
        cow_model(self.payload)
    }

    pub closed spec fn spec_kvs(&self) -> Seq<(Seq<char>, ValueModel)> {
        owned_pairs(self.kvs@)
    }

    /// An owned copy of a record: `'static` strings are kept, others copied, and each value
    /// made owned.
    pub fn from_record<'a>(record: &Record<'a>) -> (r: RecordOwned)
        ensures
            r.spec_time() == record.spec_time(),
            r.spec_level() == record.spec_level(),
            r.spec_target() == ref_model(record.spec_target()),
            r.spec_module_name() == opt_ref_model(record.spec_module_name()),
            r.spec_file() == opt_ref_model(record.spec_file()),
            r.spec_line() == record.spec_line(),
            r.spec_payload() == record.spec_payload(),
            r.spec_kvs() == Seq::new(
                record.spec_kvs().entries().len(),
                |i: int| (record.spec_kvs().entries()[i].0, owned_model(record.spec_kvs().entries()[i].1)),
            ),
    {
        let target = to_static_cow(record.target_ref());
        let module_name = match record.module_name_static() {
            Some(m) => Some(Cow::Borrowed(m)),
            None => match record.module_name() {
                Some(m) => Some(Cow::Owned(m.to_owned())),
                None => None,
            },
        };
        let file = match record.file_static() {
            Some(f) => Some(Cow::Borrowed(f)),
            None => match record.file() {
                Some(f) => Some(Cow::Owned(f.to_owned())),
                None => None,
            },
        };
        let payload = match record.payload_static() {
            Some(p) => Cow::Borrowed(p),
            None => Cow::Owned(record.payload().to_owned()),
        };
        let kv = record.key_values();
        let ghost es = kv.entries();
        let n = kv.len();
        let mut kvs: Vec<(KeyOwned, ValueOwned)> = Vec::new();
        for i in 0..n
            invariant
                n == es.len(),
                es == kv.entries(),
                kvs@.len() == i,
                owned_pairs(kvs@) == Seq::new(i as nat, |j: int| (es[j].0, owned_model(es[j].1))),
        {
            let (k, v) = kv.entry(i);
            let ko = k.to_owned();
            let vo = v.to_owned();
            assert(ko.text() == es[i as int].0);
            assert(vo.model() == owned_model(es[i as int].1));
            let ghost before = kvs@;
            kvs.push((ko, vo));
            assert forall|j: int| 0 <= j < i + 1 implies #[trigger] owned_pairs(kvs@)[j] == (
                es[j].0,
                owned_model(es[j].1),
            ) by {
                if j < i {
                    assert(kvs@[j] == before[j]);
                    assert(owned_pairs(before)[j] == (es[j].0, owned_model(es[j].1)));
                }
            }
            assert(owned_pairs(kvs@) =~= Seq::new((i + 1) as nat, |j: int| (es[j].0, owned_model(es[j].1))));
        }
        RecordOwned {
            now: record.time(),
            level: record.level(),
            target,
            module_name,
            file,
            line: record.line(),
            payload,
            kvs,
        }
    }

    /// The key-values, borrowed from this record.
    pub fn key_values(&self) -> (r: Vec<(Key<'_>, Value<'_>)>)
        ensures
            r@.len() == self.spec_kvs().len(),
            forall|i: int| 0 <= i < r@.len() ==> {
                &&& (#[trigger] entries_of(r@)[i]).0 == self.spec_kvs()[i].0
                &&& view_model(entries_of(r@)[i].1) == self.spec_kvs()[i].1
            },
    {
        let mut r: Vec<(Key<'_>, Value<'_>)> = Vec::new();
        let n = self.kvs.len();
        for i in 0..n
            invariant
                n == self.kvs@.len(),
                r@.len() == i,
                forall|j: int| 0 <= j < i ==> {
                    &&& (#[trigger] entries_of(r@)[j]).0 == owned_pairs(self.kvs@)[j].0
                    &&& view_model(entries_of(r@)[j].1) == owned_pairs(self.kvs@)[j].1
                },
        {
            let (k, v) = &self.kvs[i];
            let ghost before = r@;
            let kk = k.as_key();
            let vv = v.as_value();
            r.push((kk, vv));
            proof {
                assert forall|j: int| 0 <= j < i + 1 implies {
                    &&& (#[trigger] entries_of(r@)[j]).0 == owned_pairs(self.kvs@)[j].0
                    &&& view_model(entries_of(r@)[j].1) == owned_pairs(self.kvs@)[j].1
                } by {
                    if j < i {
                        assert(r@[j] == before[j]);
                        assert(entries_of(before)[j] == entries_of(r@)[j]);
                    } else {
                        assert(r@[j] == (kk, vv));
                    }
                }
            }
        }
        r
    }

    /// A builder for the record again, with the key-values `kvs` (those of `key_values`).
    pub fn to_builder<'r>(&'r self, kvs: &'r [(Key<'r>, Value<'r>)]) -> (r: RecordBuilder<'r>)
        ensures
            r.spec_record().spec_time() == self.spec_time(),
            r.spec_record().spec_level() == self.spec_level(),
            ref_model(r.spec_record().spec_target()) == self.spec_target(),
            opt_ref_model(r.spec_record().spec_module_name()) == self.spec_module_name(),
            opt_ref_model(r.spec_record().spec_file()) == self.spec_file(),
            r.spec_record().spec_line() == self.spec_line(),
            r.spec_record().spec_payload() == self.spec_payload(),
            r.spec_record().spec_kvs().entries() == entries_of(kvs@),
    {
        let mut b = Record::builder().time(self.now).level(self.level).line(self.line);
        b = match cow_as_ref(&self.target) {
            RefStr::Static(t) => b.target_static(t),
            RefStr::Borrowed(t) => b.target(t),
        };
        b = match &self.module_name {
            Some(m) => match cow_as_ref(m) {
                RefStr::Static(t) => b.module_name_static(t),
                RefStr::Borrowed(t) => b.module_name(Some(t)),
            },
            None => b.module_name(None),
        };
        b = match &self.file {
            Some(f) => match cow_as_ref(f) {
                RefStr::Static(t) => b.file_static(t),
                RefStr::Borrowed(t) => b.file(Some(t)),
            },
            None => b.file(None),
        };
        let payload: Cow<'static, str> = match &self.payload {
            Cow::Borrowed(p) => Cow::Borrowed(p),
            Cow::Owned(p) => Cow::Owned(p.clone()),
        };
        b.payload(payload).key_values(KeyValues::from_slice(kvs))
    }
}

impl<'a> Record<'a> {
    /// An owned copy of the record, which can outlive the values that the record borrows.
    pub fn to_owned(&self) -> (r: RecordOwned)
        ensures
            r.spec_time() == self.spec_time(),
            r.spec_level() == self.spec_level(),
            r.spec_target() == ref_model(self.spec_target()),
            r.spec_module_name() == opt_ref_model(self.spec_module_name()),
            r.spec_file() == opt_ref_model(self.spec_file()),
            r.spec_line() == self.spec_line(),
            r.spec_payload() == self.spec_payload(),
            r.spec_kvs() == Seq::new(
                self.spec_kvs().entries().len(),
                |i: int| (self.spec_kvs().entries()[i].0, owned_model(self.spec_kvs().entries()[i].1)),
            ),
    {
        RecordOwned::from_record(self)
    }
}

/// A value and its owned copy display alike: a view whose model is the owned model of another
/// view renders the same text.
pub proof fn lemma_owned_value_text<'a, 'b>(orig: ValueView<'a>, copy: ValueView<'b>)
    requires
        view_model(copy) == owned_model(orig),
    ensures
        value_text(copy) == value_text(orig),
{
}

/// A record passed through its owned form comes back unchanged: `back` is
/// `owned.to_builder(&pairs).build()`, where `owned` is `RecordOwned::from_record(&record)` and
/// `pairs` is `owned.key_values()` (each premise is what those calls ensure). Then `back` has the
/// record's time, level, target, module, file, line and payload, each string as `'static` as
/// before, and its key-values have the same keys in the same order, each value displaying as the
/// record's does.
pub proof fn lemma_owned_round_trip<'a, 'r>(
    record: Record<'a>,
    owned: RecordOwned,
    pairs: Seq<(Key<'r>, Value<'r>)>,
    back: Record<'r>,
)
    requires
        owned.spec_time() == record.spec_time(),
        owned.spec_level() == record.spec_level(),
        owned.spec_target() == ref_model(record.spec_target()),
        owned.spec_module_name() == opt_ref_model(record.spec_module_name()),
        owned.spec_file() == opt_ref_model(record.spec_file()),
        owned.spec_line() == record.spec_line(),
        owned.spec_payload() == record.spec_payload(),
        owned.spec_kvs() == Seq::new(
            record.spec_kvs().entries().len(),
            |i: int| (record.spec_kvs().entries()[i].0, owned_model(record.spec_kvs().entries()[i].1)),
        ),
        pairs.len() == owned.spec_kvs().len(),
        forall|i: int| 0 <= i < pairs.len() ==> {
            &&& (#[trigger] entries_of(pairs)[i]).0 == owned.spec_kvs()[i].0
            &&& view_model(entries_of(pairs)[i].1) == owned.spec_kvs()[i].1
        },
        back.spec_time() == owned.spec_time(),
        back.spec_level() == owned.spec_level(),
        ref_model(back.spec_target()) == owned.spec_target(),
        opt_ref_model(back.spec_module_name()) == owned.spec_module_name(),
        opt_ref_model(back.spec_file()) == owned.spec_file(),
        back.spec_line() == owned.spec_line(),
        back.spec_payload() == owned.spec_payload(),
        back.spec_kvs().entries() == entries_of(pairs),
    ensures
        back.spec_time() == record.spec_time(),
        back.spec_level() == record.spec_level(),
        ref_model(back.spec_target()) == ref_model(record.spec_target()),
        opt_ref_model(back.spec_module_name()) == opt_ref_model(record.spec_module_name()),
        opt_ref_model(back.spec_file()) == opt_ref_model(record.spec_file()),
        back.spec_line() == record.spec_line(),
        back.spec_payload() == record.spec_payload(),
        back.spec_kvs().entries().len() == record.spec_kvs().entries().len(),
        forall|i: int| 0 <= i < back.spec_kvs().entries().len() ==> {
            &&& (#[trigger] back.spec_kvs().entries()[i]).0 == record.spec_kvs().entries()[i].0
            &&& value_text(back.spec_kvs().entries()[i].1) == value_text(
                record.spec_kvs().entries()[i].1,
            )
        },
{
    assert forall|i: int| 0 <= i < back.spec_kvs().entries().len() implies {
        &&& (#[trigger] back.spec_kvs().entries()[i]).0 == record.spec_kvs().entries()[i].0
        &&& value_text(back.spec_kvs().entries()[i].1) == value_text(record.spec_kvs().entries()[i].1)
    } by {
        assert(entries_of(pairs)[i] == back.spec_kvs().entries()[i]);
        lemma_owned_value_text(record.spec_kvs().entries()[i].1, back.spec_kvs().entries()[i].1);
    }
}

} // verus!
