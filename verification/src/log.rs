//! Log levels, log messages, the bounded log store and the logger that
//! stamps and sends messages.
use vstd::prelude::*;
use ringbuffer::{AllocRingBuffer, RingBuffer};
use std::sync::{Arc, RwLock};
use std::sync::mpsc::Sender;
use crate::strings::push_str;

verus! {

/// How much is logged, from least to most.
#[derive(Debug, Clone, Copy, PartialEq, Eq)]
pub enum LogLevel {
    Error,
    Warn,
    Info,
    Debug,
    Trace,
}

/// The position of a level from Error (0) to Trace (4).
pub open spec fn level_rank(l: LogLevel) -> nat {
    match l {
        LogLevel::Error => 0,
        LogLevel::Warn => 1,
        LogLevel::Info => 2,
        LogLevel::Debug => 3,
        LogLevel::Trace => 4,
    }
}

/// The prefix written before a message of the level.
pub open spec fn level_prefix(l: LogLevel) -> Seq<char> {
    match l {
        LogLevel::Error => "[E] "@,
        LogLevel::Warn => "[W] "@,
        LogLevel::Info => "[I] "@,
        LogLevel::Debug => "[D] "@,
        LogLevel::Trace => "[T] "@,
    }
}

impl Default for LogLevel {
    fn default() -> (r: Self)
        ensures
            r == LogLevel::Info,
    {
        LogLevel::Info
    }
}

impl LogLevel {
    /// The position of the level from Error (0) to Trace (4).
    pub fn rank(&self) -> (r: u8)
        ensures
            r == level_rank(*self),
    {
        match self {
            LogLevel::Error => 0,
            LogLevel::Warn => 1,
            LogLevel::Info => 2,
            LogLevel::Debug => 3,
            LogLevel::Trace => 4,
        }
    }

    /// One level more verbose; Trace stays Trace.
    pub fn increase(&self) -> (r: Self)
        ensures
            level_rank(r) == if level_rank(*self) < 4 {
                level_rank(*self) + 1
            } else {
                4
            },
    {
        match self {
            LogLevel::Error => LogLevel::Warn,
            LogLevel::Warn => LogLevel::Info,
            LogLevel::Info => LogLevel::Debug,
            LogLevel::Debug => LogLevel::Trace,
            LogLevel::Trace => LogLevel::Trace,
        }
    }

    /// One level less verbose; Error stays Error.
    pub fn decrease(&self) -> (r: Self)
        ensures
            level_rank(r) == if level_rank(*self) > 0 {
                level_rank(*self) - 1
            } else {
                0
            },
    {
        match self {
            LogLevel::Error => LogLevel::Error,
            LogLevel::Warn => LogLevel::Error,
            LogLevel::Info => LogLevel::Warn,
            LogLevel::Debug => LogLevel::Info,
            LogLevel::Trace => LogLevel::Debug,
        }
    }

    /// The prefix written before a message of this level, e.g. `[E] `.
    pub fn prefix(&self) -> (r: &'static str)
        ensures
            r@ == level_prefix(*self),
    {
        proof {
            reveal_strlit("[E] ");
            reveal_strlit("[W] ");
            reveal_strlit("[I] ");
            reveal_strlit("[D] ");
            reveal_strlit("[T] ");
        }
        match self {
            LogLevel::Error => "[E] ",
            LogLevel::Warn => "[W] ",
            LogLevel::Info => "[I] ",
            LogLevel::Debug => "[D] ",
            LogLevel::Trace => "[T] ",
        }
    }

    /// The level's name, e.g. `Error`.
    pub fn name(&self) -> (r: &'static str)
        ensures
            r@ == match *self {
                LogLevel::Error => "Error"@,
                LogLevel::Warn => "Warn"@,
                LogLevel::Info => "Info"@,
                LogLevel::Debug => "Debug"@,
                LogLevel::Trace => "Trace"@,
            },
    {
        match self {
            LogLevel::Error => "Error",
            LogLevel::Warn => "Warn",
            LogLevel::Info => "Info",
            LogLevel::Debug => "Debug",
            LogLevel::Trace => "Trace",
        }
    }
}

/// A logged message with its level.
#[derive(Debug, PartialEq, Eq)]
pub enum LogMessage {
    Error(String),
    Warn(String),
    Info(String),
    Debug(String),
    Trace(String),
}

impl LogMessage {
    /// The message's level.
    pub open spec fn level_view(&self) -> LogLevel {
        match self {
            LogMessage::Error(_) => LogLevel::Error,
            LogMessage::Warn(_) => LogLevel::Warn,
            LogMessage::Info(_) => LogLevel::Info,
            LogMessage::Debug(_) => LogLevel::Debug,
            LogMessage::Trace(_) => LogLevel::Trace,
        }
    }

    /// The message's text.
    pub open spec fn text_view(&self) -> Seq<char> {
        match self {
            LogMessage::Error(s) | LogMessage::Warn(s) | LogMessage::Info(s) | LogMessage::Debug(s)
            | LogMessage::Trace(s) => s@,
        }
    }

    /// A message of the given level.
    pub fn new(lvl: LogLevel, msg: String) -> (r: Self)
        ensures
            r.level_view() == lvl,
            r.text_view() == msg@,
    {
        match lvl {
            LogLevel::Error => LogMessage::Error(msg),
            LogLevel::Warn => LogMessage::Warn(msg),
            LogLevel::Info => LogMessage::Info(msg),
            LogLevel::Debug => LogMessage::Debug(msg),
            LogLevel::Trace => LogMessage::Trace(msg),
        }
    }

    /// Whether the message is shown at verbosity `lvl`: when `lvl` is at
    /// least as verbose as the message's level.
    pub fn is_within_verbosity(&self, lvl: LogLevel) -> (r: bool)
        ensures
            r == (level_rank(lvl) >= level_rank(self.level_view())),
    {
        let l = lvl.rank();
        match self {
            LogMessage::Error(_) => l >= 0,
            LogMessage::Warn(_) => l >= 1,
            LogMessage::Info(_) => l >= 2,
            LogMessage::Debug(_) => l >= 3,
            LogMessage::Trace(_) => l == 4,
        }
    }

    /// The message's length in bytes of UTF-8.
    pub fn len(&self) -> (r: usize)
        ensures
            r == vstd::utf8::encode_utf8(self.text_view()).len() as usize,
    {
        match self {
            LogMessage::Error(s) | LogMessage::Warn(s) | LogMessage::Info(s) | LogMessage::Debug(s)
            | LogMessage::Trace(s) => s.as_str().len(),
        }
    }

    /// The message's text.
    pub fn text(&self) -> (r: &str)
        ensures
            r@ == self.text_view(),
    {
        match self {
            LogMessage::Error(s) | LogMessage::Warn(s) | LogMessage::Info(s) | LogMessage::Debug(s)
            | LogMessage::Trace(s) => s.as_str(),
        }
    }

    /// The message's level.
    pub fn level(&self) -> (r: LogLevel)
        ensures
            r == self.level_view(),
    {
        match self {
            LogMessage::Error(_) => LogLevel::Error,
            LogMessage::Warn(_) => LogLevel::Warn,
            LogMessage::Info(_) => LogLevel::Info,
            LogMessage::Debug(_) => LogLevel::Debug,
            LogMessage::Trace(_) => LogLevel::Trace,
        }
    }
}

/// `ringbuffer::AllocRingBuffer`, a ring buffer of fixed capacity.
#[verifier::external_type_specification]
#[verifier::external_body]
#[verifier::reject_recursive_types(T)]
pub struct ExAllocRingBuffer<T>(AllocRingBuffer<T>);

/// The messages a log ring holds, oldest first.
pub uninterp spec fn ring_contents(rb: AllocRingBuffer<LogMessage>) -> Seq<LogMessage>;

/// The capacity a log ring was made with.
pub uninterp spec fn ring_capacity(rb: AllocRingBuffer<LogMessage>) -> nat;

/// An empty ring of the given capacity.
///
/// Calls `AllocRingBuffer::new`, which panics on a zero capacity and otherwise
/// makes an empty buffer of that capacity.
#[verifier::external_body]
fn ring_new(capacity: usize) -> (r: AllocRingBuffer<LogMessage>)
    requires
        0 < capacity <= 0x10_0000,
    ensures
        ring_contents(r) == Seq::<LogMessage>::empty(),
        ring_capacity(r) == capacity,
{
    AllocRingBuffer::new(capacity)
}

/// Appends a message, dropping the oldest one when the ring is full.
///
/// Calls `RingBuffer::enqueue`: when the length equals the capacity the
/// oldest element is taken out first; the new one becomes the newest.
#[verifier::external_body]
fn ring_push(rb: &mut AllocRingBuffer<LogMessage>, msg: LogMessage)
    requires
        ring_contents(*old(rb)).len() <= ring_capacity(*old(rb)),
    ensures
        ring_capacity(*final(rb)) == ring_capacity(*old(rb)),
        ring_contents(*final(rb)) == if ring_contents(*old(rb)).len() == ring_capacity(*old(rb)) {
            ring_contents(*old(rb)).drop_first().push(msg)
        } else {
            ring_contents(*old(rb)).push(msg)
        },
{
    let _ = rb.enqueue(msg);
}

/// The number of messages held.
///
/// Calls `RingBuffer::len`.
#[verifier::external_body]
fn ring_len(rb: &AllocRingBuffer<LogMessage>) -> (r: usize)
    ensures
        r == ring_contents(*rb).len(),
{
    rb.len()
}

/// The message at position `i`, counted from the oldest.
///
/// Calls `RingBuffer::get`, which for an index below the length returns the
/// element that many places after the oldest one.
#[verifier::external_body]
fn ring_get(rb: &AllocRingBuffer<LogMessage>, i: usize) -> (r: &LogMessage)
    requires
        i < ring_contents(*rb).len(),
    ensures
        *r == ring_contents(*rb)[i as int],
{
    rb.get(i).unwrap()
}

/// The messages of `s` that verbosity `lvl` shows, in the order of `s`.
pub open spec fn shown_at(s: Seq<LogMessage>, lvl: LogLevel) -> Seq<LogMessage>
    decreases s.len(),
{
    if s.len() == 0 {
        seq![]
    } else {
        let rest = shown_at(s.drop_last(), lvl);
        if level_rank(lvl) >= level_rank(s.last().level_view()) {
            rest.push(s.last())
        } else {
            rest
        }
    }
}

/// The most recent log messages, up to a thousand.
pub struct LogDb {
    logs: AllocRingBuffer<LogMessage>,
}

/// How many messages the store keeps.
pub const LOG_CAPACITY: usize = 1000;

impl LogDb {
    /// The messages held, oldest first.
    pub closed spec fn messages(&self) -> Seq<LogMessage> {
        ring_contents(self.logs)
    }

    /// The store keeps at most [`LOG_CAPACITY`] messages.
    pub closed spec fn wf(&self) -> bool {
        &&& ring_capacity(self.logs) == LOG_CAPACITY
        &&& ring_contents(self.logs).len() <= LOG_CAPACITY
    }

    /// An empty store.
    pub fn new() -> (r: Self)
        ensures
            r.wf(),
            r.messages() == Seq::<LogMessage>::empty(),
    {
        LogDb { logs: ring_new(LOG_CAPACITY) }
    }

    /// Stores a message; the oldest is dropped when a thousand are held.
    pub fn push(&mut self, msg: LogMessage)
        requires
            old(self).wf(),
        ensures
            final(self).wf(),
            final(self).messages() == if old(self).messages().len() == LOG_CAPACITY {
                old(self).messages().drop_first().push(msg)
            } else {
                old(self).messages().push(msg)
            },
    {
        ring_push(&mut self.logs, msg);
    }

    /// The number of messages held.
    pub fn len(&self) -> (r: usize)
        ensures
            r == self.messages().len(),
    {
        ring_len(&self.logs)
    }

    /// The messages that verbosity `log_level` shows, newest first.
    pub fn latest_logs(&self, log_level: LogLevel) -> (r: Vec<&LogMessage>)
        ensures
            r@.map_values(|m: &LogMessage| *m) == shown_at(self.messages().reverse(), log_level),
    {
        let n = ring_len(&self.logs);
        let ghost rev = self.messages().reverse();
        let mut out: Vec<&LogMessage> = Vec::with_capacity(50);
        let mut k: usize = 0;
        while k < n
            invariant
                n == self.messages().len(),
                rev == self.messages().reverse(),
                k <= n,
                out@.map_values(|m: &LogMessage| *m) == shown_at(rev.take(k as int), log_level),
            decreases n - k,
        {
            let m = ring_get(&self.logs, n - 1 - k);
            let ghost prev = out@;
            assert(rev.take(k + 1).drop_last() =~= rev.take(k as int));
            assert(rev.take(k + 1).last() == rev[k as int]);
            if m.is_within_verbosity(log_level) {
                out.push(m);
                assert(out@.map_values(|m: &LogMessage| *m) =~= prev.map_values(
                    |m: &LogMessage| *m,
                ).push(*m));
            }
            k = k + 1;
        }
        assert(rev.take(n as int) =~= rev);
        out
    }
}

/// `std::sync::RwLock`, a reader-writer lock.
#[verifier::external_type_specification]
#[verifier::external_body]
#[verifier::reject_recursive_types(T)]
pub struct ExRwLock<T: ?Sized>(RwLock<T>);

/// `std::sync::mpsc::Sender`, the sending half of a channel.
#[verifier::external_type_specification]
#[verifier::external_body]
#[verifier::reject_recursive_types(T)]
pub struct ExSender<T>(Sender<T>);

/// A lock holding a level.
///
/// Calls `RwLock::new`.
#[verifier::external_body]
fn level_lock_new(l: LogLevel) -> RwLock<LogLevel> {
    RwLock::new(l)
}

/// The level a lock holds at the moment of the call.
///
/// Calls `RwLock::read`; another thread may change the level at any time, so
/// nothing is stated of the value. Panics if a writer panicked while holding it.
#[verifier::external_body]
fn level_lock_read(lock: &RwLock<LogLevel>) -> LogLevel {
    *lock.read().unwrap()
}

/// Replaces the level a lock holds with `f` of it, under the write lock.
///
/// Calls `RwLock::write`. Panics if a writer panicked while holding it.
#[verifier::external_body]
fn level_lock_update<F: Fn(LogLevel) -> LogLevel>(lock: &RwLock<LogLevel>, f: F)
    requires
        forall|l: LogLevel| f.requires((l,)),
{
    let mut guard = lock.write().unwrap();
    *guard = f(*guard);
}

/// Sends a message on a channel; false when the receiver is gone.
///
/// Calls `Sender::send`, which fails only when the receiving half was dropped.
#[verifier::external_body]
fn send_log(tx: &Sender<LogMessage>, msg: LogMessage) -> bool {
    tx.send(msg).is_ok()
}

/// Another handle to the same channel.
///
/// Calls `<Sender as Clone>::clone`.
#[verifier::external_body]
fn sender_clone(tx: &Sender<LogMessage>) -> Sender<LogMessage> {
    tx.clone()
}

/// The local wall-clock time as `[HH:MM:SS.mmm] `.
///
/// Calls `chrono::Local::now` and formats it with `[%H:%M:%S%.3f] `; the
/// value depends on the clock and is not stated.
#[verifier::external_body]
fn timestamp_now() -> String {
    chrono::Local::now().format("[%H:%M:%S%.3f] ").to_string()
}

/// The line that is logged: time stamp, level prefix, message.
pub open spec fn log_line(stamp: Seq<char>, level: LogLevel, msg: Seq<char>) -> Seq<char> {
    stamp + level_prefix(level) + msg
}

/// Builds the logged line from a time stamp, a level and a message.
pub fn compose_log_line(stamp: &str, level: LogLevel, msg: &str) -> (r: String)
    ensures
        r@ == log_line(stamp@, level, msg@),
{
    let mut s = String::new();
    push_str(&mut s, stamp);
    push_str(&mut s, level.prefix());
    push_str(&mut s, msg);
    assert(s@ =~= log_line(stamp@, level, msg@));
    s
}

/// Whether a message of `level` is logged at verbosity `verbosity`.
pub fn should_log(level: LogLevel, verbosity: LogLevel) -> (r: bool)
    ensures
        r == (level_rank(level) <= level_rank(verbosity)),
{
    level.rank() <= verbosity.rank()
}

/// The message logged for `msg` at `level` under verbosity `verbosity`
/// with time stamp `stamp`: none where the level is not shown, else the
/// message of that level holding the stamp, the level prefix and `msg`.
pub fn log_message(level: LogLevel, verbosity: LogLevel, stamp: &str, msg: &str) -> (r: Option<LogMessage>)
    ensures
        match r {
            Some(m) => should_log_spec(level, verbosity) && m.level_view() == level && m.text_view()
                == log_line(stamp@, level, msg@),
            None => !should_log_spec(level, verbosity),
        },
{
    if should_log(level, verbosity) {
        Some(LogMessage::new(level, compose_log_line(stamp, level, msg)))
    } else {
        None
    }
}

/// A message of `level` is logged at verbosity `verbosity`.
pub open spec fn should_log_spec(level: LogLevel, verbosity: LogLevel) -> bool {
    level_rank(level) <= level_rank(verbosity)
}

/// Stamps messages with the time and their level and sends those within the
/// shared verbosity to the log pane.
pub struct Logger {
    verbosity: Arc<RwLock<LogLevel>>,
    tx: Sender<LogMessage>,
}

impl Logger {
    /// The channel the logger sends on.
    pub closed spec fn sender(&self) -> Sender<LogMessage> {
        self.tx
    }

    /// A logger sending on `tx` with the given verbosity.
    pub fn new(tx: Sender<LogMessage>, verbosity: LogLevel) -> (r: Self)
        ensures
            r.sender() == tx,
    {
        Logger { verbosity: Arc::new(level_lock_new(verbosity)), tx }
    }

    /// Logs at Error level.
    pub fn error(&self, s: &str) {
        self.log(LogLevel::Error, s);
    }

    /// Logs at Warn level.
    pub fn warn(&self, s: &str) {
        self.log(LogLevel::Warn, s);
    }

    /// Logs at Info level.
    pub fn info(&self, s: &str) {
        self.log(LogLevel::Info, s);
    }

    /// Logs at Debug level.
    pub fn debug(&self, s: &str) {
        self.log(LogLevel::Debug, s);
    }

    /// Logs at Trace level.
    pub fn trace(&self, s: &str) {
        self.log(LogLevel::Trace, s);
    }

    /// The shared verbosity at the moment of the call.
    pub fn verbosity(&self) -> LogLevel {
        level_lock_read(&self.verbosity)
    }

    /// Makes every clone of this logger one level more verbose.
    pub fn increase_verbosity(&self) {
        level_lock_update(&self.verbosity, |l: LogLevel| -> (r: LogLevel)
            ensures
                level_rank(r) == if level_rank(l) < 4 { level_rank(l) + 1 } else { 4 },
            { l.increase() });
    }

    /// Makes every clone of this logger one level less verbose.
    pub fn decrease_verbosity(&self) {
        level_lock_update(&self.verbosity, |l: LogLevel| -> (r: LogLevel)
            ensures
                level_rank(r) == if level_rank(l) > 0 { level_rank(l) - 1 } else { 0 },
            { l.decrease() });
    }

    /// Sends `msg` at `level`, stamped with the time and the level prefix, when
    /// the shared verbosity shows that level. Returns whether a message was
    /// handed to the channel.
    pub fn log(&self, level: LogLevel, msg: &str) -> (sent: bool) {
        let verbosity = level_lock_read(&self.verbosity);
        if should_log(level, verbosity) {
            let stamp = timestamp_now();
            match log_message(level, verbosity, stamp.as_str(), msg) {
                Some(m) => send_log(&self.tx, m),
                None => false,
            }
        } else {
            false
        }
    }
}

impl Clone for Logger {
    fn clone(&self) -> Self {
        Logger { verbosity: self.verbosity.clone(), tx: sender_clone(&self.tx) }
    }
}

} // verus!
