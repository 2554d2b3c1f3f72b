//! Resolving a destination configuration into a live sink.
//!
//! The console and discarding destinations always resolve; a file or a
//! rotating directory needs one opening attempt, which the host performs
//! and reports back. A failed attempt either aborts resolution with a
//! construction error or, under deferred resolution, becomes a poisoned
//! sink that fails every write with the original cause, shared rather
//! than copied.

use std::sync::Arc;

use vstd::prelude::*;
use vstd::string::StringExecFns;

use crate::rolling::spec_file_name;
use crate::rolling::spec_roll_write;
use crate::rolling::RollEffect;
use crate::rolling::RollState;
use crate::NonBlocking;
use crate::Rotation;
use crate::Writer;

verus! {

/// The reason a sink could not be opened, kept immutable and shared so
/// that every later write can point at it without copying it.
#[derive(Debug)]
pub struct SharedCause {
    pub message: String,
}

/// A failed write, pointing at the construction failure that poisoned the
/// sink.
#[derive(Debug)]
pub struct WriteFailure {
    pub cause: Arc<SharedCause>,
}

/// A destination that failed to open: it holds the original failure and
/// returns it, shared, on every write.
#[derive(Debug)]
pub struct PoisonedSink {
    pub cause: Arc<SharedCause>,
}

/// Relies on Arc::clone: the clone shares the same allocation and equals
/// the original value.
#[verifier::external_body]
fn share_cause(c: &Arc<SharedCause>) -> (r: Arc<SharedCause>)
    ensures
        r == *c,
{
    Arc::clone(c)
}

impl PoisonedSink {
    /// Poison a sink with the message of the failure that created it.
    pub fn new(message: String) -> (s: PoisonedSink)
        ensures
            s.cause.message@ == message@,
    {
        PoisonedSink { cause: Arc::new(SharedCause { message }) }
    }

    /// Refuse one write; the failure carries the one shared cause, so any
    /// two writes against the same sink observe the same underlying value.
    pub fn write(&self) -> (r: WriteFailure)
        ensures
            r.cause == self.cause,
    {
        WriteFailure { cause: share_cause(&self.cause) }
    }
}

/// A destination could not be opened.
#[derive(Debug)]
pub struct ConstructError {
    pub message: String,
}

/// A resolved destination. A file's handle and the process streams live
/// with the host; the rotating set carries its verified bucket state.
#[derive(Debug)]
pub enum ResolvedSink {
    /// Accepts and discards every write.
    Null,
    /// The process's standard output stream.
    Stdout,
    /// The process's standard error stream.
    Stderr,
    /// A single opened file.
    File,
    /// A rotating file set.
    Rolling(RollState),
    /// A destination that failed to open.
    Poisoned(PoisonedSink),
}

/// A resolved destination together with the delivery-queue options to
/// apply around it, when asynchronous delivery was configured and the
/// destination actually opened.
#[derive(Debug)]
pub struct Resolution {
    pub sink: ResolvedSink,
    pub queue: Option<NonBlocking>,
}

/// Whether a destination needs an opening attempt before it can resolve.
pub open spec fn spec_needs_open(w: Writer) -> bool {
    w matches Writer::File(_) || w matches Writer::Rolling(_)
}

/// The host's report of the one opening attempt a destination needs.
#[derive(Debug, Clone, PartialEq, Eq)]
pub enum OpenAttempt {
    /// No attempt was made (enough for the destinations that need none).
    Untried,
    /// The file or directory opened.
    Opened,
    /// Opening failed, with the failure's message.
    Failed(String),
}

/// The message of a failure to open a log file.
pub open spec fn spec_file_error(path: Seq<char>, cause: Seq<char>) -> Seq<char> {
    "couldn't open log file "@ + path + ": "@ + cause
}

/// The message of a failure to open a rotation directory.
pub open spec fn spec_dir_error(dir: Seq<char>, cause: Seq<char>) -> Seq<char> {
    "couldn't start logging in directory "@ + dir + ": "@ + cause
}

fn compose_error(head: &str, name: &String, cause: &String) -> (r: String)
    ensures
        r@ == head@ + name@ + ": "@ + cause@,
{
    let mut s = String::from_str(head);
    s.append(name.as_str());
    s.append(": ");
    s.append(cause.as_str());
    s
}

fn clone_opt_string(o: &Option<String>) -> (r: Option<String>)
    ensures
        crate::rolling::spec_opt_str(r) == crate::rolling::spec_opt_str(*o),
{
    match o {
        Some(s) => Some(s.clone()),
        Option::None => Option::None,
    }
}

/// Resolve a destination, surfacing a failed opening attempt as an error.
///
/// The discarding and console destinations resolve to the same sink on
/// every call, whatever the attempt says: resolving them can never fail
/// and never differs between two calls.
pub fn resolve(w: &Writer, attempt: OpenAttempt) -> (r: Result<Resolution, ConstructError>)
    requires
        spec_needs_open(*w) ==> !(attempt matches OpenAttempt::Untried),
    ensures
        match *w {
            Writer::Null => r matches Ok(res) && res.sink matches ResolvedSink::Null
                && res.queue is None,
            Writer::Stdout => r matches Ok(res) && res.sink matches ResolvedSink::Stdout
                && res.queue is None,
            Writer::Stderr => r matches Ok(res) && res.sink matches ResolvedSink::Stderr
                && res.queue is None,
            Writer::File(f) => match attempt {
                OpenAttempt::Opened => r matches Ok(res) && res.sink matches ResolvedSink::File
                    && res.queue == f.non_blocking,
                OpenAttempt::Failed(m) => r matches Err(e) && e.message@ == spec_file_error(
                    f.path@,
                    m@,
                ),
                OpenAttempt::Untried => true,
            },
            Writer::Rolling(rl) => match attempt {
                OpenAttempt::Opened => r matches Ok(res) && res.queue == rl.non_blocking
                    && (res.sink matches ResolvedSink::Rolling(st) && {
                    let roll = rl.roll.unwrap_or(crate::Roll {
                        limit: Option::None,
                        prefix: Option::None,
                        suffix: Option::None,
                        rotation: Option::None,
                    });
                    &&& st@.rotation == roll.rotation.unwrap_or(Rotation::Never)
                    &&& st@.prefix == crate::rolling::spec_opt_str(roll.prefix)
                    &&& st@.suffix == crate::rolling::spec_opt_str(roll.suffix)
                    &&& st@.limit == (match roll.limit {
                        Some(l) => Some(l as nat),
                        Option::None => Option::None::<nat>,
                    })
                    &&& st@.files.len() == 0
                }),
                OpenAttempt::Failed(m) => r matches Err(e) && e.message@ == spec_dir_error(
                    rl.directory@,
                    m@,
                ),
                OpenAttempt::Untried => true,
            },
        },
{
    match w {
        Writer::Null => Ok(Resolution { sink: ResolvedSink::Null, queue: Option::None }),
        Writer::Stdout => Ok(Resolution { sink: ResolvedSink::Stdout, queue: Option::None }),
        Writer::Stderr => Ok(Resolution { sink: ResolvedSink::Stderr, queue: Option::None }),
        Writer::File(f) => match attempt {
            OpenAttempt::Opened => Ok(
                Resolution { sink: ResolvedSink::File, queue: clone_opt_nb(&f.non_blocking) },
            ),
            _ => {
                let m = match attempt {
                    OpenAttempt::Failed(m) => m,
                    _ => String::new(),
                };
                Err(ConstructError {
                    message: compose_error("couldn't open log file ", &f.path, &m),
                })
            },
        },
        Writer::Rolling(rl) => match attempt {
            OpenAttempt::Opened => {
                let (limit, prefix, suffix, rotation) = match &rl.roll {
                    Some(roll) => (
                        roll.limit,
                        clone_opt_string(&roll.prefix),
                        clone_opt_string(&roll.suffix),
                        match roll.rotation {
                            Some(rot) => rot,
                            Option::None => Rotation::Never,
                        },
                    ),
                    Option::None => (Option::None, Option::None, Option::None, Rotation::Never),
                };
                let st = RollState::new(rotation, prefix, suffix, limit);
                Ok(
                    Resolution {
                        sink: ResolvedSink::Rolling(st),
                        queue: clone_opt_nb(&rl.non_blocking),
                    },
                )
            },
            _ => {
                let m = match attempt {
                    OpenAttempt::Failed(m) => m,
                    _ => String::new(),
                };
                Err(ConstructError {
                    message: compose_error("couldn't start logging in directory ", &rl.directory, &m),
                })
            },
        },
    }
}

fn clone_opt_nb(o: &Option<NonBlocking>) -> (r: Option<NonBlocking>)
    ensures
        r == *o,
{
    match o {
        Some(nb) => Some(
            NonBlocking { buffer_length: nb.buffer_length, behaviour: nb.behaviour },
        ),
        Option::None => Option::None,
    }
}

/// Resolve a destination without a fallible path: a failed opening attempt
/// poisons the sink instead, carrying the same message the error would
/// have carried, and asynchronous delivery is not applied around a
/// poisoned sink.
pub fn resolve_deferred(w: &Writer, attempt: OpenAttempt) -> (res: Resolution)
    requires
        spec_needs_open(*w) ==> !(attempt matches OpenAttempt::Untried),
    ensures
        match *w {
            Writer::Null => res.sink matches ResolvedSink::Null && res.queue is None,
            Writer::Stdout => res.sink matches ResolvedSink::Stdout && res.queue is None,
            Writer::Stderr => res.sink matches ResolvedSink::Stderr && res.queue is None,
            Writer::File(f) => match attempt {
                OpenAttempt::Opened => res.sink matches ResolvedSink::File && res.queue
                    == f.non_blocking,
                OpenAttempt::Failed(m) => res.queue is None && (res.sink
                    matches ResolvedSink::Poisoned(p) && p.cause.message@ == spec_file_error(
                    f.path@,
                    m@,
                )),
                OpenAttempt::Untried => true,
            },
            Writer::Rolling(rl) => match attempt {
                OpenAttempt::Opened => res.sink matches ResolvedSink::Rolling(_) && res.queue
                    == rl.non_blocking,
                OpenAttempt::Failed(m) => res.queue is None && (res.sink
                    matches ResolvedSink::Poisoned(p) && p.cause.message@ == spec_dir_error(
                    rl.directory@,
                    m@,
                )),
                OpenAttempt::Untried => true,
            },
        },
{
    match resolve(w, attempt) {
        Ok(res) => res,
        Err(e) => Resolution {
            sink: ResolvedSink::Poisoned(PoisonedSink::new(e.message)),
            queue: Option::None,
        },
    }
}

/// What the host must do to mirror one accepted write.
#[derive(Debug, Clone, PartialEq, Eq)]
pub enum WriteEffect {
    /// Nothing: the record was discarded by the null sink.
    Discarded,
    /// Write the record to standard output.
    ToStdout,
    /// Write the record to standard error.
    ToStderr,
    /// Write the record to the opened file.
    ToFile,
    /// Append the record to the active file of the rotating set.
    RollAppend,
    /// Close the active file, open a fresh one under the returned name
    /// (pruning old files beyond the limit), and write the record there.
    RollRotate(String),
}

impl ResolvedSink {
    /// Accept one rendered record, dated `now_secs`. Every healthy sink
    /// accepts it and reports the effect the host must mirror; a poisoned
    /// sink refuses it with its one shared cause and changes nothing.
    pub fn write(&mut self, buf: &Vec<u8>, now_secs: u64) -> (r: Result<WriteEffect, WriteFailure>)
        ensures
            match *old(self) {
                ResolvedSink::Null => *final(self) == *old(self) && (r matches Ok(
                    WriteEffect::Discarded,
                )),
                ResolvedSink::Stdout => *final(self) == *old(self) && (r matches Ok(
                    WriteEffect::ToStdout,
                )),
                ResolvedSink::Stderr => *final(self) == *old(self) && (r matches Ok(
                    WriteEffect::ToStderr,
                )),
                ResolvedSink::File => *final(self) == *old(self) && (r matches Ok(
                    WriteEffect::ToFile,
                )),
                ResolvedSink::Rolling(st) => ((*final(self)) matches ResolvedSink::Rolling(st2)
                    && st2@ == spec_roll_write(st@, buf@, now_secs as nat)) && match r {
                    Ok(WriteEffect::RollAppend) => st@.files.len() > 0 && st@.files.last().bucket
                        == crate::rolling::spec_bucket(st@.rotation, now_secs as nat),
                    Ok(WriteEffect::RollRotate(name)) => name@ == spec_file_name(
                        st@.rotation,
                        st@.prefix,
                        st@.suffix,
                        now_secs as nat,
                    ),
                    _ => false,
                },
                ResolvedSink::Poisoned(p) => *final(self) == *old(self) && (r matches Err(e)
                    && e.cause == p.cause),
            },
    {
        match self {
            ResolvedSink::Null => Ok(WriteEffect::Discarded),
            ResolvedSink::Stdout => Ok(WriteEffect::ToStdout),
            ResolvedSink::Stderr => Ok(WriteEffect::ToStderr),
            ResolvedSink::File => Ok(WriteEffect::ToFile),
            ResolvedSink::Rolling(st) => match st.write(buf, now_secs) {
                RollEffect::Appended => Ok(WriteEffect::RollAppend),
                RollEffect::Rotated(name) => Ok(WriteEffect::RollRotate(name)),
            },
            ResolvedSink::Poisoned(p) => Err(p.write()),
        }
    }

    /// Accept one flush: every healthy sink takes it, and the host mirrors
    /// it on the real handles; a poisoned sink refuses it with the same
    /// shared cause it refuses writes with.
    pub fn flush(&self) -> (r: Result<(), WriteFailure>)
        ensures
            match *self {
                ResolvedSink::Poisoned(p) => r matches Err(e) && e.cause == p.cause,
                _ => r is Ok,
            },
    {
        match self {
            ResolvedSink::Poisoned(p) => Err(p.write()),
            _ => Ok(()),
        }
    }
}

} // verus!
