//! The journal handle: how it is opened, what the answers of the store mean
//! for each of its operations, and the steps of a pull that waits for new
//! entries.

use crate::record::{
    all_separated, buffers, decode_fields, decoded, first_malformed, placeholder_map, JournalRecord,
};
use vstd::prelude::*;

verus! {

/// Bit of the open flags: only entries that originate from this host.
pub const SD_JOURNAL_LOCAL_ONLY: i32 = 1;

/// Bit of the open flags: only entries of the current boot.
pub const SD_JOURNAL_RUNTIME_ONLY: i32 = 2;

/// Bit of the open flags: the system-wide store.
pub const SD_JOURNAL_SYSTEM: i32 = 4;

/// Bit of the open flags: the store of the current user.
pub const SD_JOURNAL_CURRENT_USER: i32 = 8;

/// Represents the set of journal files to read.
#[derive(Clone, Copy, Debug, PartialEq, Eq, Structural)]
pub enum JournalFiles {
    /// The system-wide journal.
    System,
    /// The current user's journal.
    CurrentUser,
    /// Both the system-wide journal and the current user's journal.
    All,
}

/// The flag word that selects the given stores and filters: the bits of the
/// filters asked for and of the one store named; for both stores, neither
/// store bit.
pub open spec fn scope_flags(files: JournalFiles, runtime_only: bool, local_only: bool) -> int {
    (match files {
        JournalFiles::System => SD_JOURNAL_SYSTEM as int,
        JournalFiles::CurrentUser => SD_JOURNAL_CURRENT_USER as int,
        JournalFiles::All => 0int,
    }) + (if runtime_only {
        SD_JOURNAL_RUNTIME_ONLY as int
    } else {
        0int
    }) + (if local_only {
        SD_JOURNAL_LOCAL_ONLY as int
    } else {
        0int
    })
}

/// Computes the flag word handed to the store when it is opened.
pub fn open_flags(files: JournalFiles, runtime_only: bool, local_only: bool) -> (flags: i32)
    ensures
        flags as int == scope_flags(files, runtime_only, local_only),
{
    let mut flags: i32 = 0;
    if runtime_only {
        flags = flags + SD_JOURNAL_RUNTIME_ONLY;
    }
    if local_only {
        flags = flags + SD_JOURNAL_LOCAL_ONLY;
    }
    let store: i32 = match files {
        JournalFiles::System => SD_JOURNAL_SYSTEM,
        JournalFiles::CurrentUser => SD_JOURNAL_CURRENT_USER,
        JournalFiles::All => 0,
    };
    flags + store
}

/// How a seek to a cursor ended.
#[derive(Clone, Copy, Debug, PartialEq, Eq, Structural)]
pub enum SeekRet {
    /// The entry that the cursor names was found.
    SeekSuccess,
    /// That entry is gone; the position is at the closest entry instead.
    ClosestSeek,
}

/// A failed operation, with the status that the store gave (below zero).
#[derive(Clone, Copy, Debug, PartialEq, Eq, Structural)]
pub enum JournalError {
    /// The connection could not be established or brought to the head.
    Open(i32),
    /// Advancing, enumerating fields, or reading a cursor or timestamp failed.
    Read(i32),
    /// The field buffer at this place holds no separator.
    Malformed(usize),
    /// The store could not seek to the cursor.
    Seek(i32),
}

/// Why a wait on the store returned.
#[derive(Clone, Copy, Debug, PartialEq, Eq, Structural)]
pub enum WaitOutcome {
    /// New entries were appended.
    DataAvailable,
    /// Nothing arrived in time.
    Timeout,
    /// The set of journal files changed, as after a rotation.
    Invalidated,
}

/// What a timed-out wait means for the pulls that follow.
#[derive(Clone, Copy, Debug, PartialEq, Eq, Structural)]
pub enum TimeoutPolicy {
    /// It ends the pull it happened in; the next pull asks the store again.
    EndsPull,
    /// It ends the sequence: every later pull ends at once, without an entry.
    EndsSequence,
}

/// Where a pull of the next entry stands.
#[derive(Clone, Copy, Debug, PartialEq, Eq, Structural)]
pub enum IterState {
    /// The store can be asked to advance.
    Ready,
    /// The end of the data was reached and a wait is under way.
    Waiting,
    /// The last wait ended with an invalidation; the store is asked to advance
    /// again from where it stands, without a seek.
    Invalidated,
    /// The last wait timed out and the pull ended without an entry.
    Exhausted,
}

/// What happened since the last step of a pull.
#[derive(Clone, Copy, Debug, PartialEq, Eq, Structural)]
pub enum IterEvent {
    /// The caller asks for the next entry.
    Pull,
    /// The store was asked to advance and gave this status.
    Advanced(i32),
    /// The wait on the store gave this status.
    Waited(i32),
}

/// What the driver of a pull does next.
#[derive(Clone, Copy, Debug, PartialEq, Eq, Structural)]
pub enum IterAction {
    /// Ask the store to advance and report the status as `Advanced`.
    Advance,
    /// Wait on the store for this many microseconds and report the status as `Waited`.
    Wait(u64),
    /// The position is on a new entry: enumerate its fields from their start,
    /// decode them, capture its cursor, hand both out.
    Yield,
    /// Advancing failed, in this way: hand out the placeholder record.
    YieldPlaceholder(JournalError),
    /// There is no entry for this pull.
    End,
}

/// The wait time of a freshly opened journal, in microseconds: in effect unbounded.
pub const DEFAULT_WAIT_TIME: u64 = 0x8000_0000_0000_0000;

/// The microseconds in a second.
pub const MICROS_PER_SECOND: u64 = 1_000_000;

/// The meaning of the status of a wait: nothing above zero is a timeout, 2 an
/// invalidation, any other status new data.
pub open spec fn wait_outcome(status: i32) -> WaitOutcome {
    if status <= 0 {
        WaitOutcome::Timeout
    } else if status == 2 {
        WaitOutcome::Invalidated
    } else {
        WaitOutcome::DataAvailable
    }
}

/// The events that a pull in state `state` can take.
pub open spec fn accepts(state: IterState, event: IterEvent) -> bool {
    match event {
        IterEvent::Pull => state != IterState::Waiting,
        IterEvent::Advanced(_) => state == IterState::Ready || state == IterState::Invalidated,
        IterEvent::Waited(_) => state == IterState::Waiting,
    }
}

/// One step of a pull: the state that follows and what to do next, for a journal
/// whose wait time is `wait_time`. An event that the state does not take
/// changes nothing and ends the pull.
///
/// After an invalidation the store is asked to advance from where it stands.
/// After a timeout the next pull asks the store again, unless the policy lets
/// a timeout end the sequence.
pub open spec fn step(
    state: IterState,
    event: IterEvent,
    wait_time: u64,
    policy: TimeoutPolicy,
) -> (IterState, IterAction) {
    if !accepts(state, event) {
        (state, IterAction::End)
    } else {
        match event {
            IterEvent::Pull => if state == IterState::Exhausted && policy
                == TimeoutPolicy::EndsSequence {
                (IterState::Exhausted, IterAction::End)
            } else {
                (IterState::Ready, IterAction::Advance)
            },
            IterEvent::Advanced(status) => if status < 0 {
                (IterState::Ready, IterAction::YieldPlaceholder(JournalError::Read(status)))
            } else if status == 0 {
                (IterState::Waiting, IterAction::Wait(wait_time))
            } else {
                (IterState::Ready, IterAction::Yield)
            },
            IterEvent::Waited(status) => match wait_outcome(status) {
                WaitOutcome::Timeout => (IterState::Exhausted, IterAction::End),
                WaitOutcome::Invalidated => (IterState::Invalidated, IterAction::Advance),
                WaitOutcome::DataAvailable => (IterState::Ready, IterAction::Advance),
            },
        }
    }
}

/// What a reader of the journal knows of its connection to the store: the
/// flags it was opened with, the wait time, whether it was released, and where
/// a pull stands. The connection itself is its owner's.
#[derive(Debug)]
pub struct Journal {
    flags: i32,
    wait_time: u64,
    policy: TimeoutPolicy,
    open: bool,
    at_head: bool,
    state: IterState,
}

impl Journal {
    /// The flags that the store was opened with.
    pub closed spec fn spec_flags(&self) -> i32 {
        self.flags
    }

    /// The time a wait may take, in microseconds.
    pub closed spec fn spec_wait_time(&self) -> u64 {
        self.wait_time
    }

    /// What a timed-out wait means for later pulls.
    pub closed spec fn spec_timeout_policy(&self) -> TimeoutPolicy {
        self.policy
    }

    /// The connection has not been released.
    pub closed spec fn spec_is_open(&self) -> bool {
        self.open
    }

    /// No advance and no seek has succeeded since the journal was opened.
    pub closed spec fn spec_at_head(&self) -> bool {
        self.at_head
    }

    /// Where a pull stands.
    pub closed spec fn spec_state(&self) -> IterState {
        self.state
    }

    /// This journal after its release.
    pub closed spec fn released(self) -> Journal {
        Journal { open: false, ..self }
    }

    /// What a release changes: the journal is no longer open, and nothing else.
    pub proof fn lemma_released(self)
        ensures
            !self.released().spec_is_open(),
            self.released().spec_flags() == self.spec_flags(),
            self.released().spec_wait_time() == self.spec_wait_time(),
            self.released().spec_timeout_policy() == self.spec_timeout_policy(),
            self.released().spec_at_head() == self.spec_at_head(),
            self.released().spec_state() == self.spec_state(),
    {
    }

    /// A second release changes nothing: the journal after two releases is the
    /// journal after one, and it asks for no second release of the connection.
    pub proof fn lemma_release_idempotent(self)
        ensures
            self.released().released() == self.released(),
            !self.released().spec_is_open(),
    {
    }

    #[verifier::when_used_as_spec(spec_flags)]
    pub fn flags(&self) -> (r: i32)
        ensures
            r == self.spec_flags(),
    {
        self.flags
    }

    #[verifier::when_used_as_spec(spec_wait_time)]
    pub fn wait_time(&self) -> (r: u64)
        ensures
            r == self.spec_wait_time(),
    {
        self.wait_time
    }

    #[verifier::when_used_as_spec(spec_timeout_policy)]
    pub fn timeout_policy(&self) -> (r: TimeoutPolicy)
        ensures
            r == self.spec_timeout_policy(),
    {
        self.policy
    }

    #[verifier::when_used_as_spec(spec_is_open)]
    pub fn is_open(&self) -> (r: bool)
        ensures
            r == self.spec_is_open(),
    {
        self.open
    }

    #[verifier::when_used_as_spec(spec_at_head)]
    pub fn at_head(&self) -> (r: bool)
        ensures
            r == self.spec_at_head(),
    {
        self.at_head
    }

    #[verifier::when_used_as_spec(spec_state)]
    pub fn state(&self) -> (r: IterState)
        ensures
            r == self.spec_state(),
    {
        self.state
    }

    /// Opens the journal for reading.
    ///
    /// * `files`: the set of journal files to read. Where the caller may not
    ///   read the system journal the store still opens, without its entries.
    /// * `runtime_only`: only entries of the current boot.
    /// * `local_only`: only entries that originate from this host.
    /// * `open_status`: what the store answered when asked to open with
    ///   `open_flags(files, runtime_only, local_only)`.
    /// * `seek_status`: what it answered when asked to seek to the head; read
    ///   only where `open_status` is not below zero.
    ///
    /// There is a journal only where both steps succeeded, and it is open, at
    /// the head and ready. Where the store opened and the seek failed, the
    /// caller releases the connection.
    pub fn open(
        files: JournalFiles,
        runtime_only: bool,
        local_only: bool,
        open_status: i32,
        seek_status: i32,
    ) -> (r: Result<Journal, JournalError>)
        ensures
            open_status < 0 ==> r == Err::<Journal, JournalError>(JournalError::Open(open_status)),
            open_status >= 0 && seek_status < 0 ==> r == Err::<Journal, JournalError>(
                JournalError::Open(seek_status),
            ),
            open_status >= 0 && seek_status >= 0 ==> (r matches Ok(j) && j.is_open() && j.at_head()
                && j.state() == IterState::Ready && j.flags() as int == scope_flags(
                files,
                runtime_only,
                local_only,
            ) && j.wait_time() == DEFAULT_WAIT_TIME && j.timeout_policy()
                == TimeoutPolicy::EndsPull),
    {
        if open_status < 0 {
            return Err(JournalError::Open(open_status));
        }
        if seek_status < 0 {
            return Err(JournalError::Open(seek_status));
        }
        Ok(
            Journal {
                flags: open_flags(files, runtime_only, local_only),
                wait_time: DEFAULT_WAIT_TIME,
                policy: TimeoutPolicy::EndsPull,
                open: true,
                at_head: true,
                state: IterState::Ready,
            },
        )
    }

    /// Sets the time that a pull waits for new entries, in seconds.
    pub fn set_iterator_timeout(&mut self, timeout: u64)
        requires
            timeout * MICROS_PER_SECOND <= u64::MAX,
        ensures
            final(self).wait_time() == timeout * MICROS_PER_SECOND,
            final(self).flags() == old(self).flags(),
            final(self).timeout_policy() == old(self).timeout_policy(),
            final(self).is_open() == old(self).is_open(),
            final(self).at_head() == old(self).at_head(),
            final(self).state() == old(self).state(),
    {
        self.wait_time = timeout * MICROS_PER_SECOND;
    }

    /// Sets the time that a pull waits, where it fits into the microseconds of
    /// a `u64`, and says whether it did.
    pub fn try_set_iterator_timeout(&mut self, timeout: u64) -> (set: bool)
        ensures
            set == (timeout * MICROS_PER_SECOND <= u64::MAX),
            set ==> final(self).wait_time() == timeout * MICROS_PER_SECOND,
            !set ==> final(self).wait_time() == old(self).wait_time(),
            final(self).flags() == old(self).flags(),
            final(self).timeout_policy() == old(self).timeout_policy(),
            final(self).is_open() == old(self).is_open(),
            final(self).at_head() == old(self).at_head(),
            final(self).state() == old(self).state(),
    {
        if timeout <= u64::MAX / MICROS_PER_SECOND {
            assert(timeout * MICROS_PER_SECOND <= u64::MAX) by (nonlinear_arith)
                requires
                    timeout <= u64::MAX / MICROS_PER_SECOND,
                    MICROS_PER_SECOND == 1_000_000,
            ;
            self.set_iterator_timeout(timeout);
            true
        } else {
            assert(timeout * MICROS_PER_SECOND > u64::MAX) by (nonlinear_arith)
                requires
                    timeout > u64::MAX / MICROS_PER_SECOND,
                    MICROS_PER_SECOND == 1_000_000,
            ;
            false
        }
    }

    /// Says what a timed-out wait means for the pulls that follow.
    pub fn set_timeout_policy(&mut self, policy: TimeoutPolicy)
        ensures
            final(self).timeout_policy() == policy,
            final(self).flags() == old(self).flags(),
            final(self).wait_time() == old(self).wait_time(),
            final(self).is_open() == old(self).is_open(),
            final(self).at_head() == old(self).at_head(),
            final(self).state() == old(self).state(),
    {
        self.policy = policy;
    }

    /// Reads the next record.
    ///
    /// * `advance_status`: what the store answered when asked to advance: zero
    ///   at the end of the data, above zero when it moved to a new entry.
    /// * `enumerate_status`: the status that ended the enumeration of that
    ///   entry's fields from their start; read only after a move.
    /// * `fields`: the field buffers that the enumeration gave, in its order.
    ///
    /// At the end of the data there is no record. A failure of the store or a
    /// buffer without a separator fails the record.
    pub fn next_record(
        &mut self,
        advance_status: i32,
        enumerate_status: i32,
        fields: &Vec<Vec<u8>>,
    ) -> (r: Result<Option<JournalRecord>, JournalError>)
        requires
            old(self).is_open(),
        ensures
            final(self).flags() == old(self).flags(),
            final(self).timeout_policy() == old(self).timeout_policy(),
            final(self).wait_time() == old(self).wait_time(),
            final(self).is_open(),
            final(self).state() == old(self).state(),
            final(self).at_head() == (old(self).at_head() && advance_status <= 0),
            advance_status < 0 ==> r == Err::<Option<JournalRecord>, JournalError>(
                JournalError::Read(advance_status),
            ),
            advance_status == 0 ==> r == Ok::<Option<JournalRecord>, JournalError>(None),
            advance_status > 0 ==> record_read(r, enumerate_status, buffers(fields@)),
    {
        if advance_status < 0 {
            return Err(JournalError::Read(advance_status));
        }
        if advance_status == 0 {
            return Ok(None);
        }
        self.at_head = false;
        match read_record(enumerate_status, fields) {
            Ok(rec) => Ok(Some(rec)),
            Err(e) => Err(e),
        }
    }

    /// The cursor of the current entry, as the store wrote it.
    ///
    /// * `status`: what the store answered when asked for the cursor.
    /// * `text`: the cursor it gave; read only where `status` is not below zero.
    ///
    /// The text is handed on unchanged.
    pub fn cursor(&self, status: i32, text: String) -> (r: Result<String, JournalError>)
        requires
            self.is_open(),
        ensures
            status < 0 ==> r == Err::<String, JournalError>(JournalError::Read(status)),
            status >= 0 ==> r == Ok::<String, JournalError>(text),
    {
        if status < 0 {
            Err(JournalError::Read(status))
        } else {
            Ok(text)
        }
    }

    /// Takes one answer of the store during a seek to a cursor and says what to
    /// do next. A seek starts with the store asked to seek to the text that
    /// `seek_text` gives, reported as `Sought`, and goes on until the answer is
    /// `Done` or `Failed`.
    pub fn seek(&mut self, event: SeekEvent) -> (action: SeekAction)
        requires
            old(self).is_open(),
        ensures
            action == seek_step(event),
            final(self).flags() == old(self).flags(),
            final(self).timeout_policy() == old(self).timeout_policy(),
            final(self).wait_time() == old(self).wait_time(),
            final(self).is_open(),
            final(self).state() == old(self).state(),
            final(self).at_head() == (old(self).at_head() && !(event matches SeekEvent::Sought(
                status,
            ) && status >= 0)),
    {
        match event {
            SeekEvent::Sought(status) => {
                if status < 0 {
                    SeekAction::Failed(JournalError::Seek(status))
                } else {
                    self.at_head = false;
                    SeekAction::Advance
                }
            },
            SeekEvent::Advanced(status) => {
                if status < 0 {
                    SeekAction::Failed(JournalError::Seek(status))
                } else if status == 0 {
                    SeekAction::Done(SeekRet::ClosestSeek)
                } else {
                    SeekAction::Test
                }
            },
            SeekEvent::Tested(status) => {
                if status < 0 {
                    SeekAction::Failed(JournalError::Seek(status))
                } else if status == 0 {
                    SeekAction::Restore
                } else {
                    SeekAction::Done(SeekRet::SeekSuccess)
                }
            },
            SeekEvent::Restored(status) => {
                if status < 0 {
                    SeekAction::Failed(JournalError::Seek(status))
                } else {
                    SeekAction::Done(SeekRet::ClosestSeek)
                }
            },
        }
    }

    /// The wall-clock time of the current entry, in microseconds.
    ///
    /// * `status`: what the store answered when asked for the time.
    /// * `timestamp`: the time it gave; read only where `status` is not below zero.
    pub fn get_realtime_us(&self, status: i32, timestamp: u64) -> (r: Result<u64, JournalError>)
        requires
            self.is_open(),
        ensures
            status < 0 ==> r == Err::<u64, JournalError>(JournalError::Read(status)),
            status >= 0 ==> r == Ok::<u64, JournalError>(timestamp),
    {
        if status < 0 {
            Err(JournalError::Read(status))
        } else {
            Ok(timestamp)
        }
    }

    /// Says why a wait on the store returned with `status`.
    pub fn wait(&self, status: i32) -> (r: WaitOutcome)
        requires
            self.is_open(),
        ensures
            r == wait_outcome(status),
    {
        if status <= 0 {
            WaitOutcome::Timeout
        } else if status == 2 {
            WaitOutcome::Invalidated
        } else {
            WaitOutcome::DataAvailable
        }
    }

    /// Takes one event of a pull and says what to do next. A pull starts with
    /// `Pull` and goes on until the answer is `Yield`, `YieldPlaceholder` or `End`.
    pub fn next(&mut self, event: IterEvent) -> (action: IterAction)
        requires
            old(self).is_open(),
        ensures
            (final(self).state(), action) == step(
                old(self).state(),
                event,
                old(self).wait_time(),
                old(self).timeout_policy(),
            ),
            final(self).flags() == old(self).flags(),
            final(self).timeout_policy() == old(self).timeout_policy(),
            final(self).wait_time() == old(self).wait_time(),
            final(self).is_open(),
            final(self).at_head() == (old(self).at_head() && action != IterAction::Yield),
    {
        let state = self.state;
        match event {
            IterEvent::Pull => {
                if state == IterState::Waiting {
                    IterAction::End
                } else if state == IterState::Exhausted && self.policy
                    == TimeoutPolicy::EndsSequence {
                    IterAction::End
                } else {
                    self.state = IterState::Ready;
                    IterAction::Advance
                }
            },
            IterEvent::Advanced(status) => {
                if !(state == IterState::Ready || state == IterState::Invalidated) {
                    IterAction::End
                } else if status < 0 {
                    self.state = IterState::Ready;
                    IterAction::YieldPlaceholder(JournalError::Read(status))
                } else if status == 0 {
                    self.state = IterState::Waiting;
                    IterAction::Wait(self.wait_time)
                } else {
                    self.state = IterState::Ready;
                    self.at_head = false;
                    IterAction::Yield
                }
            },
            IterEvent::Waited(status) => {
                if state != IterState::Waiting {
                    IterAction::End
                } else {
                    match self.wait(status) {
                        WaitOutcome::Timeout => {
                            self.state = IterState::Exhausted;
                            IterAction::End
                        },
                        WaitOutcome::Invalidated => {
                            self.state = IterState::Invalidated;
                            IterAction::Advance
                        },
                        WaitOutcome::DataAvailable => {
                            self.state = IterState::Ready;
                            IterAction::Advance
                        },
                    }
                }
            },
        }
    }

    /// Releases the journal. The answer says whether the connection is to be
    /// closed now: yes the first time, no ever after.
    pub fn close(&mut self) -> (release: bool)
        ensures
            release == old(self).is_open(),
            *final(self) == old(self).released(),
            !final(self).is_open(),
            final(self).flags() == old(self).flags(),
            final(self).wait_time() == old(self).wait_time(),
            final(self).timeout_policy() == old(self).timeout_policy(),
            final(self).at_head() == old(self).at_head(),
            final(self).state() == old(self).state(),
    {
        let release = self.open;
        self.open = false;
        release
    }
}

/// What the store answered during a seek to a cursor.
#[derive(Clone, Copy, Debug, PartialEq, Eq, Structural)]
pub enum SeekEvent {
    /// It was asked to seek to the cursor and gave this status.
    Sought(i32),
    /// It was asked to advance onto the entry sought and gave this status.
    Advanced(i32),
    /// It was asked whether the entry it is at is the one that the cursor
    /// names and gave this status: zero for no, above zero for yes.
    Tested(i32),
    /// It was asked to seek to the cursor once more and gave this status.
    Restored(i32),
}

/// What the driver of a seek does next.
#[derive(Clone, Copy, Debug, PartialEq, Eq, Structural)]
pub enum SeekAction {
    /// Ask the store to advance and report the status as `Advanced`.
    Advance,
    /// Ask the store whether its entry is the one that the cursor names and
    /// report the status as `Tested`.
    Test,
    /// Ask the store to seek to the same text again and report the status as
    /// `Restored`.
    Restore,
    /// The seek ended, in this way.
    Done(SeekRet),
    /// The seek failed.
    Failed(JournalError),
}

/// One step of a seek. A seek of the store only marks a place, and the advance
/// that follows moves onto the entry at or behind it. So the reader advances
/// once. Where the store then stands on the entry that the cursor names, the
/// seek succeeded, and the next advance gives the entry behind it. Where it
/// stands on another entry, the one sought is gone: the reader seeks again, so
/// that the next advance gives that closest entry. Where there was nothing to
/// advance to, the next advance gives what arrives next.
pub open spec fn seek_step(event: SeekEvent) -> SeekAction {
    match event {
        SeekEvent::Sought(status) => if status < 0 {
            SeekAction::Failed(JournalError::Seek(status))
        } else {
            SeekAction::Advance
        },
        SeekEvent::Advanced(status) => if status < 0 {
            SeekAction::Failed(JournalError::Seek(status))
        } else if status == 0 {
            SeekAction::Done(SeekRet::ClosestSeek)
        } else {
            SeekAction::Test
        },
        SeekEvent::Tested(status) => if status < 0 {
            SeekAction::Failed(JournalError::Seek(status))
        } else if status == 0 {
            SeekAction::Restore
        } else {
            SeekAction::Done(SeekRet::SeekSuccess)
        },
        SeekEvent::Restored(status) => if status < 0 {
            SeekAction::Failed(JournalError::Seek(status))
        } else {
            SeekAction::Done(SeekRet::ClosestSeek)
        },
    }
}

/// A seek fails exactly on an answer below zero, with that answer; it succeeds
/// exactly where the store says that it stands on the entry of the cursor;
/// and it is a closest seek exactly where there was nothing to advance to, or
/// the second seek went through.
pub proof fn lemma_seek_outcomes(event: SeekEvent)
    ensures
        (seek_step(event) matches SeekAction::Failed(_)) <==> seek_status(event) < 0,
        seek_status(event) < 0 ==> seek_step(event) == SeekAction::Failed(
            JournalError::Seek(seek_status(event)),
        ),
        seek_step(event) == SeekAction::Done(SeekRet::SeekSuccess) <==> (
        event matches SeekEvent::Tested(status) && status > 0),
        seek_step(event) == SeekAction::Done(SeekRet::ClosestSeek) <==> (event
            == SeekEvent::Advanced(0) || (event matches SeekEvent::Restored(status) && status >= 0)),
{
}

/// The status that an answer of the store carries.
pub open spec fn seek_status(event: SeekEvent) -> i32 {
    match event {
        SeekEvent::Sought(status) => status,
        SeekEvent::Advanced(status) => status,
        SeekEvent::Tested(status) => status,
        SeekEvent::Restored(status) => status,
    }
}

/// A cursor can be handed to the store where it holds no zero byte, which
/// would end the text early.
pub open spec fn sendable_cursor(cursor: Seq<u8>) -> bool {
    forall|i: int| 0 <= i < cursor.len() ==> cursor[i] != 0
}

/// The text that the store is asked to seek to: the cursor, byte for byte.
pub fn seek_text(cursor: &[u8]) -> (r: Vec<u8>)
    requires
        sendable_cursor(cursor@),
    ensures
        r@ == cursor@,
{
    let mut r: Vec<u8> = Vec::new();
    let mut i: usize = 0;
    while i < cursor.len()
        invariant
            i <= cursor@.len(),
            r@ == cursor@.take(i as int),
        decreases cursor@.len() - i,
    {
        r.push(cursor[i]);
        i = i + 1;
        assert(r@ =~= cursor@.take(i as int));
    }
    assert(cursor@.take(i as int) =~= cursor@);
    r
}

/// `r` is what reading an entry comes to whose fields were enumerated as `bufs`, ending
/// with `enumerate_status`.
pub open spec fn record_read(
    r: Result<Option<JournalRecord>, JournalError>,
    enumerate_status: i32,
    bufs: Seq<Seq<u8>>,
) -> bool {
    if enumerate_status < 0 {
        r == Err::<Option<JournalRecord>, JournalError>(JournalError::Read(enumerate_status))
    } else if all_separated(bufs) {
        r matches Ok(Some(rec)) && rec.well_formed() && rec@ == decoded(bufs)
    } else {
        r matches Err(JournalError::Malformed(i)) && first_malformed(bufs, i as int)
    }
}

/// Decodes the fields of the entry that the store is at.
///
/// * `enumerate_status`: the status that ended the enumeration of the fields.
/// * `fields`: the field buffers that the enumeration gave, in its order.
pub fn read_record(enumerate_status: i32, fields: &Vec<Vec<u8>>) -> (r: Result<
    JournalRecord,
    JournalError,
>)
    ensures
        enumerate_status < 0 ==> r == Err::<JournalRecord, JournalError>(
            JournalError::Read(enumerate_status),
        ),
        enumerate_status >= 0 && all_separated(buffers(fields@)) ==> (r matches Ok(rec)
            && rec.well_formed() && rec@ == decoded(buffers(fields@))),
        enumerate_status >= 0 && !all_separated(buffers(fields@)) ==> (r matches Err(
            JournalError::Malformed(i),
        ) && first_malformed(buffers(fields@), i as int)),
{
    if enumerate_status < 0 {
        return Err(JournalError::Read(enumerate_status));
    }
    match decode_fields(fields) {
        Ok(rec) => Ok(rec),
        Err(i) => Err(JournalError::Malformed(i)),
    }
}

/// The pair that a pull hands out: the record and the cursor of its entry.
/// Where the record could not be read the placeholder stands for it, so that
/// the reader sees a gap and not an end.
pub fn item(record: Result<JournalRecord, JournalError>, cursor: String) -> (r: (
    JournalRecord,
    String,
))
    requires
        record matches Ok(rec) ==> rec.well_formed(),
    ensures
        r.0.well_formed(),
        record matches Ok(rec) ==> r.0 == rec,
        record.is_err() ==> r.0@ == placeholder_map() && r.0.spec_len() == 1,
        r.1 == cursor,
{
    let rec = match record {
        Ok(rec) => rec,
        Err(_) => JournalRecord::placeholder(),
    };
    (rec, cursor)
}

/// An invalidation during a wait sends the pull back to the store: the next
/// action is to advance, and the pull has neither ended nor failed. What the
/// store then answers is taken as in the ready state.
pub proof fn lemma_invalidation_retries(wait_time: u64, policy: TimeoutPolicy, status: i32)
    ensures
        step(IterState::Waiting, IterEvent::Waited(2), wait_time, policy) == (
            IterState::Invalidated,
            IterAction::Advance,
        ),
        accepts(IterState::Invalidated, IterEvent::Advanced(status)),
        step(IterState::Invalidated, IterEvent::Advanced(status), wait_time, policy) == step(
            IterState::Ready,
            IterEvent::Advanced(status),
            wait_time,
            policy,
        ),
{
}

/// With nothing pending, a pull waits once, for the wait time of the journal,
/// and a timeout of that wait ends it without an entry. The next pull asks
/// the store again, unless a timeout ends the sequence.
pub proof fn lemma_timeout_ends_pull(wait_time: u64, policy: TimeoutPolicy, status: i32)
    requires
        status <= 0,
    ensures
        step(IterState::Ready, IterEvent::Pull, wait_time, policy) == (
            IterState::Ready,
            IterAction::Advance,
        ),
        step(IterState::Ready, IterEvent::Advanced(0), wait_time, policy) == (
            IterState::Waiting,
            IterAction::Wait(wait_time),
        ),
        step(IterState::Waiting, IterEvent::Waited(status), wait_time, policy) == (
            IterState::Exhausted,
            IterAction::End,
        ),
        step(IterState::Exhausted, IterEvent::Pull, wait_time, TimeoutPolicy::EndsPull) == (
            IterState::Ready,
            IterAction::Advance,
        ),
        step(IterState::Exhausted, IterEvent::Pull, wait_time, TimeoutPolicy::EndsSequence) == (
            IterState::Exhausted,
            IterAction::End,
        ),
{
}

/// Of a pull that follows the protocol: only a timeout ends it, now or, where
/// a timeout ends the sequence, in an earlier pull; only a move of the store
/// hands an entry out, only a failure to advance the placeholder; and it
/// waits only at the end of the data, for the wait time of the journal.
pub proof fn lemma_step_outcomes(
    state: IterState,
    event: IterEvent,
    wait_time: u64,
    policy: TimeoutPolicy,
)
    requires
        accepts(state, event),
    ensures
        step(state, event, wait_time, policy).1 == IterAction::End <==> (
        event matches IterEvent::Waited(status) && status <= 0) || (event == IterEvent::Pull
            && state == IterState::Exhausted && policy == TimeoutPolicy::EndsSequence),
        step(state, event, wait_time, policy).1 == IterAction::Yield <==> (
        event matches IterEvent::Advanced(status) && status > 0),
        (step(state, event, wait_time, policy).1 matches IterAction::YieldPlaceholder(_)) <==> (
        event matches IterEvent::Advanced(status) && status < 0),
        event matches IterEvent::Advanced(status) ==> (status < 0 ==> step(
            state,
            event,
            wait_time,
            policy,
        ).1 == IterAction::YieldPlaceholder(JournalError::Read(status))),
        step(state, event, wait_time, policy).1 == IterAction::Wait(wait_time) <==> event
            == IterEvent::Advanced(0),
        step(state, event, wait_time, policy).0 == IterState::Waiting <==> event
            == IterEvent::Advanced(0),
{
}

} // verus!
