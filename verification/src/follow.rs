//! Decision logic of follow mode: a cursor of bytes already emitted, the
//! last observed modification time, and the transitions taken on each poll —
//! rotation and truncation detection, retry-or-fail on errors, and cursor
//! advancement as appended lines are read. The host performs the actual
//! file I/O and sleeps; every decision is made here.

use vstd::prelude::*;
use crate::lines::{normalize_crlf, normalize_crlf_line, split_lines};

verus! {

/// The follow cursor's state between two polls.
pub struct FollowState {
    /// Byte offset of the boundary between already-emitted and
    /// not-yet-emitted content.
    pub cursor: u64,
    /// Modification time observed on the previous poll, as an opaque
    /// timestamp token; compared only for equality.
    pub last_modified: u128,
    /// Whether a missing or unreadable file is waited out rather than fatal.
    pub retry: bool,
}

/// What the host must do after a metadata poll or a failed operation.
#[derive(PartialEq, Eq, Structural, Clone, Copy, Debug)]
pub enum PollDecision {
    /// Nothing unusual: go on to read from the cursor.
    Proceed,
    /// The file was rotated: emit a rotation notice, reopen the file, and
    /// read again from the start.
    Rotate,
    /// Transient failure under the retry policy: log, wait, poll again.
    Wait,
    /// Failure without the retry policy: propagate the error.
    Fail,
}

/// What the host must do after one read at the cursor.
pub enum ReadStep {
    /// A line (or unterminated final chunk) was available: emit these bytes.
    Emit(Vec<u8>),
    /// Nothing new: wait briefly, then check for truncation.
    NoData,
}

/// Whether to begin tailing at all, given whether the file exists.
#[derive(PartialEq, Eq, Structural, Clone, Copy, Debug)]
pub enum StartDecision {
    /// The file is there: tail it.
    Proceed,
    /// Absent, but the retry policy is on: announce the wait, sleep, and
    /// check again.
    WaitForFile,
    /// Absent and no retry: report the missing file and stop.
    FailMissing,
}

/// The state when follow mode begins: the cursor sits at end-of-file as
/// observed at that moment, so only content appended afterwards is emitted.
pub fn follow_start(size: u64, modified: u128, retry: bool) -> (s: FollowState)
    ensures
        s.cursor == size,
        s.last_modified == modified,
        s.retry == retry,
{
    FollowState { cursor: size, last_modified: modified, retry }
}

/// Decides how to begin, given whether the target file exists.
pub fn on_existence_check(exists: bool, retry: bool) -> (d: StartDecision)
    ensures
        exists ==> d == StartDecision::Proceed,
        !exists && retry ==> d == StartDecision::WaitForFile,
        !exists && !retry ==> d == StartDecision::FailMissing,
{
    if exists {
        StartDecision::Proceed
    } else if retry {
        StartDecision::WaitForFile
    } else {
        StartDecision::FailMissing
    }
}

/// Decides what a failed open, read or metadata query means: wait and retry
/// under the retry policy, otherwise fail.
pub fn on_io_error(retry: bool) -> (d: PollDecision)
    ensures
        d == (if retry {
            PollDecision::Wait
        } else {
            PollDecision::Fail
        }),
{
    if retry {
        PollDecision::Wait
    } else {
        PollDecision::Fail
    }
}

impl FollowState {
    /// A successful metadata poll. Rotation is inferred exactly when the
    /// modification time changed and the file is now smaller than the
    /// cursor; the cursor then resets to zero so the new file is emitted
    /// from its own start. The observed time always becomes the last-seen
    /// one.
    pub fn on_metadata(&mut self, size: u64, modified: u128) -> (d: PollDecision)
        ensures
            d == (if modified != old(self).last_modified && size < old(self).cursor {
                PollDecision::Rotate
            } else {
                PollDecision::Proceed
            }),
            final(self).cursor == (if d == PollDecision::Rotate {
                0u64
            } else {
                old(self).cursor
            }),
            final(self).last_modified == modified,
            final(self).retry == old(self).retry,
    {
        let rotated = modified != self.last_modified && size < self.cursor;
        self.last_modified = modified;
        if rotated {
            self.cursor = 0;
            PollDecision::Rotate
        } else {
            PollDecision::Proceed
        }
    }

    /// One read at the cursor: `line` holds the raw bytes the host read
    /// there, empty when nothing was available. The cursor advances by
    /// exactly the bytes consumed, and a non-empty read is emitted once,
    /// with a trailing CRLF rewritten to a single LF.
    pub fn on_read(&mut self, line: Vec<u8>) -> (step: ReadStep)
        requires
            old(self).cursor + line@.len() <= u64::MAX,
        ensures
            final(self).cursor == old(self).cursor + line@.len(),
            final(self).last_modified == old(self).last_modified,
            final(self).retry == old(self).retry,
            line@.len() == 0 ==> step is NoData,
            line@.len() > 0 ==> (step matches ReadStep::Emit(out) && out@ == normalize_crlf(
                line@,
            )),
    {
        if line.len() == 0 {
            ReadStep::NoData
        } else {
            self.cursor = self.cursor + line.len() as u64;
            let mut out = line;
            normalize_crlf_line(&mut out);
            ReadStep::Emit(out)
        }
    }

    /// The truncation check made after an empty read: the file shrank below
    /// the cursor exactly when `true` is returned, and the cursor then
    /// resets to zero, so nothing of the vanished content is re-emitted and
    /// the new content is read from its start.
    pub fn on_truncation_check(&mut self, size: u64) -> (truncated: bool)
        ensures
            truncated == (size < old(self).cursor),
            final(self).cursor == (if size < old(self).cursor {
                0u64
            } else {
                old(self).cursor
            }),
            final(self).last_modified == old(self).last_modified,
            final(self).retry == old(self).retry,
    {
        if size < self.cursor {
            self.cursor = 0;
            true
        } else {
            false
        }
    }
}

/// The total byte length of a sequence of raw line chunks.
pub open spec fn total_len(chunks: Seq<Seq<u8>>) -> int
    decreases chunks.len(),
{
    if chunks.len() == 0 {
        0
    } else {
        chunks.first().len() + total_len(chunks.drop_first())
    }
}

proof fn lemma_flatten_total_len(chunks: Seq<Seq<u8>>)
    ensures
        chunks.flatten().len() == total_len(chunks),
    decreases chunks.len(),
{
    if chunks.len() > 0 {
        lemma_flatten_total_len(chunks.drop_first());
    }
}

/// Law: content appended after the cursor is emitted exactly once, in
/// order. The raw line chunks the host reads one after another concatenate
/// to exactly the appended bytes — nothing lost, nothing duplicated — and
/// since `on_read` advances the cursor by each chunk's full length, the
/// cursor moves past exactly the appended bytes: consecutive reads never
/// overlap and never skip.
pub proof fn lemma_appended_emitted_once(appended: Seq<u8>)
    ensures
        split_lines(appended).flatten() == appended,
        total_len(split_lines(appended)) == appended.len(),
{
    crate::lines::lemma_split_lines_partition(appended);
    lemma_flatten_total_len(split_lines(appended));
}

} // verus!
