//! One streaming session: a profile chain over one input, driven by at most
//! one transcoder child at a time.
//!
//! A `Session` records what the manager knows about the child and its output.
//! The methods that stand for work on the process take what that work
//! returned as an argument and say how the record changes.

use vstd::prelude::*;
use vstd::string::*;
use crate::error::NightfallError;
use crate::paths::{chunk_file_name, chunk_name, init_file_name, init_name, join, joined,
    subtitle_file_name, subtitle_name};
use crate::profile::{Profile, ProfileContext};

verus! {

/// Nominal duration of a chunk, in milliseconds.
pub const CHUNK_MS: u64 = 5_000;

/// Nominal duration of a chunk, in seconds.
pub const CHUNK_SECS: u64 = 5;

/// Idle time after which a session counts as timed out, in milliseconds.
pub const SOFT_TIMEOUT_MS: u64 = 30_000;

/// Idle time after which a session may be reaped, in milliseconds.
pub const HARD_TIMEOUT_MS: u64 = 90_000;

/// Lowest speed the estimate works with, in thousandths of real time.
pub const MIN_SPEED_MILLI: u64 = 10;

/// What the caller saw of a chunk's file.
#[derive(Debug, Clone, Copy)]
pub struct ChunkProbe {
    /// The file exists.
    pub exists: bool,
    /// Its size did not change over one probe interval.
    pub stable: bool,
}

/// What to spawn for a session that has no child.
#[derive(Debug, Clone)]
pub struct SpawnRequest {
    /// Tag of the profile that builds the arguments.
    pub profile: String,
    /// Offset into the input at which the run begins, in seconds.
    pub seek_secs: u64,
}

#[derive(Debug, Clone)]
pub struct Session {
    pub id: String,
    pub profile_chain: Vec<Profile>,
    pub profile_ctx: ProfileContext,
    pub is_direct_play: bool,
    /// Chunk at which the current run began.
    pub start_num: u32,
    /// Chunks the current run has completed, as the transcoder reports.
    pub produced: u32,
    /// Speed the transcoder reported last, in thousandths of real time.
    pub speed_milli: u64,
    /// Sequence number of the segment patched last.
    pub real_segment: u32,
    /// Media chunks served since the init segment was last delivered.
    pub chunks_since_init: u32,
    /// Chunk served last, unless its file has been removed since.
    pub last_served: Option<u32>,
    /// A child is held.
    pub running: bool,
    pub paused: bool,
    /// The stdout handle of the current child has been handed out.
    pub stdout_taken: bool,
    /// Exit code of the last run, until it is read.
    pub exit_status: Option<i32>,
    /// Time of the last activity, in milliseconds.
    pub last_activity: u64,
    /// Idle time credited on top of what has passed since `last_activity`.
    pub idle_credit: u64,
}

/// A chain without its head; an empty chain stays empty.
pub open spec fn chain_tail(chain: Seq<Profile>) -> Seq<Profile> {
    if chain.len() > 0 {
        chain.skip(1)
    } else {
        chain
    }
}

impl Session {
    /// A session holds a child or the exit code of its last run, never both,
    /// and its progress stays within the range of chunk numbers.
    pub open spec fn wf(self) -> bool {
        &&& self.exit_status is Some ==> !self.running
        &&& self.start_num + self.produced <= u32::MAX
    }

    pub open spec fn spec_current_chunk(self) -> int {
        self.start_num + self.produced
    }

    pub open spec fn spec_raw_speed(self) -> int {
        if self.speed_milli < MIN_SPEED_MILLI {
            MIN_SPEED_MILLI as int
        } else {
            self.speed_milli as int
        }
    }

    /// Milliseconds until `chunk` is expected: the chunks still to produce,
    /// at the nominal duration, divided by the speed.
    pub open spec fn spec_eta_ms(self, chunk: u32) -> int {
        let ahead = if chunk > self.spec_current_chunk() {
            chunk - self.spec_current_chunk()
        } else {
            0
        };
        ahead * CHUNK_MS * 1000 / self.spec_raw_speed()
    }

    /// Idle time at `now`, in milliseconds.
    pub open spec fn idle(self, now: u64) -> int {
        if now >= self.last_activity {
            now - self.last_activity + self.idle_credit
        } else {
            self.idle_credit as int
        }
    }

    pub open spec fn spec_is_timeout(self, now: u64) -> bool {
        self.idle(now) > SOFT_TIMEOUT_MS
    }

    pub open spec fn spec_is_hard_timeout(self, now: u64) -> bool {
        self.idle(now) > HARD_TIMEOUT_MS
    }

    pub open spec fn spec_is_chunk_done(self, chunk: u32, probe: ChunkProbe) -> bool {
        probe.exists && (probe.stable || chunk < self.spec_current_chunk())
    }

    /// The record after a successful spawn at `now`.
    pub open spec fn spawned_at(self, now: u64) -> Session {
        Session {
            running: true,
            paused: false,
            stdout_taken: false,
            exit_status: None,
            last_activity: now,
            idle_credit: 0,
            ..self
        }
    }

    /// The record after `start`, given whether the spawn succeeded.
    pub open spec fn started(self, spawned: bool, now: u64) -> Session {
        if !self.running && spawned && self.profile_chain@.len() > 0 {
            self.spawned_at(now)
        } else {
            self
        }
    }

    pub open spec fn continued(self) -> Session {
        if self.running {
            Session { paused: false, ..self }
        } else {
            self
        }
    }

    pub open spec fn suspended(self) -> Session {
        if self.running {
            Session { paused: true, ..self }
        } else {
            self
        }
    }

    /// The record after the child was terminated with `status`.
    pub open spec fn joined(self, status: Option<i32>) -> Session {
        if self.running {
            Session { running: false, exit_status: status, ..self }
        } else {
            self
        }
    }

    /// The record after a poll of the child that gave `polled`.
    pub open spec fn polled(self, polled: Option<i32>) -> Session {
        if self.running && polled is Some {
            Session { running: false, exit_status: polled, ..self }
        } else {
            self
        }
    }

    pub open spec fn reset(self, chunk: u32) -> Session {
        Session {
            start_num: chunk,
            produced: 0,
            last_served: match self.last_served {
                Some(c) if c >= chunk => None,
                other => other,
            },
            ..self
        }
    }

    pub open spec fn timed_out(self, now: u64) -> Session {
        Session { last_activity: now, idle_credit: (SOFT_TIMEOUT_MS + 1) as u64, ..self }
    }

    pub open spec fn touched(self, chunk: u32, now: u64) -> Session {
        Session { last_activity: now, idle_credit: 0, last_served: Some(chunk), ..self }
    }

    /// The record after the transcoder reported `produced` chunks at `speed_milli`.
    pub open spec fn progressed(self, produced: u32, speed_milli: u64) -> Session {
        Session {
            produced: if self.start_num + produced <= u32::MAX {
                produced
            } else {
                (u32::MAX - self.start_num) as u32
            },
            speed_milli,
            ..self
        }
    }

    /// Everything but the profile chain is the same in `self` and `other`.
    pub open spec fn same_but_chain(self, other: Session) -> bool {
        other == (Session { profile_chain: other.profile_chain, ..self })
    }

    /// Pure construction: nothing is started.
    pub fn new(id: String, profile_chain: Vec<Profile>, profile_ctx: ProfileContext, is_direct_play: bool) -> (s: Session)
        ensures
            s.wf(),
            s.id == id,
            s.profile_chain == profile_chain,
            s.profile_ctx == profile_ctx,
            s.is_direct_play == is_direct_play,
            s.start_num == 0,
            s.produced == 0,
            s.speed_milli == 1000,
            s.real_segment == 0,
            s.chunks_since_init == 0,
            s.last_served is None,
            !s.running,
            !s.paused,
            !s.stdout_taken,
            s.exit_status is None,
            s.last_activity == 0,
            s.idle_credit == 0,
    {
        Session {
            id,
            profile_chain,
            profile_ctx,
            is_direct_play,
            start_num: 0,
            produced: 0,
            speed_milli: 1000,
            real_segment: 0,
            chunks_since_init: 0,
            last_served: None,
            running: false,
            paused: false,
            stdout_taken: false,
            exit_status: None,
            last_activity: 0,
            idle_credit: 0,
        }
    }

    pub fn has_started(&self) -> (r: bool)
        ensures
            r == self.running,
    {
        self.running
    }

    pub fn start_num(&self) -> (r: u32)
        ensures
            r == self.start_num,
    {
        self.start_num
    }

    /// The latest chunk the transcoder has produced. It never lies before
    /// the chunk at which the run began.
    pub fn current_chunk(&self) -> (r: u32)
        requires
            self.wf(),
        ensures
            r == self.spec_current_chunk(),
            r >= self.start_num,
    {
        self.start_num + self.produced
    }

    /// The reported speed in thousandths, held at or above [`MIN_SPEED_MILLI`].
    pub fn raw_speed(&self) -> (r: u64)
        ensures
            r == self.spec_raw_speed(),
            r >= MIN_SPEED_MILLI,
    {
        if self.speed_milli < MIN_SPEED_MILLI {
            MIN_SPEED_MILLI
        } else {
            self.speed_milli
        }
    }

    /// Milliseconds until `chunk` is expected to be ready.
    pub fn eta_for(&self, chunk: u32) -> (r: u64)
        requires
            self.wf(),
        ensures
            r == self.spec_eta_ms(chunk),
    {
        let current: u32 = self.current_chunk();
        let ahead: u64 = if chunk > current {
            (chunk - current) as u64
        } else {
            0
        };
        ahead * CHUNK_MS * 1000 / self.raw_speed()
    }

    /// What to spawn, if the session holds no child: the head profile, at
    /// the offset of `start_num`. `None` while a child is held or when the
    /// chain is empty.
    pub fn spawn_request(&self) -> (r: Option<SpawnRequest>)
        ensures
            r is Some <==> !self.running && self.profile_chain@.len() > 0,
            r is Some ==> r->0.profile@ == self.profile_chain@[0].tag@ && r->0.seek_secs
                == self.start_num * CHUNK_SECS,
    {
        if self.running || self.profile_chain.len() == 0 {
            None
        } else {
            Some(
                SpawnRequest {
                    profile: self.profile_chain[0].tag.clone(),
                    seek_secs: (self.start_num as u64) * CHUNK_SECS,
                },
            )
        }
    }

    /// Records the outcome of spawning the child. A session that already
    /// holds a child is left alone. Otherwise `spawned` says whether the
    /// child came up; with an empty chain nothing can be spawned.
    pub fn start(&mut self, spawned: bool, now: u64) -> (r: Result<(), NightfallError>)
        requires
            old(self).wf(),
        ensures
            final(self).wf(),
            *final(self) == old(self).started(spawned, now),
            r is Ok <==> old(self).running || (spawned && old(self).profile_chain@.len() > 0),
            r is Err ==> r->Err_0 is Aborted,
    {
        if self.running {
            return Ok(());
        }
        if !spawned || self.profile_chain.len() == 0 {
            return Err(NightfallError::Aborted);
        }
        self.running = true;
        self.paused = false;
        self.stdout_taken = false;
        self.exit_status = None;
        self.last_activity = now;
        self.idle_credit = 0;
        Ok(())
    }

    /// Resumes the child. Returns whether there is a child to signal.
    pub fn cont(&mut self) -> (r: bool)
        ensures
            *final(self) == old(self).continued(),
            r == old(self).running,
    {
        if self.running {
            self.paused = false;
        }
        self.running
    }

    /// Suspends the child. Returns whether there is a child to signal.
    pub fn pause(&mut self) -> (r: bool)
        ensures
            *final(self) == old(self).suspended(),
            r == old(self).running,
    {
        if self.running {
            self.paused = true;
        }
        self.running
    }

    /// Records that the child was terminated and waited for, with the exit
    /// code that the wait gave. Afterwards no child is held.
    pub fn join(&mut self, status: Option<i32>)
        requires
            old(self).wf(),
        ensures
            final(self).wf(),
            *final(self) == old(self).joined(status),
            !final(self).running,
    {
        if self.running {
            self.running = false;
            self.exit_status = status;
        }
    }

    /// Records a poll of the child: `polled` is its exit code if it has
    /// exited. Returns true iff a child was held and has exited; its exit
    /// code is then latched and the child is let go.
    pub fn try_wait(&mut self, polled: Option<i32>) -> (r: bool)
        requires
            old(self).wf(),
        ensures
            final(self).wf(),
            *final(self) == old(self).polled(polled),
            r == (old(self).running && polled is Some),
    {
        if self.running && polled.is_some() {
            self.running = false;
            self.exit_status = polled;
            true
        } else {
            false
        }
    }

    /// Moves the session to `chunk`: the next run begins there and has
    /// produced nothing yet. The sequence counter is kept.
    pub fn reset_to(&mut self, chunk: u32)
        requires
            old(self).wf(),
            !old(self).running,
        ensures
            final(self).wf(),
            *final(self) == old(self).reset(chunk),
            final(self).start_num == chunk,
            final(self).real_segment == old(self).real_segment,
    {
        self.start_num = chunk;
        self.produced = 0;
        let keep = match self.last_served {
            Some(c) => c < chunk,
            None => true,
        };
        if !keep {
            self.last_served = None;
        }
    }

    /// Drops the head of the chain. Returns the tag of the new head, or
    /// `None` when no profile is left.
    pub fn next_profile(&mut self) -> (r: Option<String>)
        ensures
            old(self).same_but_chain(*final(self)),
            final(self).profile_chain@ == chain_tail(old(self).profile_chain@),
            final(self).wf() == old(self).wf(),
            r is Some <==> old(self).profile_chain@.len() > 1,
            r is Some ==> r->0@ == old(self).profile_chain@[1].tag@,
    {
        if self.profile_chain.len() > 0 {
            let _ = self.profile_chain.remove(0);
            assert(self.profile_chain@ =~= old(self).profile_chain@.skip(1));
        }
        if self.profile_chain.len() > 0 {
            Some(self.profile_chain[0].tag.clone())
        } else {
            None
        }
    }

    /// A chunk is done when its file exists and is stable: its size has
    /// stopped changing, or the transcoder has moved past it.
    pub fn is_chunk_done(&self, chunk: u32, probe: ChunkProbe) -> (r: bool)
        requires
            self.wf(),
        ensures
            r == self.spec_is_chunk_done(chunk, probe),
    {
        probe.exists && (probe.stable || chunk < self.current_chunk())
    }

    /// `<outdir>/<n>.m4s`.
    pub fn chunk_to_path(&self, n: u32) -> (r: String)
        ensures
            r@ == joined(self.profile_ctx.outdir@, chunk_name(n as nat)),
    {
        let name = chunk_file_name(n);
        join(&self.profile_ctx.outdir, name.as_str())
    }

    /// `<outdir>/init.mp4`.
    pub fn init_seg(&self) -> (r: String)
        ensures
            r@ == joined(self.profile_ctx.outdir@, init_name()),
    {
        join(&self.profile_ctx.outdir, init_file_name())
    }

    /// `<outdir>/<name>.vtt` where the caller found that file, else `None`.
    pub fn subtitle(&self, name: &str, exists: bool) -> (r: Option<String>)
        ensures
            r is Some <==> exists,
            exists ==> r->0@ == joined(self.profile_ctx.outdir@, subtitle_name(name@)),
    {
        if exists {
            let file = subtitle_file_name(name);
            Some(join(&self.profile_ctx.outdir, file.as_str()))
        } else {
            None
        }
    }

    /// `<outdir>/stderr.log`, where the child's stderr is kept.
    pub fn stderr_log(&self) -> (r: String)
        ensures
            r@ == joined(self.profile_ctx.outdir@, crate::paths::stderr_name()),
    {
        join(&self.profile_ctx.outdir, crate::paths::stderr_file_name())
    }

    /// Hands out the child's stdout once: true for the first call after a
    /// spawn, false while no child is held or after the handle was taken.
    pub fn take_stdout(&mut self) -> (r: bool)
        ensures
            r == (old(self).running && !old(self).stdout_taken),
            *final(self) == (Session { stdout_taken: old(self).stdout_taken || old(self).running, ..*old(self) }),
    {
        if self.running && !self.stdout_taken {
            self.stdout_taken = true;
            true
        } else {
            false
        }
    }

    pub fn is_timeout(&self, now: u64) -> (r: bool)
        ensures
            r == self.spec_is_timeout(now),
    {
        self.idle_exceeds(now, SOFT_TIMEOUT_MS)
    }

    pub fn is_hard_timeout(&self, now: u64) -> (r: bool)
        ensures
            r == self.spec_is_hard_timeout(now),
    {
        self.idle_exceeds(now, HARD_TIMEOUT_MS)
    }

    fn idle_exceeds(&self, now: u64, limit: u64) -> (r: bool)
        ensures
            r == (self.idle(now) > limit),
    {
        let passed: u64 = if now >= self.last_activity {
            now - self.last_activity
        } else {
            0
        };
        self.idle_credit > limit || passed > limit - self.idle_credit
    }

    /// Marks the session as timed out from `now` on: the soft timeout has
    /// passed, the hard timeout runs on from there.
    pub fn set_timeout(&mut self, now: u64)
        ensures
            *final(self) == old(self).timed_out(now),
            final(self).spec_is_timeout(now),
    {
        self.last_activity = now;
        self.idle_credit = SOFT_TIMEOUT_MS + 1;
    }

    /// Marks activity at `now`, for the delivery of `chunk`.
    pub fn reset_timeout(&mut self, chunk: u32, now: u64)
        ensures
            *final(self) == old(self).touched(chunk, now),
            !final(self).spec_is_timeout(now),
    {
        self.last_activity = now;
        self.idle_credit = 0;
        self.last_served = Some(chunk);
    }

    /// Records what the transcoder reported: the chunks its run has
    /// completed and its speed in thousandths of real time.
    pub fn record_progress(&mut self, produced: u32, speed_milli: u64)
        requires
            old(self).wf(),
        ensures
            final(self).wf(),
            *final(self) == old(self).progressed(produced, speed_milli),
    {
        let room: u32 = u32::MAX - self.start_num;
        self.produced = if produced <= room {
            produced
        } else {
            room
        };
        self.speed_milli = speed_milli;
    }
}

/// While a child is or has been running, the current chunk is never before
/// the chunk at which the run began.
pub proof fn lemma_start_num_le_current_chunk(s: Session)
    requires
        s.wf(),
    ensures
        s.start_num <= s.spec_current_chunk(),
{
}

/// Resuming twice is resuming once, and so is suspending.
pub proof fn lemma_cont_pause_idempotent(s: Session)
    ensures
        s.continued().continued() == s.continued(),
        s.suspended().suspended() == s.suspended(),
{
}

} // verus!
