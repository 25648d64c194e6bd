//! The session manager: every live session, the seek statistics of each
//! stream, and the diagnostics of sessions that were reaped.

use vstd::prelude::*;
use vstd::hash_map::StringHashMap;
use vstd::string::*;
use crate::error::NightfallError;
use crate::patch::{movie_end, patch_init_segment, patch_segment, repaired, sequence_offset, stamped};
use crate::paths::{chunk_name, init_name, joined, subtitle_name, join};
use crate::profile::{chain_is_direct_play, is_direct_play, Profile, ProfileContext};
use crate::session::{ChunkProbe, Session, SpawnRequest};

verus! {

/// Window after a hard seek in which a far jump ahead seeks again, in milliseconds.
pub const SEEK_DEBOUNCE_MS: u64 = 15_000;

/// How many chunks ahead of the transcoder a request may lie before it counts as a jump.
pub const SEEK_HORIZON: u32 = 15;

/// Wait that a request tolerates at normal speed, in milliseconds.
pub const ETA_BUDGET_MS: u64 = 10_000;

/// Least tolerated wait when a chunk is requested, in milliseconds.
pub const REQUEST_ETA_FLOOR_MS: u64 = 8_000;

/// Least tolerated wait when a client asks whether to seek, in milliseconds.
pub const HINT_ETA_FLOOR_MS: u64 = 5_000;

/// Where and when a stream was last restarted at a new offset.
#[derive(Debug, Clone, Copy)]
pub struct StreamStat {
    pub hard_seeked_at: u32,
    /// Time of the last hard seek, in milliseconds.
    pub last_hard_seek: u64,
}

impl StreamStat {
    /// The statistics of a stream that is looked at for the first time at `now`.
    pub fn starting_at(now: u64) -> (r: StreamStat)
        ensures
            r == (StreamStat { hard_seeked_at: 0, last_hard_seek: now }),
    {
        StreamStat { hard_seeked_at: 0, last_hard_seek: now }
    }
}


/// What the caller does after asking for the init segment.
#[derive(Debug, Clone, Copy)]
pub enum InitStep {
    /// The chunk is done: nothing to do before the init segment is handed out.
    Ready,
    /// The run already begins at the chunk: the child, if `signal`, is resumed.
    Resume { signal: bool },
    /// The run begins elsewhere: a hard seek to the chunk is due.
    Restart,
}

/// The files and the counter that patching one segment works on.
#[derive(Debug, Clone)]
pub struct PatchJob {
    /// Path of the media segment.
    pub segment: String,
    /// Path of the init segment.
    pub init: String,
    /// Sequence number of the segment patched last.
    pub real_segment: u32,
    /// Whether a partial segment is to be repaired from the init segment.
    pub repair_from_init: bool,
}

impl PatchJob {
    /// The job patches the segment as it is.
    pub open spec fn patches_directly(self, segment: Seq<u8>) -> bool {
        sequence_offset(segment) is Some && self.real_segment < u32::MAX
    }

    /// The job patches the segment after a repair from the init segment.
    pub open spec fn patches_after_repair(self, init: Seq<u8>, segment: Seq<u8>) -> bool {
        &&& sequence_offset(segment) is None
        &&& self.repair_from_init
        &&& movie_end(init) is Some
        &&& sequence_offset(repaired(init, segment)) is Some
        &&& self.real_segment < u32::MAX
    }

    /// Patches the bytes of the segment, given the bytes of the init
    /// segment, and says whether the segment was patched. A complete
    /// fragment gets the next sequence number. A partial one is first
    /// repaired from the init segment, if the job says so. Whatever cannot
    /// be patched is left as it was.
    pub fn apply(&self, init: &mut Vec<u8>, segment: &mut Vec<u8>) -> (patched: bool)
        requires
            old(init)@.len() + old(segment)@.len() <= usize::MAX,
        ensures
            patched == (self.patches_directly(old(segment)@) || self.patches_after_repair(
                old(init)@,
                old(segment)@,
            )),
            !patched ==> final(init)@ == old(init)@ && final(segment)@ == old(segment)@,
            self.patches_directly(old(segment)@) ==> final(init)@ == old(init)@ && stamped(
                old(segment)@,
                final(segment)@,
                sequence_offset(old(segment)@)->0,
                (self.real_segment + 1) as u32,
            ),
            self.patches_after_repair(old(init)@, old(segment)@) ==> {
                let whole = repaired(old(init)@, old(segment)@);
                &&& final(init)@ == old(init)@.subrange(0, movie_end(old(init)@)->0)
                &&& stamped(
                    whole,
                    final(segment)@,
                    sequence_offset(whole)->0,
                    (self.real_segment + 1) as u32,
                )
            },
    {
        match patch_segment(segment, self.real_segment) {
            Ok(_) => true,
            Err(err) => {
                if self.wants_init_repair(&err) {
                    patch_init_segment(init, segment, self.real_segment).is_ok()
                } else {
                    false
                }
            },
        }
    }

    /// After the segment patcher failed with `err`: whether the payload is
    /// to be moved out of the init segment. That is so for a partial
    /// segment once a chunk has been served since the init segment.
    pub fn wants_init_repair(&self, err: &NightfallError) -> (r: bool)
        ensures
            r == (err.is_partial() && self.repair_from_init),
    {
        err.partial() && self.repair_from_init
    }
}

/// What the caller does after asking for a media chunk.
#[derive(Debug, Clone)]
pub enum ChunkStep {
    /// The chunk is not done. The child, if `resume`, is resumed; if
    /// `hard_seek`, it is then restarted at the chunk.
    Wait { resume: bool, hard_seek: bool },
    /// The chunk is done and lies at `path`. The child, if `resume`, is
    /// resumed; the segment is patched if there is a job.
    Serve { path: String, resume: bool, patch: Option<PatchJob> },
}

/// What the caller saw of one session before a collection.
#[derive(Debug, Clone)]
pub struct Observation {
    /// The exit code of the child, if it has exited.
    pub exited: Option<i32>,
    /// What the child has written to stderr.
    pub stderr: String,
}

/// What a collection leaves for the caller to do.
pub struct Collected {
    /// The sessions that were removed: their children are to be terminated
    /// and their directories deleted.
    pub reaped: Vec<Session>,
    /// The ids of the sessions whose children are to be suspended.
    pub paused: Vec<String>,
}

/// The wait that is tolerated before a restart, in milliseconds: the
/// budget divided by the speed, but no less than `floor_ms`.
pub open spec fn eta_tolerance(s: Session, floor_ms: u64) -> int {
    let by_speed = ETA_BUDGET_MS * 1000 / s.spec_raw_speed();
    if by_speed > floor_ms {
        by_speed
    } else {
        floor_ms as int
    }
}

/// The request lies more than the horizon ahead while the last hard seek is recent.
pub open spec fn jumps_ahead(s: Session, stat: StreamStat, chunk: u32, now: u64) -> bool {
    chunk > s.spec_current_chunk() + SEEK_HORIZON && now < stat.last_hard_seek + SEEK_DEBOUNCE_MS
}

/// Whether a request for a chunk that is not done calls for a restart there.
pub open spec fn request_wants_seek(s: Session, stat: StreamStat, chunk: u32, now: u64) -> bool {
    ||| chunk < s.start_num
    ||| (jumps_ahead(s, stat, chunk, now) && chunk > stat.hard_seeked_at)
    ||| s.spec_eta_ms(chunk) > eta_tolerance(s, REQUEST_ETA_FLOOR_MS)
}

/// Whether a client is told that asking for `chunk` would restart the stream.
pub open spec fn hint_wants_seek(s: Session, stat: StreamStat, chunk: u32, now: u64) -> bool {
    if !s.running || s.is_direct_play {
        false
    } else if chunk < s.start_num {
        true
    } else if jumps_ahead(s, stat, chunk, now) {
        true
    } else {
        s.spec_eta_ms(chunk) > eta_tolerance(s, HINT_ETA_FLOOR_MS)
    }
}

/// A done chunk is close enough to the transcoder that it should keep running.
pub open spec fn keeps_ahead(s: Session, chunk: u32) -> bool {
    chunk + 2 >= s.spec_current_chunk()
}

/// Whether the segment of `chunk` is patched when it is served: never for
/// direct play, and once per file.
pub open spec fn patch_due(s: Session, chunk: u32) -> bool {
    !s.is_direct_play && s.last_served != Some(chunk) && s.real_segment < u32::MAX
}

/// The session after a request for `chunk`.
pub open spec fn requested(s: Session, chunk: u32, probe: ChunkProbe) -> Session {
    if !s.spec_is_chunk_done(chunk, probe) || keeps_ahead(s, chunk) {
        s.continued()
    } else {
        s
    }
}

/// The session after `chunk` was served at `now`; `patched` says whether
/// its segment was patched.
pub open spec fn delivered(s: Session, chunk: u32, patched: bool, now: u64) -> Session {
    if s.last_served == Some(chunk) {
        s.touched(chunk, now)
    } else {
        (Session {
            real_segment: if patched && patch_due(s, chunk) {
                (s.real_segment + 1) as u32
            } else {
                s.real_segment
            },
            chunks_since_init: if s.chunks_since_init < u32::MAX {
                (s.chunks_since_init + 1) as u32
            } else {
                s.chunks_since_init
            },
            ..s
        }).touched(chunk, now)
    }
}

/// `step` is the answer to a request for `chunk` on session `s`.
pub open spec fn request_step(
    s: Session,
    st: StreamStat,
    chunk: u32,
    probe: ChunkProbe,
    now: u64,
    step: ChunkStep,
) -> bool {
    match step {
        ChunkStep::Wait { resume, hard_seek } => {
            &&& !s.spec_is_chunk_done(chunk, probe)
            &&& resume == s.running
            &&& hard_seek == (request_wants_seek(s, st, chunk, now) && !s.is_direct_play)
        },
        ChunkStep::Serve { path, resume, patch } => {
            &&& s.spec_is_chunk_done(chunk, probe)
            &&& path@ == joined(s.profile_ctx.outdir@, chunk_name(chunk as nat))
            &&& resume == (keeps_ahead(s, chunk) && s.running)
            &&& patch is Some <==> patch_due(s, chunk)
            &&& patch is Some ==> {
                &&& patch->0.segment@ == path@
                &&& patch->0.init@ == joined(s.profile_ctx.outdir@, init_name())
                &&& patch->0.real_segment == s.real_segment
                &&& patch->0.repair_from_init == (s.chunks_since_init >= 1)
            }
        },
    }
}


/// The last run of the session ended in failure and nobody has reacted yet.
pub open spec fn has_failed(s: Session) -> bool {
    s.exit_status is Some && s.exit_status->0 != 0
}

/// `post` is `pre` after its exit code was read and, if the run had
/// failed, the next profile was taken.
pub open spec fn recovered(pre: Session, post: Session) -> bool {
    let cleared = Session { exit_status: None, ..pre };
    if has_failed(pre) {
        &&& post.profile_chain@ == crate::session::chain_tail(pre.profile_chain@)
        &&& post == (Session {
            profile_chain: post.profile_chain,
            ..(if pre.profile_chain@.len() > 1 {
                cleared.reset(pre.start_num)
            } else {
                cleared
            })
        })
    } else {
        post == cleared
    }
}

/// The session as a collection sees it: after the poll of its child.
pub open spec fn gc_polled(s: Session, o: Observation) -> Session {
    s.polled(o.exited)
}

/// A collection removes the sessions that are past the hard timeout,
/// unless they are direct play.
pub open spec fn gc_reaps(s: Session, o: Observation, now: u64) -> bool {
    gc_polled(s, o).spec_is_hard_timeout(now) && !s.is_direct_play
}

/// A collection suspends the sessions it keeps that are past the soft
/// timeout and hold a child that runs, unless they are direct play.
pub open spec fn gc_pauses(s: Session, o: Observation, now: u64) -> bool {
    let p = gc_polled(s, o);
    !gc_reaps(s, o, now) && p.spec_is_timeout(now) && !p.paused && p.running && !p.is_direct_play
}

/// A kept session after the collection.
pub open spec fn gc_keeps(s: Session, o: Observation, now: u64) -> Session {
    if gc_pauses(s, o, now) {
        gc_polled(s, o).suspended()
    } else {
        gc_polled(s, o)
    }
}

/// The sessions that a collection keeps of the first `n`, in order.
pub open spec fn gc_kept(ss: Seq<Session>, obs: Seq<Observation>, now: u64, n: nat) -> Seq<Session>
    decreases n,
{
    if n == 0 {
        Seq::empty()
    } else {
        let before = gc_kept(ss, obs, now, (n - 1) as nat);
        if gc_reaps(ss[n - 1], obs[n - 1], now) {
            before
        } else {
            before.push(gc_keeps(ss[n - 1], obs[n - 1], now))
        }
    }
}

/// The sessions that a collection removes of the first `n`, in order.
pub open spec fn gc_reaped(ss: Seq<Session>, obs: Seq<Observation>, now: u64, n: nat) -> Seq<Session>
    decreases n,
{
    if n == 0 {
        Seq::empty()
    } else {
        let before = gc_reaped(ss, obs, now, (n - 1) as nat);
        if gc_reaps(ss[n - 1], obs[n - 1], now) {
            before.push(gc_polled(ss[n - 1], obs[n - 1]))
        } else {
            before
        }
    }
}

/// The ids of the sessions that a collection suspends of the first `n`, in order.
pub open spec fn gc_paused(ss: Seq<Session>, obs: Seq<Observation>, now: u64, n: nat) -> Seq<Seq<char>>
    decreases n,
{
    if n == 0 {
        Seq::empty()
    } else {
        let before = gc_paused(ss, obs, now, (n - 1) as nat);
        if gc_pauses(ss[n - 1], obs[n - 1], now) {
            before.push(ss[n - 1].id@)
        } else {
            before
        }
    }
}

/// The diagnostics on record after a collection over the first `n`
/// sessions: the stderr text of each removed session is filed under its id.
pub open spec fn gc_statuses(
    m: Map<Seq<char>, String>,
    ss: Seq<Session>,
    obs: Seq<Observation>,
    now: u64,
    n: nat,
) -> Map<Seq<char>, String>
    decreases n,
{
    if n == 0 {
        m
    } else {
        let before = gc_statuses(m, ss, obs, now, (n - 1) as nat);
        if gc_reaps(ss[n - 1], obs[n - 1], now) {
            before.insert(ss[n - 1].id@, obs[n - 1].stderr)
        } else {
            before
        }
    }
}

/// The seek statistics after a collection over the first `n` sessions:
/// those of each removed session are dropped.
pub open spec fn gc_stats(
    m: Map<Seq<char>, StreamStat>,
    ss: Seq<Session>,
    obs: Seq<Observation>,
    now: u64,
    n: nat,
) -> Map<Seq<char>, StreamStat>
    decreases n,
{
    if n == 0 {
        m
    } else {
        let before = gc_stats(m, ss, obs, now, (n - 1) as nat);
        if gc_reaps(ss[n - 1], obs[n - 1], now) {
            before.remove(ss[n - 1].id@)
        } else {
            before
        }
    }
}

/// A session as `create` makes it.
pub open spec fn is_fresh_session(
    s: Session,
    id: Seq<char>,
    chain: Vec<Profile>,
    ctx: ProfileContext,
    outdir: Seq<char>,
    ffmpeg: Seq<char>,
) -> bool {
    &&& s.wf()
    &&& s.id@ == id
    &&& s.profile_chain == chain
    &&& s.profile_ctx.outdir@ == joined(outdir, id)
    &&& s.profile_ctx.ffmpeg_bin@ == ffmpeg
    &&& s.profile_ctx.file == ctx.file
    &&& s.profile_ctx.stream == ctx.stream
    &&& s.profile_ctx.width == ctx.width
    &&& s.profile_ctx.height == ctx.height
    &&& s.profile_ctx.bitrate == ctx.bitrate
    &&& s.is_direct_play == chain_is_direct_play(chain@)
    &&& s.start_num == 0
    &&& s.produced == 0
    &&& s.speed_milli == 1000
    &&& s.real_segment == 0
    &&& s.chunks_since_init == 0
    &&& s.last_served is None
    &&& !s.running
    &&& !s.paused
    &&& !s.stdout_taken
    &&& s.exit_status is None
    &&& s.last_activity == 0
    &&& s.idle_credit == 0
}

/// A session id as the `uuid` crate writes a random UUID in hyphenated
/// form (`Uuid::new_v4().to_hyphenated().to_string()`): 36 characters with
/// a hyphen after the 8th, 12th, 16th and 20th hexadecimal digit. Which
/// id comes is left open. The call panics if the system has no source of
/// randomness.
#[verifier::external_body]
fn fresh_id() -> (id: String)
    ensures
        id@.len() == 36,
        id@[8] == '-',
        id@[13] == '-',
        id@[18] == '-',
        id@[23] == '-',
{
    uuid::Uuid::new_v4().to_hyphenated().to_string()
}


fn wants_seek_on_request(s: &Session, stat: StreamStat, chunk: u32, now: u64) -> (r: bool)
    requires
        s.wf(),
    ensures
        r == request_wants_seek(*s, stat, chunk, now),
{
    let jump = is_jump_ahead(s, stat, chunk, now);
    chunk < s.start_num() || (jump && chunk > stat.hard_seeked_at) || s.eta_for(chunk)
        > tolerance(s, REQUEST_ETA_FLOOR_MS)
}

fn is_jump_ahead(s: &Session, stat: StreamStat, chunk: u32, now: u64) -> (r: bool)
    requires
        s.wf(),
    ensures
        r == jumps_ahead(*s, stat, chunk, now),
{
    let current: u32 = s.current_chunk();
    let far: bool = chunk > SEEK_HORIZON && chunk - SEEK_HORIZON > current;
    let recent: bool = now < stat.last_hard_seek || now - stat.last_hard_seek < SEEK_DEBOUNCE_MS;
    far && recent
}

fn tolerance(s: &Session, floor_ms: u64) -> (r: u64)
    ensures
        r == eta_tolerance(*s, floor_ms),
{
    let by_speed: u64 = ETA_BUDGET_MS * 1000 / s.raw_speed();
    if by_speed > floor_ms {
        by_speed
    } else {
        floor_ms
    }
}

pub struct StateManager {
    /// The directory under which each session gets its own.
    pub outdir: String,
    /// Path of the transcoder binary.
    pub ffmpeg: String,
    /// The live sessions, oldest first.
    pub sessions: Vec<Session>,
    /// Seek statistics by session id.
    pub stream_stats: StringHashMap<StreamStat>,
    /// The stderr text of reaped sessions by session id.
    pub exit_statuses: StringHashMap<String>,
}

impl StateManager {
    /// Every session is well formed and no id occurs twice.
    pub open spec fn wf(self) -> bool {
        &&& forall|i: int| 0 <= i < self.sessions@.len() ==> (#[trigger] self.sessions@[i]).wf()
        &&& forall|i: int, j: int|
            0 <= i < j < self.sessions@.len() ==> (#[trigger] self.sessions@[i]).id@ != (
            #[trigger] self.sessions@[j]).id@
    }

    /// A session with this id is live.
    pub open spec fn has(self, id: Seq<char>) -> bool {
        exists|i: int| 0 <= i < self.sessions@.len() && (#[trigger] self.sessions@[i]).id@ == id
    }

    /// Where the session with this id stands in `sessions`.
    pub open spec fn pos(self, id: Seq<char>) -> int {
        choose|i: int| 0 <= i < self.sessions@.len() && (#[trigger] self.sessions@[i]).id@ == id
    }

    /// The session with this id.
    pub open spec fn session(self, id: Seq<char>) -> Session {
        self.sessions@[self.pos(id)]
    }

    /// The seek statistics of a stream at `now`: those on record, or fresh ones.
    pub open spec fn stat(self, id: Seq<char>, now: u64) -> StreamStat {
        if self.stream_stats@.contains_key(id) {
            self.stream_stats@[id]
        } else {
            StreamStat { hard_seeked_at: 0, last_hard_seek: now }
        }
    }

    /// Nothing but the sessions and the seek statistics differs.
    pub open spec fn same_frame(self, post: StateManager) -> bool {
        &&& post.outdir == self.outdir
        &&& post.ffmpeg == self.ffmpeg
        &&& post.exit_statuses@ == self.exit_statuses@
    }

    /// `post` is `self` with the session `id` replaced by `s`.
    pub open spec fn with_session(self, post: StateManager, id: Seq<char>, s: Session) -> bool {
        &&& self.same_frame(post)
        &&& post.sessions@ == self.sessions@.update(self.pos(id), s)
        &&& post.stream_stats@ == self.stream_stats@
    }

    /// `post` is `self` with the session `id` replaced by `s` and its statistics by `stat`.
    pub open spec fn with_session_and_stat(
        self,
        post: StateManager,
        id: Seq<char>,
        s: Session,
        stat: StreamStat,
    ) -> bool {
        &&& self.same_frame(post)
        &&& post.sessions@ == self.sessions@.update(self.pos(id), s)
        &&& post.stream_stats@ == self.stream_stats@.insert(id, stat)
    }

    /// `post` holds what `self` holds.
    pub open spec fn unchanged(self, post: StateManager) -> bool {
        &&& self.same_frame(post)
        &&& post.sessions@ == self.sessions@
        &&& post.stream_stats@ == self.stream_stats@
    }

    /// A manager without sessions.
    pub fn new(outdir: String, ffmpeg: String) -> (m: StateManager)
        ensures
            m.wf(),
            m.outdir == outdir,
            m.ffmpeg == ffmpeg,
            m.sessions@.len() == 0,
            m.stream_stats@ == Map::<Seq<char>, StreamStat>::empty(),
            m.exit_statuses@ == Map::<Seq<char>, String>::empty(),
    {
        StateManager {
            outdir,
            ffmpeg,
            sessions: Vec::new(),
            stream_stats: StringHashMap::new(),
            exit_statuses: StringHashMap::new(),
        }
    }

    /// `post` is `self` with a fresh session under `id`, in the place of
    /// the session that had this id or else behind all others.
    pub open spec fn created(
        self,
        post: StateManager,
        id: Seq<char>,
        chain: Vec<Profile>,
        ctx: ProfileContext,
    ) -> bool {
        let k = if self.has(id) {
            self.pos(id)
        } else {
            self.sessions@.len() as int
        };
        &&& self.same_frame(post)
        &&& post.stream_stats@ == self.stream_stats@
        &&& 0 <= k < post.sessions@.len()
        &&& is_fresh_session(post.sessions@[k], id, chain, ctx, self.outdir@, self.ffmpeg@)
        &&& post.sessions@ == if self.has(id) {
            self.sessions@.update(k, post.sessions@[k])
        } else {
            self.sessions@.push(post.sessions@[k])
        }
    }

    /// Opens a session over `profile_chain` under a fresh id and returns
    /// the id. The session writes into `<outdir>/<id>` and is not started.
    /// An empty chain is refused.
    pub fn create(&mut self, profile_chain: Vec<Profile>, profile_args: ProfileContext) -> (r: Result<
        String,
        NightfallError,
    >)
        requires
            old(self).wf(),
        ensures
            final(self).wf(),
            r is Ok <==> profile_chain@.len() > 0,
            r is Err ==> r->Err_0 is ProfileChainExhausted && old(self).unchanged(*final(self)),
            r is Ok ==> r->Ok_0@.len() == 36 && old(self).created(
                *final(self),
                r->Ok_0@,
                profile_chain,
                profile_args,
            ),
    {
        if profile_chain.len() == 0 {
            return Err(NightfallError::ProfileChainExhausted);
        }
        let session_id = fresh_id();
        self.create_with_id(session_id, profile_chain, profile_args)
    }

    /// Opens a session as [`Self::create`] does, under the id given.
    pub fn create_with_id(
        &mut self,
        session_id: String,
        profile_chain: Vec<Profile>,
        profile_args: ProfileContext,
    ) -> (r: Result<String, NightfallError>)
        requires
            old(self).wf(),
        ensures
            final(self).wf(),
            r is Ok <==> profile_chain@.len() > 0,
            r is Err ==> r->Err_0 is ProfileChainExhausted && old(self).unchanged(*final(self)),
            r is Ok ==> r->Ok_0@ == session_id@ && old(self).created(
                *final(self),
                session_id@,
                profile_chain,
                profile_args,
            ),
    {
        if profile_chain.len() == 0 {
            return Err(NightfallError::ProfileChainExhausted);
        }
        let mut ctx = profile_args;
        ctx.outdir = join(&self.outdir, session_id.as_str());
        ctx.ffmpeg_bin = self.ffmpeg.clone();
        let direct = is_direct_play(&profile_chain);
        let session = Session::new(session_id.clone(), profile_chain, ctx, direct);
        match self.find(&session_id) {
            Some(idx) => {
                self.sessions[idx] = session;
            },
            None => {
                self.sessions.push(session);
            },
        }
        Ok(session_id)
    }

    /// How many sessions a collection looks at: those that `obs` covers.
    pub open spec fn observed(self, obs: Seq<Observation>) -> nat {
        if obs.len() < self.sessions@.len() {
            obs.len()
        } else {
            self.sessions@.len()
        }
    }

    /// `post` is `self` after a collection at `now` that saw `obs`. The
    /// sessions that `obs` does not cover are as they were.
    pub open spec fn collected(self, post: StateManager, obs: Seq<Observation>, now: u64) -> bool {
        let m = self.observed(obs);
        &&& post.outdir == self.outdir
        &&& post.ffmpeg == self.ffmpeg
        &&& post.sessions@ == gc_kept(self.sessions@, obs, now, m) + self.sessions@.skip(m as int)
        &&& post.exit_statuses@ == gc_statuses(self.exit_statuses@, self.sessions@, obs, now, m)
        &&& post.stream_stats@ == gc_stats(self.stream_stats@, self.sessions@, obs, now, m)
        &&& forall|j: int|
            0 <= j < m && gc_reaps(#[trigger] self.sessions@[j], obs[j], now) ==> {
                let id = self.sessions@[j].id@;
                &&& !post.has(id)
                &&& post.exit_statuses@.contains_key(id)
                &&& post.exit_statuses@[id] == obs[j].stderr
            }
    }


    /// Collects garbage at `now`. `observed` holds what the caller saw of
    /// each session, in the order of `sessions`; a session that it does not
    /// reach is left as it is.
    ///
    /// Every child that has exited is let go and its exit code latched.
    /// Every session past the hard timeout, unless direct play, is removed:
    /// its stderr text is filed under its id and its seek statistics are
    /// dropped. Every other session past the soft timeout whose child runs
    /// is suspended, unless direct play.
    pub fn garbage_collect(&mut self, now: u64, observed: &Vec<Observation>) -> (r: Collected)
        requires
            old(self).wf(),
        ensures
            final(self).wf(),
            old(self).collected(*final(self), observed@, now),
            r.reaped@ == gc_reaped(
                old(self).sessions@,
                observed@,
                now,
                old(self).observed(observed@),
            ),
            r.paused@.len() == gc_paused(
                old(self).sessions@,
                observed@,
                now,
                old(self).observed(observed@),
            ).len(),
            forall|k: int|
                0 <= k < r.paused@.len() ==> (#[trigger] r.paused@[k])@ == gc_paused(
                    old(self).sessions@,
                    observed@,
                    now,
                    old(self).observed(observed@),
                )[k],
    {
        let ghost orig = self.sessions@;
        let ghost statuses = self.exit_statuses@;
        let ghost stats = self.stream_stats@;
        let ghost mut src: Seq<int> = Seq::empty();
        let n = if observed.len() < self.sessions.len() {
            observed.len()
        } else {
            self.sessions.len()
        };
        let mut rest: Vec<Session> = Vec::new();
        std::mem::swap(&mut self.sessions, &mut rest);
        let mut reaped: Vec<Session> = Vec::new();
        let mut paused: Vec<String> = Vec::new();
        let mut i: usize = 0;
        assert(rest@ =~= orig.skip(0));
        while i < n
            invariant
                n <= orig.len(),
                n <= observed@.len(),
                i <= n,
                forall|a: int| 0 <= a < orig.len() ==> (#[trigger] orig[a]).wf(),
                forall|a: int, b: int|
                    0 <= a < b < orig.len() ==> (#[trigger] orig[a]).id@ != (#[trigger] orig[b]).id@,
                rest@ == orig.skip(i as int),
                self.outdir == old(self).outdir,
                self.ffmpeg == old(self).ffmpeg,
                self.sessions@ == gc_kept(orig, observed@, now, i as nat),
                reaped@ == gc_reaped(orig, observed@, now, i as nat),
                paused@.len() == gc_paused(orig, observed@, now, i as nat).len(),
                forall|k: int|
                    0 <= k < paused@.len() ==> (#[trigger] paused@[k])@ == gc_paused(
                        orig,
                        observed@,
                        now,
                        i as nat,
                    )[k],
                self.exit_statuses@ == gc_statuses(statuses, orig, observed@, now, i as nat),
                self.stream_stats@ == gc_stats(stats, orig, observed@, now, i as nat),
                src.len() == self.sessions@.len(),
                forall|k: int|
                    0 <= k < src.len() ==> 0 <= (#[trigger] src[k]) < i && self.sessions@[k].id@
                        == orig[src[k]].id@ && !gc_reaps(orig[src[k]], observed@[src[k]], now)
                        && self.sessions@[k].wf(),
                forall|k1: int, k2: int|
                    0 <= k1 < k2 < src.len() ==> (#[trigger] src[k1]) < (#[trigger] src[k2]),
                forall|j: int|
                    0 <= j < i && gc_reaps(#[trigger] orig[j], observed@[j], now) ==> {
                        &&& self.exit_statuses@.contains_key(orig[j].id@)
                        &&& self.exit_statuses@[orig[j].id@] == observed@[j].stderr
                    },
            decreases n - i,
        {
            let mut session = rest.remove(0);
            assert(session == orig[i as int]);
            assert(rest@ =~= orig.skip(i as int + 1));
            let seen = &observed[i];
            let _ = session.try_wait(seen.exited);
            if session.is_hard_timeout(now) && !session.is_direct_play {
                self.exit_statuses.insert(session.id.clone(), seen.stderr.clone());
                self.stream_stats.remove(session.id.as_str());
                reaped.push(session);
                assert forall|j: int|
                    0 <= j < i + 1 && gc_reaps(#[trigger] orig[j], observed@[j], now) implies {
                    &&& self.exit_statuses@.contains_key(orig[j].id@)
                    &&& self.exit_statuses@[orig[j].id@] == observed@[j].stderr
                } by {
                    if j < i {
                        assert(orig[j].id@ != orig[i as int].id@);
                    }
                }
            } else {
                if session.is_timeout(now) && !session.paused && session.has_started()
                    && !session.is_direct_play {
                    let _ = session.pause();
                    paused.push(session.id.clone());
                }
                self.sessions.push(session);
                proof {
                    src = src.push(i as int);
                }
            }
            i += 1;
        }
        let ghost kept = self.sessions@;
        self.sessions.append(&mut rest);
        proof {
            let all = src + Seq::new((orig.len() - n) as nat, |t: int| n + t);
            assert(self.sessions@ == kept + orig.skip(n as int));
            assert forall|k: int| 0 <= k < self.sessions@.len() implies 0 <= (#[trigger] all[k])
                < orig.len() && self.sessions@[k].id@ == orig[all[k]].id@ && self.sessions@[k].wf() && (
            all[k] < n ==> !gc_reaps(orig[all[k]], observed@[all[k]], now)) by {
                if k < kept.len() {
                    assert(all[k] == src[k]);
                    assert(self.sessions@[k] == kept[k]);
                } else {
                    assert(all[k] == n + (k - kept.len()));
                    assert(self.sessions@[k] == orig[all[k]]);
                }
            }
            assert forall|k: int| 0 <= k < self.sessions@.len() implies (
            #[trigger] self.sessions@[k]).wf() by {
                assert(0 <= all[k]);
            }
            assert forall|a: int, b: int| 0 <= a < b < self.sessions@.len() implies (
            #[trigger] self.sessions@[a]).id@ != (#[trigger] self.sessions@[b]).id@ by {
                if b < kept.len() {
                    assert(src[a] < src[b]);
                } else if a < kept.len() {
                    assert(src[a] < n);
                }
                assert(all[a] < all[b]);
                assert(orig[all[a]].id@ != orig[all[b]].id@);
            }
            assert forall|j: int|
                0 <= j < n && gc_reaps(#[trigger] orig[j], observed@[j], now) implies !self.has(
                orig[j].id@,
            ) by {
                assert forall|k: int| 0 <= k < self.sessions@.len() implies (
                #[trigger] self.sessions@[k]).id@ != orig[j].id@ by {
                    let a = all[k];
                    if a < j {
                        assert(orig[a].id@ != orig[j].id@);
                    } else if j < a {
                        assert(orig[j].id@ != orig[a].id@);
                    }
                }
            }
        }
        Collected { reaped, paused }
    }

    /// Looks a session up by its id.
    pub fn find(&self, id: &String) -> (r: Option<usize>)
        requires
            self.wf(),
        ensures
            r is Some <==> self.has(id@),
            r is Some ==> r->0 == self.pos(id@) && r->0 < self.sessions@.len(),
    {
        let mut i: usize = 0;
        while i < self.sessions.len()
            invariant
                self.wf(),
                i <= self.sessions@.len(),
                forall|j: int| 0 <= j < i ==> (#[trigger] self.sessions@[j]).id@ != id@,
            decreases self.sessions@.len() - i,
        {
            if self.sessions[i].id == *id {
                proof {
                    let k = self.pos(id@);
                    assert(self.sessions@[i as int].id@ == id@);
                    assert(0 <= k < self.sessions@.len() && self.sessions@[k].id@ == id@);
                    if k < i {
                        assert(self.sessions@[k].id@ != self.sessions@[i as int].id@);
                    }
                    if i < k {
                        assert(self.sessions@[i as int].id@ != self.sessions@[k].id@);
                    }
                }
                return Some(i);
            }
            i += 1;
        }
        None
    }

    /// Terminates a session and marks it as timed out, so that it is reaped
    /// once the hard timeout has passed as well. `status` is the exit code
    /// that waiting for the child gave.
    pub fn die(&mut self, id: &String, status: Option<i32>, now: u64) -> (r: Result<(), NightfallError>)
        requires
            old(self).wf(),
        ensures
            final(self).wf(),
            r is Ok <==> old(self).has(id@),
            r is Err ==> r->Err_0 is SessionDoesntExist && old(self).unchanged(*final(self)),
            r is Ok ==> old(self).with_session(
                *final(self),
                id@,
                old(self).session(id@).joined(status).timed_out(now),
            ),
    {
        let idx = match self.find(id) {
            Some(idx) => idx,
            None => { return Err(NightfallError::SessionDoesntExist); },
        };
        let session = &mut self.sessions[idx];
        session.join(status);
        session.set_timeout(now);
        Ok(())
    }

    /// The live session with this id.
    pub fn lookup(&self, id: &String) -> (r: Option<&Session>)
        requires
            self.wf(),
        ensures
            r is Some <==> self.has(id@),
            r is Some ==> *r->0 == self.session(id@),
    {
        match self.find(id) {
            Some(idx) => Some(&self.sessions[idx]),
            None => None,
        }
    }

    /// The seek statistics on record for this id.
    pub fn stat_of(&self, id: &String) -> (r: Option<StreamStat>)
        ensures
            r is Some <==> self.stream_stats@.contains_key(id@),
            r is Some ==> r->0 == self.stream_stats@[id@],
    {
        match self.stream_stats.get(id.as_str()) {
            Some(st) => Some(*st),
            None => None,
        }
    }

    /// The stderr text on record for a reaped session.
    pub fn stderr_of(&self, id: &String) -> (r: Option<&String>)
        ensures
            r is Some <==> self.exit_statuses@.contains_key(id@),
            r is Some ==> *r->0 == self.exit_statuses@[id@],
    {
        self.exit_statuses.get(id.as_str())
    }


    /// Reads the seek statistics of a stream, putting fresh ones on record
    /// where there are none.
    fn stat_entry(&mut self, id: &String, now: u64) -> (st: StreamStat)
        ensures
            st == old(self).stat(id@, now),
            old(self).same_frame(*final(self)),
            final(self).sessions == old(self).sessions,
            final(self).stream_stats@ == old(self).stream_stats@.insert(id@, st),
    {
        let found = match self.stream_stats.get(id.as_str()) {
            Some(st) => Some(*st),
            None => None,
        };
        match found {
            Some(st) => {
                assert(self.stream_stats@ =~= old(self).stream_stats@.insert(id@, st));
                st
            },
            None => {
                let st = StreamStat::starting_at(now);
                self.stream_stats.insert(id.clone(), st);
                st
            },
        }
    }

    /// What to spawn before `start`, if anything: see [`Session::spawn_request`].
    pub fn spawn_request(&self, id: &String) -> (r: Result<Option<SpawnRequest>, NightfallError>)
        requires
            self.wf(),
        ensures
            r is Ok <==> self.has(id@),
            r is Err ==> r->Err_0 is SessionDoesntExist,
            r is Ok ==> {
                let s = self.session(id@);
                let req = r->Ok_0;
                &&& req is Some <==> !s.running && s.profile_chain@.len() > 0
                &&& req is Some ==> req->0.profile@ == s.profile_chain@[0].tag@ && req->0.seek_secs
                    == s.start_num * crate::session::CHUNK_SECS
            },
    {
        match self.find(id) {
            Some(idx) => Ok(self.sessions[idx].spawn_request()),
            None => Err(NightfallError::SessionDoesntExist),
        }
    }

    /// Starts a session: `spawned` says whether the child came up.
    pub fn start(&mut self, id: &String, spawned: bool, now: u64) -> (r: Result<(), NightfallError>)
        requires
            old(self).wf(),
        ensures
            final(self).wf(),
            !old(self).has(id@) ==> r is Err && r->Err_0 is SessionDoesntExist && old(self).unchanged(
                *final(self),
            ),
            old(self).has(id@) ==> {
                let s = old(self).session(id@);
                &&& old(self).with_session(*final(self), id@, s.started(spawned, now))
                &&& r is Ok <==> s.running || (spawned && s.profile_chain@.len() > 0)
                &&& r is Err ==> r->Err_0 is Aborted
            },
    {
        let idx = match self.find(id) {
            Some(idx) => idx,
            None => { return Err(NightfallError::SessionDoesntExist); },
        };
        let session = &mut self.sessions[idx];
        match session.start(spawned, now) {
            Ok(()) => Ok(()),
            Err(_) => Err(NightfallError::Aborted),
        }
    }

    /// Records what the transcoder of a session reported.
    pub fn record_progress(&mut self, id: &String, produced: u32, speed_milli: u64) -> (r: Result<
        (),
        NightfallError,
    >)
        requires
            old(self).wf(),
        ensures
            final(self).wf(),
            r is Ok <==> old(self).has(id@),
            r is Err ==> r->Err_0 is SessionDoesntExist && old(self).unchanged(*final(self)),
            r is Ok ==> old(self).with_session(
                *final(self),
                id@,
                old(self).session(id@).progressed(produced, speed_milli),
            ),
    {
        let idx = match self.find(id) {
            Some(idx) => idx,
            None => { return Err(NightfallError::SessionDoesntExist); },
        };
        let session = &mut self.sessions[idx];
        session.record_progress(produced, speed_milli);
        Ok(())
    }

    /// Reads the exit code of the last run. If that run failed, the next
    /// profile of the chain takes over from the chunk at which the run
    /// began: the result is that chunk, from which the partial output is to
    /// be wiped. Without a profile left the chain is exhausted.
    pub fn recover_profile(&mut self, id: &String) -> (r: Result<Option<u32>, NightfallError>)
        requires
            old(self).wf(),
        ensures
            final(self).wf(),
            !old(self).has(id@) ==> r is Err && r->Err_0 is SessionDoesntExist && old(self).unchanged(
                *final(self),
            ),
            old(self).has(id@) ==> {
                let s = old(self).session(id@);
                let t = final(self).sessions@[old(self).pos(id@)];
                &&& old(self).with_session(*final(self), id@, t)
                &&& recovered(s, t)
                &&& r is Ok <==> !has_failed(s) || s.profile_chain@.len() > 1
                &&& r is Err ==> r->Err_0 is ProfileChainExhausted
                &&& r is Ok ==> r->Ok_0 == (if has_failed(s) {
                    Some(s.start_num)
                } else {
                    None
                })
            },
    {
        let idx = match self.find(id) {
            Some(idx) => idx,
            None => { return Err(NightfallError::SessionDoesntExist); },
        };
        let session = &mut self.sessions[idx];
        let status = session.exit_status;
        session.exit_status = None;
        match status {
            Some(code) => {
                if code != 0 {
                    match session.next_profile() {
                        Some(_) => {
                            let from: u32 = session.start_num();
                            session.reset_to(from);
                            Ok(Some(from))
                        },
                        None => Err(NightfallError::ProfileChainExhausted),
                    }
                } else {
                    Ok(None)
                }
            },
            None => Ok(None),
        }
    }

    /// Decides what an init-segment request for `chunk` sets in motion,
    /// given what the caller saw of the chunk's file. A chunk that is done
    /// needs nothing. Otherwise a run that begins elsewhere is restarted at
    /// the chunk, and one that begins there is resumed.
    pub fn chunk_init_request(&mut self, id: &String, chunk: u32, probe: ChunkProbe) -> (r: Result<
        InitStep,
        NightfallError,
    >)
        requires
            old(self).wf(),
        ensures
            final(self).wf(),
            r is Ok <==> old(self).has(id@),
            r is Err ==> r->Err_0 is SessionDoesntExist && old(self).unchanged(*final(self)),
            r is Ok ==> {
                let s = old(self).session(id@);
                if s.spec_is_chunk_done(chunk, probe) {
                    r->Ok_0 is Ready && old(self).unchanged(*final(self))
                } else if s.start_num != chunk {
                    r->Ok_0 is Restart && old(self).unchanged(*final(self))
                } else {
                    &&& r->Ok_0 == (InitStep::Resume { signal: s.running })
                    &&& old(self).with_session(*final(self), id@, s.continued())
                }
            },
    {
        let idx = match self.find(id) {
            Some(idx) => idx,
            None => { return Err(NightfallError::SessionDoesntExist); },
        };
        if self.sessions[idx].is_chunk_done(chunk, probe) {
            return Ok(InitStep::Ready);
        }
        if self.sessions[idx].start_num() != chunk {
            return Ok(InitStep::Restart);
        }
        let session = &mut self.sessions[idx];
        let signal = session.cont();
        Ok(InitStep::Resume { signal })
    }

    /// Records a hard seek: the child was terminated with `status` and the
    /// session moves to `chunk`, where the next run is to begin. The seek
    /// is put on record in the stream's statistics.
    pub fn seek_to(&mut self, id: &String, chunk: u32, status: Option<i32>, now: u64) -> (r: Result<
        (),
        NightfallError,
    >)
        requires
            old(self).wf(),
        ensures
            final(self).wf(),
            r is Ok <==> old(self).has(id@),
            r is Err ==> r->Err_0 is SessionDoesntExist && old(self).unchanged(*final(self)),
            r is Ok ==> old(self).with_session_and_stat(
                *final(self),
                id@,
                old(self).session(id@).joined(status).reset(chunk),
                StreamStat { hard_seeked_at: chunk, last_hard_seek: now },
            ),
    {
        let idx = match self.find(id) {
            Some(idx) => idx,
            None => { return Err(NightfallError::SessionDoesntExist); },
        };
        let session = &mut self.sessions[idx];
        session.join(status);
        session.reset_to(chunk);
        self.stream_stats.insert(id.clone(), StreamStat { hard_seeked_at: chunk, last_hard_seek: now });
        Ok(())
    }

    /// Hands out the init segment once `chunk` is done, and starts counting
    /// the chunks served after it anew.
    pub fn chunk_init_finish(&mut self, id: &String, chunk: u32, probe: ChunkProbe) -> (r: Result<
        String,
        NightfallError,
    >)
        requires
            old(self).wf(),
        ensures
            final(self).wf(),
            !old(self).has(id@) ==> r is Err && r->Err_0 is SessionDoesntExist,
            r is Err ==> old(self).unchanged(*final(self)),
            old(self).has(id@) ==> {
                let s = old(self).session(id@);
                &&& r is Ok <==> s.spec_is_chunk_done(chunk, probe)
                &&& r is Err ==> r->Err_0 is ChunkNotDone
                &&& r is Ok ==> r->Ok_0@ == joined(s.profile_ctx.outdir@, init_name())
                    && old(self).with_session(
                    *final(self),
                    id@,
                    Session { chunks_since_init: 0, ..s },
                )
            },
    {
        let idx = match self.find(id) {
            Some(idx) => idx,
            None => { return Err(NightfallError::SessionDoesntExist); },
        };
        if !self.sessions[idx].is_chunk_done(chunk, probe) {
            return Err(NightfallError::ChunkNotDone);
        }
        let session = &mut self.sessions[idx];
        session.chunks_since_init = 0;
        Ok(session.init_seg())
    }

    /// Decides what a request for media chunk `chunk` sets in motion, given
    /// what the caller saw of the chunk's file.
    ///
    /// A chunk that is not done resumes the child, and restarts it at the
    /// chunk if the request lies before the run, jumps far ahead shortly
    /// after a hard seek, or would take too long to reach; never for direct
    /// play. A chunk that is done is served: the child is resumed if the
    /// request is close behind it, and the segment is patched unless the
    /// session is direct play or the file was served last.
    pub fn chunk_request(&mut self, id: &String, chunk: u32, probe: ChunkProbe, now: u64) -> (r: Result<
        ChunkStep,
        NightfallError,
    >)
        requires
            old(self).wf(),
        ensures
            final(self).wf(),
            r is Ok <==> old(self).has(id@),
            r is Err ==> r->Err_0 is SessionDoesntExist && old(self).unchanged(*final(self)),
            r is Ok ==> {
                let s = old(self).session(id@);
                let st = old(self).stat(id@, now);
                &&& old(self).with_session_and_stat(*final(self), id@, requested(s, chunk, probe), st)
                &&& request_step(s, st, chunk, probe, now, r->Ok_0)
            },
    {
        let idx = match self.find(id) {
            Some(idx) => idx,
            None => { return Err(NightfallError::SessionDoesntExist); },
        };
        let stat = self.stat_entry(id, now);
        let session = &mut self.sessions[idx];
        if !session.is_chunk_done(chunk, probe) {
            let seek = wants_seek_on_request(session, stat, chunk, now);
            let resume = session.cont();
            Ok(ChunkStep::Wait { resume, hard_seek: seek && !session.is_direct_play })
        } else {
            let path = session.chunk_to_path(chunk);
            let current: u32 = session.current_chunk();
            let close: bool = current < 2 || chunk >= current - 2;
            let resume = if close {
                session.cont()
            } else {
                false
            };
            let fresh: bool = match session.last_served {
                Some(c) => c != chunk,
                None => true,
            };
            let patch = if !session.is_direct_play && fresh && session.real_segment < u32::MAX {
                Some(
                    PatchJob {
                        segment: path.clone(),
                        init: session.init_seg(),
                        real_segment: session.real_segment,
                        repair_from_init: session.chunks_since_init >= 1,
                    },
                )
            } else {
                None
            };
            Ok(ChunkStep::Serve { path, resume, patch })
        }
    }

    /// Records that `chunk` was served at `now`; `patched` says whether its
    /// segment was patched. A patched segment takes the next sequence
    /// number. A file that was served last is not counted again.
    pub fn chunk_delivered(&mut self, id: &String, chunk: u32, patched: bool, now: u64) -> (r: Result<
        String,
        NightfallError,
    >)
        requires
            old(self).wf(),
        ensures
            final(self).wf(),
            r is Ok <==> old(self).has(id@),
            r is Err ==> r->Err_0 is SessionDoesntExist && old(self).unchanged(*final(self)),
            r is Ok ==> {
                let s = old(self).session(id@);
                &&& old(self).with_session(*final(self), id@, delivered(s, chunk, patched, now))
                &&& r->Ok_0@ == joined(s.profile_ctx.outdir@, chunk_name(chunk as nat))
            },
    {
        let idx = match self.find(id) {
            Some(idx) => idx,
            None => { return Err(NightfallError::SessionDoesntExist); },
        };
        let session = &mut self.sessions[idx];
        let fresh: bool = match session.last_served {
            Some(c) => c != chunk,
            None => true,
        };
        if fresh {
            if patched && !session.is_direct_play && session.real_segment < u32::MAX {
                session.real_segment = session.real_segment + 1;
            }
            if session.chunks_since_init < u32::MAX {
                session.chunks_since_init = session.chunks_since_init + 1;
            }
        }
        session.reset_timeout(chunk, now);
        Ok(session.chunk_to_path(chunk))
    }

    /// Whole seconds until `chunk` is expected to be ready.
    pub fn chunk_eta(&self, id: &String, chunk: u32) -> (r: Result<u64, NightfallError>)
        requires
            self.wf(),
        ensures
            r is Ok <==> self.has(id@),
            r is Err ==> r->Err_0 is SessionDoesntExist,
            r is Ok ==> r->Ok_0 == self.session(id@).spec_eta_ms(chunk) / 1000,
    {
        match self.find(id) {
            Some(idx) => Ok(self.sessions[idx].eta_for(chunk) / 1000),
            None => Err(NightfallError::SessionDoesntExist),
        }
    }

    /// Tells a client whether asking for `chunk` would restart the stream:
    /// never before the start or for direct play; always for a chunk before
    /// the run or far ahead shortly after a hard seek; else when the wait
    /// exceeds the tolerance.
    pub fn should_hard_seek(&mut self, id: &String, chunk: u32, now: u64) -> (r: Result<
        bool,
        NightfallError,
    >)
        requires
            old(self).wf(),
        ensures
            final(self).wf(),
            r is Ok <==> old(self).has(id@),
            r is Err ==> r->Err_0 is SessionDoesntExist && old(self).unchanged(*final(self)),
            r is Ok ==> {
                let s = old(self).session(id@);
                let st = old(self).stat(id@, now);
                &&& old(self).with_session_and_stat(*final(self), id@, s, st)
                &&& r->Ok_0 == hint_wants_seek(s, st, chunk, now)
            },
    {
        let idx = match self.find(id) {
            Some(idx) => idx,
            None => { return Err(NightfallError::SessionDoesntExist); },
        };
        let stat = self.stat_entry(id, now);
        assert(self.sessions@ =~= old(self).sessions@.update(idx as int, old(self).sessions@[idx as int]));
        let session = &self.sessions[idx];
        if !session.has_started() || session.is_direct_play {
            return Ok(false);
        }
        if chunk < session.start_num() {
            return Ok(true);
        }
        if is_jump_ahead(session, stat, chunk, now) {
            return Ok(true);
        }
        Ok(session.eta_for(chunk) > tolerance(session, HINT_ETA_FLOOR_MS))
    }

    /// Terminates a session and leaves it in place. `status` is the exit
    /// code that waiting for the child gave.
    pub fn die_ignore_gc(&mut self, id: &String, status: Option<i32>) -> (r: Result<(), NightfallError>)
        requires
            old(self).wf(),
        ensures
            final(self).wf(),
            r is Ok <==> old(self).has(id@),
            r is Err ==> r->Err_0 is SessionDoesntExist && old(self).unchanged(*final(self)),
            r is Ok ==> old(self).with_session(*final(self), id@, old(self).session(id@).joined(status)),
    {
        let idx = match self.find(id) {
            Some(idx) => idx,
            None => { return Err(NightfallError::SessionDoesntExist); },
        };
        let session = &mut self.sessions[idx];
        session.join(status);
        Ok(())
    }

    /// The path of a subtitle track, where the caller found its file.
    pub fn get_sub(&self, id: &String, name: &str, exists: bool) -> (r: Result<String, NightfallError>)
        requires
            self.wf(),
        ensures
            r is Ok <==> self.has(id@) && exists,
            r is Err ==> (if self.has(id@) {
                r->Err_0 is ChunkNotDone
            } else {
                r->Err_0 is SessionDoesntExist
            }),
            r is Ok ==> r->Ok_0@ == joined(self.session(id@).profile_ctx.outdir@, subtitle_name(name@)),
    {
        match self.find(id) {
            Some(idx) => match self.sessions[idx].subtitle(name, exists) {
                Some(path) => Ok(path),
                None => Err(NightfallError::ChunkNotDone),
            },
            None => Err(NightfallError::SessionDoesntExist),
        }
    }

    /// The stderr text of a session, where the caller could read it.
    pub fn get_stderr(&self, id: &String, log: Option<String>) -> (r: Result<String, NightfallError>)
        requires
            self.wf(),
        ensures
            r is Ok <==> self.has(id@) && log is Some,
            r is Err ==> (if self.has(id@) {
                r->Err_0 is Aborted
            } else {
                r->Err_0 is SessionDoesntExist
            }),
            r is Ok ==> r->Ok_0 == log->0,
    {
        match self.find(id) {
            Some(_) => match log {
                Some(text) => Ok(text),
                None => Err(NightfallError::Aborted),
            },
            None => Err(NightfallError::SessionDoesntExist),
        }
    }

    /// Hands out the stdout of a session's child, once per child.
    pub fn take_stdout(&mut self, id: &String) -> (r: Result<(), NightfallError>)
        requires
            old(self).wf(),
        ensures
            final(self).wf(),
            !old(self).has(id@) ==> r is Err && r->Err_0 is SessionDoesntExist && old(self).unchanged(
                *final(self),
            ),
            old(self).has(id@) ==> {
                let s = old(self).session(id@);
                &&& r is Ok <==> s.running && !s.stdout_taken
                &&& r is Err ==> r->Err_0 is Aborted
                &&& old(self).with_session(
                    *final(self),
                    id@,
                    Session { stdout_taken: s.stdout_taken || s.running, ..s },
                )
            },
    {
        let idx = match self.find(id) {
            Some(idx) => idx,
            None => { return Err(NightfallError::SessionDoesntExist); },
        };
        let session = &mut self.sessions[idx];
        if session.take_stdout() {
            Ok(())
        } else {
            Err(NightfallError::Aborted)
        }
    }
}

/// Each patched delivery takes the next sequence number, and no delivery
/// ever takes the counter back.
pub proof fn lemma_real_segment_increases(s: Session, chunk: u32, patched: bool, now: u64)
    ensures
        delivered(s, chunk, patched, now).real_segment >= s.real_segment,
        patched && patch_due(s, chunk) ==> delivered(s, chunk, patched, now).real_segment
            == s.real_segment + 1,
{
}

/// A hard seek keeps the sequence counter, and the run that follows it
/// begins at the chunk that was asked for.
pub proof fn lemma_seek_keeps_real_segment(
    s: Session,
    chunk: u32,
    status: Option<i32>,
    spawned: bool,
    now: u64,
)
    ensures
        s.joined(status).reset(chunk).started(spawned, now).real_segment == s.real_segment,
        s.joined(status).reset(chunk).started(spawned, now).start_num == chunk,
        s.joined(status).reset(chunk).started(spawned, now).spec_current_chunk() == chunk,
{
}

/// A direct-play session is never restarted by a request and its segments
/// are never patched: no request brings a patch job or asks for a hard
/// seek, the hint is always no, and a delivery leaves the counter alone.
pub proof fn lemma_direct_play_untouched(
    s: Session,
    st: StreamStat,
    chunk: u32,
    probe: ChunkProbe,
    now: u64,
    step: ChunkStep,
    patched: bool,
)
    requires
        s.is_direct_play,
        request_step(s, st, chunk, probe, now, step),
    ensures
        step matches ChunkStep::Wait { hard_seek, .. } ==> !hard_seek,
        step matches ChunkStep::Serve { patch, .. } ==> patch is None,
        !hint_wants_seek(s, st, chunk, now),
        delivered(s, chunk, patched, now).real_segment == s.real_segment,
{
}

/// Serving a chunk again right after it was served changes nothing but
/// the time of the last activity: the counters stay, and the request
/// brings no patch job.
pub proof fn lemma_repeated_delivery(
    s: Session,
    chunk: u32,
    patched: bool,
    now: u64,
    again: bool,
    later: u64,
)
    ensures
        !patch_due(delivered(s, chunk, patched, now), chunk),
        delivered(delivered(s, chunk, patched, now), chunk, again, later) == delivered(
            s,
            chunk,
            patched,
            now,
        ).touched(chunk, later),
        delivered(delivered(s, chunk, patched, now), chunk, again, later).chunks_since_init
            == delivered(s, chunk, patched, now).chunks_since_init,
        delivered(delivered(s, chunk, patched, now), chunk, again, later).real_segment == delivered(
            s,
            chunk,
            patched,
            now,
        ).real_segment,
{
}

/// What is done to one session leaves every other session as it was.
pub proof fn lemma_other_sessions_untouched(
    pre: StateManager,
    post: StateManager,
    id: Seq<char>,
    s: Session,
    other: Seq<char>,
)
    requires
        pre.wf(),
        pre.has(id),
        pre.with_session(post, id, s),
        s.id@ == id,
        other != id,
    ensures
        post.has(other) == pre.has(other),
        pre.has(other) ==> post.session(other) == pre.session(other),
        post.has(id) && post.session(id) == s,
{
    let k = pre.pos(id);
    assert(0 <= k < pre.sessions@.len() && pre.sessions@[k].id@ == id);
    assert forall|i: int| 0 <= i < pre.sessions@.len() implies (#[trigger] post.sessions@[i]).id@
        == pre.sessions@[i].id@ by {}
    assert(post.sessions@[k].id@ == id);
    assert forall|i: int, j: int| 0 <= i < j < post.sessions@.len() implies (
    #[trigger] post.sessions@[i]).id@ != (#[trigger] post.sessions@[j]).id@ by {
        assert(pre.sessions@[i].id@ != pre.sessions@[j].id@);
    }
    let kk = post.pos(id);
    assert(0 <= kk < post.sessions@.len() && post.sessions@[kk].id@ == id);
    if kk < k {
        assert(post.sessions@[kk].id@ != post.sessions@[k].id@);
    }
    if k < kk {
        assert(post.sessions@[k].id@ != post.sessions@[kk].id@);
    }
    if pre.has(other) {
        let a = pre.pos(other);
        assert(0 <= a < pre.sessions@.len() && pre.sessions@[a].id@ == other);
        assert(post.sessions@[a].id@ == other);
        let b = post.pos(other);
        assert(0 <= b < post.sessions@.len() && post.sessions@[b].id@ == other);
        if a < b {
            assert(post.sessions@[a].id@ != post.sessions@[b].id@);
        }
        if b < a {
            assert(post.sessions@[b].id@ != post.sessions@[a].id@);
        }
    }
    if post.has(other) {
        let b = post.pos(other);
        assert(0 <= b < post.sessions@.len() && post.sessions@[b].id@ == other);
        assert(pre.sessions@[b].id@ == other);
    }
}


/// A session that was told to die is reaped by any collection that looks
/// at it once the rest of the hard timeout has passed: it is no longer
/// live and its stderr text is on record. Direct-play sessions are never
/// reaped.
pub proof fn lemma_die_then_collect(
    before: StateManager,
    dead: StateManager,
    after: StateManager,
    id: Seq<char>,
    status: Option<i32>,
    now: u64,
    later: u64,
    obs: Seq<Observation>,
)
    requires
        before.wf(),
        before.has(id),
        before.with_session(dead, id, before.session(id).joined(status).timed_out(now)),
        before.pos(id) < obs.len(),
        later - now >= crate::session::HARD_TIMEOUT_MS - crate::session::SOFT_TIMEOUT_MS,
        dead.collected(after, obs, later),
    ensures
        !before.session(id).is_direct_play ==> !after.has(id) && after.exit_statuses@.contains_key(id),
        before.session(id).is_direct_play ==> after.has(id),
{
    let k = before.pos(id);
    let s = dead.sessions@[k];
    assert(s == before.session(id).joined(status).timed_out(now));
    assert(s.id@ == id);
    if !before.session(id).is_direct_play {
        assert(gc_reaps(dead.sessions@[k], obs[k], later));
    } else {
        let m = dead.observed(obs);
        lemma_kept_is_live(dead.sessions@, obs, later, m, k);
        let w = choose|w: int|
            0 <= w < gc_kept(dead.sessions@, obs, later, m).len() && gc_kept(
                dead.sessions@,
                obs,
                later,
                m,
            )[w].id@ == id;
        assert(after.sessions@[w] == gc_kept(dead.sessions@, obs, later, m)[w]);
        assert(after.sessions@[w].id@ == id);
    }
}

/// A session that a collection does not reap is among those it keeps.
pub proof fn lemma_kept_is_live(ss: Seq<Session>, obs: Seq<Observation>, now: u64, n: nat, j: int)
    requires
        0 <= j < n <= ss.len(),
        n <= obs.len(),
        !gc_reaps(ss[j], obs[j], now),
    ensures
        exists|w: int|
            0 <= w < gc_kept(ss, obs, now, n).len() && gc_kept(ss, obs, now, n)[w] == gc_keeps(
                ss[j],
                obs[j],
                now,
            ) && #[trigger] gc_kept(ss, obs, now, n)[w].id@ == ss[j].id@,
    decreases n,
{
    let before = gc_kept(ss, obs, now, (n - 1) as nat);
    if j == n - 1 {
        let w = before.len() as int;
        assert(gc_kept(ss, obs, now, n)[w] == gc_keeps(ss[j], obs[j], now));
        assert(gc_kept(ss, obs, now, n)[w].id@ == ss[j].id@);
    } else {
        lemma_kept_is_live(ss, obs, now, (n - 1) as nat, j);
        let w = choose|w: int|
            0 <= w < before.len() && before[w] == gc_keeps(ss[j], obs[j], now) && #[trigger] before[w].id@
                == ss[j].id@;
        assert(gc_kept(ss, obs, now, n)[w] == before[w]);
        assert(gc_kept(ss, obs, now, n)[w].id@ == ss[j].id@);
    }
}


} // verus!
