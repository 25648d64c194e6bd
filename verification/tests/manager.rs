use nightfall::error::NightfallError;
use nightfall::manager::{ChunkStep, InitStep, Observation, PatchJob, StateManager, StreamStat};
use nightfall::profile::{Profile, ProfileContext, ProfileType};
use nightfall::session::ChunkProbe;

const MISSING: ChunkProbe = ChunkProbe { exists: false, stable: false };
const DONE: ChunkProbe = ChunkProbe { exists: true, stable: true };

fn profile(tag: &str, profile_type: ProfileType) -> Profile {
    Profile { tag: tag.to_string(), profile_type }
}

fn context() -> ProfileContext {
    ProfileContext {
        file: "/media/film.mkv".to_string(),
        stream: 1,
        width: Some(1280),
        height: None,
        bitrate: Some(4_000_000),
        outdir: String::new(),
        ffmpeg_bin: String::new(),
    }
}

fn manager() -> StateManager {
    StateManager::new("/var/streams".to_string(), "/usr/bin/ffmpeg".to_string())
}

fn transcode(m: &mut StateManager) -> String {
    m.create(vec![profile("h264", ProfileType::Transcode)], context()).unwrap()
}

fn transmux(m: &mut StateManager) -> String {
    m.create(vec![profile("copy", ProfileType::Transmux)], context()).unwrap()
}

fn quiet(n: usize) -> Vec<Observation> {
    (0..n).map(|_| Observation { exited: None, stderr: String::new() }).collect()
}

#[test]
fn new_manager_is_empty() {
    let m = manager();
    assert_eq!(m.outdir, "/var/streams");
    assert_eq!(m.ffmpeg, "/usr/bin/ffmpeg");
    assert!(m.sessions.is_empty());
    assert!(m.stat_of(&"x".to_string()).is_none());
    assert!(m.stderr_of(&"x".to_string()).is_none());
}

#[test]
fn stream_stat_starts_at_zero_and_now() {
    let st = StreamStat::starting_at(77);
    assert_eq!(st.hard_seeked_at, 0);
    assert_eq!(st.last_hard_seek, 77);
}

#[test]
fn create_rejects_an_empty_chain() {
    let mut m = manager();
    assert!(matches!(m.create(vec![], context()), Err(NightfallError::ProfileChainExhausted)));
    assert!(m.sessions.is_empty());
    assert!(matches!(
        m.create_with_id("a".to_string(), vec![], context()),
        Err(NightfallError::ProfileChainExhausted)
    ));
}

#[test]
fn create_stores_a_session_that_has_not_started() {
    let mut m = manager();
    let id = transcode(&mut m);
    let s = m.lookup(&id).unwrap();
    assert_eq!(s.id, id);
    assert!(!s.has_started());
    assert!(!s.is_direct_play);
    assert_eq!(s.profile_ctx.outdir, format!("/var/streams/{}", id));
    assert_eq!(s.profile_ctx.ffmpeg_bin, "/usr/bin/ffmpeg");
    assert_eq!(s.profile_ctx.file, "/media/film.mkv");
    assert_eq!(s.profile_ctx.width, Some(1280));
    assert_eq!(s.profile_ctx.bitrate, Some(4_000_000));
    assert_eq!(s.profile_chain.len(), 1);
}

#[test]
fn create_gives_hyphenated_ids_that_differ() {
    let mut m = manager();
    let a = transcode(&mut m);
    let b = transcode(&mut m);
    assert_ne!(a, b);
    for id in [&a, &b] {
        assert_eq!(id.len(), 36);
        for (i, c) in id.chars().enumerate() {
            if i == 8 || i == 13 || i == 18 || i == 23 {
                assert_eq!(c, '-');
            } else {
                assert!(c.is_ascii_hexdigit());
            }
        }
    }
    assert_eq!(m.sessions.len(), 2);
}

#[test]
fn create_marks_direct_play() {
    let mut m = manager();
    let id = transmux(&mut m);
    assert!(m.lookup(&id).unwrap().is_direct_play);
    let id = m
        .create(
            vec![profile("copy", ProfileType::Transmux), profile("h264", ProfileType::Transcode)],
            context(),
        )
        .unwrap();
    assert!(!m.lookup(&id).unwrap().is_direct_play);
}

#[test]
fn create_with_id_replaces_a_session_of_that_id() {
    let mut m = manager();
    let id = m
        .create_with_id("a".to_string(), vec![profile("x", ProfileType::Transcode)], context())
        .unwrap();
    assert_eq!(id, "a");
    m.start(&id, true, 5).unwrap();
    m.create_with_id("b".to_string(), vec![profile("x", ProfileType::Transcode)], context())
        .unwrap();
    m.create_with_id("a".to_string(), vec![profile("y", ProfileType::Transcode)], context())
        .unwrap();
    assert_eq!(m.sessions.len(), 2);
    assert_eq!(m.sessions[0].id, "a");
    assert!(!m.sessions[0].has_started());
    assert_eq!(m.sessions[0].profile_chain[0].tag, "y");
}

#[test]
fn unknown_ids_are_refused_everywhere() {
    let mut m = manager();
    let id = "nope".to_string();
    assert!(matches!(m.start(&id, true, 0), Err(NightfallError::SessionDoesntExist)));
    assert!(matches!(m.spawn_request(&id), Err(NightfallError::SessionDoesntExist)));
    assert!(matches!(m.recover_profile(&id), Err(NightfallError::SessionDoesntExist)));
    assert!(matches!(m.chunk_init_request(&id, 0, DONE), Err(NightfallError::SessionDoesntExist)));
    assert!(matches!(m.chunk_init_finish(&id, 0, DONE), Err(NightfallError::SessionDoesntExist)));
    assert!(matches!(m.chunk_request(&id, 0, DONE, 0), Err(NightfallError::SessionDoesntExist)));
    assert!(matches!(m.chunk_delivered(&id, 0, true, 0), Err(NightfallError::SessionDoesntExist)));
    assert!(matches!(m.seek_to(&id, 0, None, 0), Err(NightfallError::SessionDoesntExist)));
    assert!(matches!(m.chunk_eta(&id, 0), Err(NightfallError::SessionDoesntExist)));
    assert!(matches!(m.should_hard_seek(&id, 0, 0), Err(NightfallError::SessionDoesntExist)));
    assert!(matches!(m.die(&id, None, 0), Err(NightfallError::SessionDoesntExist)));
    assert!(matches!(m.die_ignore_gc(&id, None), Err(NightfallError::SessionDoesntExist)));
    assert!(matches!(m.get_sub(&id, "eng", true), Err(NightfallError::SessionDoesntExist)));
    assert!(matches!(m.get_stderr(&id, Some(String::new())), Err(NightfallError::SessionDoesntExist)));
    assert!(matches!(m.take_stdout(&id), Err(NightfallError::SessionDoesntExist)));
    assert!(matches!(m.record_progress(&id, 0, 0), Err(NightfallError::SessionDoesntExist)));
    assert!(m.stat_of(&id).is_none());
}

#[test]
fn start_maps_a_failed_spawn_to_aborted() {
    let mut m = manager();
    let id = transcode(&mut m);
    assert!(matches!(m.start(&id, false, 0), Err(NightfallError::Aborted)));
    assert!(m.start(&id, true, 0).is_ok());
    assert!(m.start(&id, false, 0).is_ok());
}

#[test]
fn forward_seek_beyond_horizon_triggers_hard_seek() {
    let mut m = manager();
    let id = transcode(&mut m);
    m.start(&id, true, 1_000).unwrap();
    m.record_progress(&id, 2, 1000).unwrap();
    assert_eq!(m.lookup(&id).unwrap().current_chunk(), 2);
    let step = m.chunk_request(&id, 50, MISSING, 2_000).unwrap();
    assert!(matches!(step, ChunkStep::Wait { resume: true, hard_seek: true }));
    m.seek_to(&id, 50, Some(-1), 2_000).unwrap();
    assert!(!m.lookup(&id).unwrap().has_started());
    let req = m.spawn_request(&id).unwrap().unwrap();
    assert_eq!(req.seek_secs, 250);
    assert_eq!(req.profile, "h264");
    m.start(&id, true, 2_100).unwrap();
    assert_eq!(m.stat_of(&id).unwrap().hard_seeked_at, 50);
    assert_eq!(m.stat_of(&id).unwrap().last_hard_seek, 2_000);
    assert_eq!(m.lookup(&id).unwrap().start_num(), 50);
    assert!(m.lookup(&id).unwrap().has_started());
}

#[test]
fn backward_seek_always_hard_seeks() {
    let mut m = manager();
    let id = transcode(&mut m);
    m.seek_to(&id, 40, None, 0).unwrap();
    m.start(&id, true, 0).unwrap();
    assert_eq!(m.lookup(&id).unwrap().start_num(), 40);
    m.record_progress(&id, 100, 100_000).unwrap();
    let step = m.chunk_request(&id, 10, MISSING, 1_000_000).unwrap();
    assert!(matches!(step, ChunkStep::Wait { resume: true, hard_seek: true }));
    m.seek_to(&id, 10, Some(0), 1_000_000).unwrap();
    m.start(&id, true, 1_000_000).unwrap();
    let s = m.lookup(&id).unwrap();
    assert_eq!(s.start_num(), 10);
    assert_eq!(s.current_chunk(), 10);
    assert!(s.has_started());
    assert_eq!(m.stat_of(&id).unwrap().hard_seeked_at, 10);
}

#[test]
fn direct_play_forbids_hard_seek_and_patching() {
    let mut m = manager();
    let id = transmux(&mut m);
    m.start(&id, true, 0).unwrap();
    let step = m.chunk_request(&id, 100, MISSING, 10).unwrap();
    assert!(matches!(step, ChunkStep::Wait { resume: true, hard_seek: false }));
    assert_eq!(m.lookup(&id).unwrap().start_num(), 0);
    assert!(!m.should_hard_seek(&id, 100, 10).unwrap());
    let step = m.chunk_request(&id, 0, DONE, 20).unwrap();
    match step {
        ChunkStep::Serve { patch, .. } => assert!(patch.is_none()),
        ChunkStep::Wait { .. } => panic!("chunk 0 is done"),
    }
    m.chunk_delivered(&id, 0, true, 20).unwrap();
    assert_eq!(m.lookup(&id).unwrap().real_segment, 0);
}

#[test]
fn profile_fallback_on_child_failure() {
    let mut m = manager();
    let id = m
        .create(
            vec![profile("a", ProfileType::HardwareTranscode), profile("b", ProfileType::Transcode)],
            context(),
        )
        .unwrap();
    m.start(&id, true, 0).unwrap();
    m.record_progress(&id, 1, 1000).unwrap();
    let seen = vec![Observation { exited: Some(1), stderr: "boom".to_string() }];
    m.garbage_collect(10, &seen);
    assert_eq!(m.lookup(&id).unwrap().exit_status, Some(1));
    assert_eq!(m.recover_profile(&id).unwrap(), Some(0));
    let s = m.lookup(&id).unwrap();
    assert_eq!(s.exit_status, None);
    assert_eq!(s.profile_chain.len(), 1);
    assert_eq!(s.profile_chain[0].tag, "b");
    assert_eq!(s.current_chunk(), 0);
    let step = m.chunk_init_request(&id, 0, MISSING).unwrap();
    assert!(matches!(step, InitStep::Resume { signal: false }));
    let req = m.spawn_request(&id).unwrap().unwrap();
    assert_eq!(req.profile, "b");
    assert_eq!(req.seek_secs, 0);
    m.start(&id, true, 20).unwrap();
    assert!(matches!(m.chunk_init_finish(&id, 0, MISSING), Err(NightfallError::ChunkNotDone)));
    let init = m.chunk_init_finish(&id, 0, DONE).unwrap();
    assert_eq!(init, format!("/var/streams/{}/init.mp4", id));
    assert_eq!(m.recover_profile(&id).unwrap(), None);
}

#[test]
fn profile_exhaustion() {
    let mut m = manager();
    let id = transcode(&mut m);
    m.start(&id, true, 0).unwrap();
    let seen = vec![Observation { exited: Some(1), stderr: String::new() }];
    m.garbage_collect(10, &seen);
    assert!(matches!(m.recover_profile(&id), Err(NightfallError::ProfileChainExhausted)));
}

#[test]
fn clean_exit_needs_no_fallback() {
    let mut m = manager();
    let id = transcode(&mut m);
    m.start(&id, true, 0).unwrap();
    m.die_ignore_gc(&id, Some(0)).unwrap();
    assert_eq!(m.recover_profile(&id).unwrap(), None);
    assert_eq!(m.lookup(&id).unwrap().exit_status, None);
    assert_eq!(m.lookup(&id).unwrap().profile_chain.len(), 1);
}

#[test]
fn gc_reaps_idle_and_pauses_idle_but_active() {
    let mut m = manager();
    let s1 = transcode(&mut m);
    let s2 = transcode(&mut m);
    m.start(&s1, true, 0).unwrap();
    m.start(&s2, true, 75_000).unwrap();
    m.should_hard_seek(&s1, 0, 0).unwrap();
    assert!(m.stat_of(&s1).is_some());
    let seen = vec![
        Observation { exited: None, stderr: "first log".to_string() },
        Observation { exited: None, stderr: "second log".to_string() },
    ];
    let out = m.garbage_collect(120_000, &seen);
    assert!(m.lookup(&s1).is_none());
    assert_eq!(m.stderr_of(&s1), Some(&"first log".to_string()));
    assert!(m.stat_of(&s1).is_none());
    assert_eq!(out.reaped.len(), 1);
    assert_eq!(out.reaped[0].id, s1);
    assert_eq!(out.reaped[0].profile_ctx.outdir, format!("/var/streams/{}", s1));
    let kept = m.lookup(&s2).unwrap();
    assert!(kept.paused);
    assert!(kept.has_started());
    assert_eq!(out.paused, vec![s2.clone()]);
    assert!(m.stderr_of(&s2).is_none());
    assert_eq!(m.sessions.len(), 1);
}

#[test]
fn gc_leaves_direct_play_and_fresh_sessions_alone() {
    let mut m = manager();
    let direct = transmux(&mut m);
    let fresh = transcode(&mut m);
    let dead = transcode(&mut m);
    m.start(&direct, true, 0).unwrap();
    m.start(&fresh, true, 100_000).unwrap();
    m.start(&dead, true, 80_000).unwrap();
    let mut seen = quiet(3);
    seen[2].exited = Some(0);
    let out = m.garbage_collect(120_000, &seen);
    assert!(out.reaped.is_empty());
    assert!(out.paused.is_empty());
    assert_eq!(m.sessions.len(), 3);
    assert!(!m.lookup(&direct).unwrap().paused);
    assert!(!m.lookup(&fresh).unwrap().paused);
    assert!(!m.lookup(&dead).unwrap().paused);
    assert!(!m.lookup(&dead).unwrap().has_started());
    assert_eq!(m.lookup(&dead).unwrap().exit_status, Some(0));
}

#[test]
fn gc_does_not_pause_twice() {
    let mut m = manager();
    let id = transcode(&mut m);
    m.start(&id, true, 0).unwrap();
    let out = m.garbage_collect(40_000, &quiet(1));
    assert_eq!(out.paused, vec![id.clone()]);
    let out = m.garbage_collect(41_000, &quiet(1));
    assert!(out.paused.is_empty());
    assert!(m.lookup(&id).unwrap().paused);
}

#[test]
fn die_then_late_gc_reaps() {
    let mut m = manager();
    let id = transcode(&mut m);
    let direct = transmux(&mut m);
    m.start(&id, true, 0).unwrap();
    m.start(&direct, true, 0).unwrap();
    m.die(&id, Some(-1), 1_000).unwrap();
    m.die(&direct, Some(-1), 1_000).unwrap();
    assert!(!m.lookup(&id).unwrap().has_started());
    let out = m.garbage_collect(1_000 + 59_999, &quiet(2));
    assert!(out.reaped.is_empty());
    let out = m.garbage_collect(1_000 + 60_000, &quiet(2));
    assert_eq!(out.reaped.len(), 1);
    assert!(m.lookup(&id).is_none());
    assert!(m.stderr_of(&id).is_some());
    assert!(m.lookup(&direct).is_some());
    assert!(m.stderr_of(&direct).is_none());
}

#[test]
fn die_ignore_gc_leaves_the_clock_alone() {
    let mut m = manager();
    let id = transcode(&mut m);
    m.start(&id, true, 500).unwrap();
    m.die_ignore_gc(&id, None).unwrap();
    let s = m.lookup(&id).unwrap();
    assert!(!s.has_started());
    assert!(!s.is_timeout(600));
}

#[test]
fn done_chunk_is_served_and_patched_once() {
    let mut m = manager();
    let id = transcode(&mut m);
    m.start(&id, true, 0).unwrap();
    m.record_progress(&id, 10, 1000).unwrap();
    let step = m.chunk_request(&id, 3, DONE, 100).unwrap();
    let expected = format!("/var/streams/{}/3.m4s", id);
    match step {
        ChunkStep::Serve { path, resume, patch } => {
            assert_eq!(path, expected);
            assert!(!resume);
            let job = patch.unwrap();
            assert_eq!(job.segment, expected);
            assert_eq!(job.init, format!("/var/streams/{}/init.mp4", id));
            assert_eq!(job.real_segment, 0);
            assert!(!job.repair_from_init);
        }
        ChunkStep::Wait { .. } => panic!("chunk 3 is done"),
    }
    assert_eq!(m.chunk_delivered(&id, 3, true, 100).unwrap(), expected);
    let s = m.lookup(&id).unwrap();
    assert_eq!(s.real_segment, 1);
    assert_eq!(s.chunks_since_init, 1);
    assert_eq!(s.last_activity, 100);

    let step = m.chunk_request(&id, 3, DONE, 200).unwrap();
    match step {
        ChunkStep::Serve { path, patch, .. } => {
            assert_eq!(path, expected);
            assert!(patch.is_none());
        }
        ChunkStep::Wait { .. } => panic!("chunk 3 is done"),
    }
    assert_eq!(m.chunk_delivered(&id, 3, true, 200).unwrap(), expected);
    let s = m.lookup(&id).unwrap();
    assert_eq!(s.real_segment, 1);
    assert_eq!(s.chunks_since_init, 1);
    assert_eq!(s.last_activity, 200);
}

#[test]
fn real_segment_increases_with_each_patched_delivery() {
    let mut m = manager();
    let id = transcode(&mut m);
    m.start(&id, true, 0).unwrap();
    m.record_progress(&id, 10, 1000).unwrap();
    let mut last = m.lookup(&id).unwrap().real_segment;
    for chunk in 0..5u32 {
        m.chunk_request(&id, chunk, DONE, 10).unwrap();
        m.chunk_delivered(&id, chunk, true, 10).unwrap();
        let now = m.lookup(&id).unwrap().real_segment;
        assert_eq!(now, last + 1);
        last = now;
    }
    m.chunk_request(&id, 5, DONE, 10).unwrap();
    m.chunk_delivered(&id, 5, false, 10).unwrap();
    assert_eq!(m.lookup(&id).unwrap().real_segment, last);
    assert_eq!(m.lookup(&id).unwrap().chunks_since_init, 6);
}

#[test]
fn partial_segments_are_repaired_after_the_first_chunk() {
    let mut m = manager();
    let id = transcode(&mut m);
    m.start(&id, true, 0).unwrap();
    m.record_progress(&id, 10, 1000).unwrap();
    let partial = NightfallError::PartialSegment("no moof".to_string());
    let other = NightfallError::Io("disk".to_string());
    let first = match m.chunk_request(&id, 0, DONE, 0).unwrap() {
        ChunkStep::Serve { patch, .. } => patch.unwrap(),
        ChunkStep::Wait { .. } => panic!("chunk 0 is done"),
    };
    assert!(!first.wants_init_repair(&partial));
    m.chunk_delivered(&id, 0, false, 0).unwrap();
    let second = match m.chunk_request(&id, 1, DONE, 0).unwrap() {
        ChunkStep::Serve { patch, .. } => patch.unwrap(),
        ChunkStep::Wait { .. } => panic!("chunk 1 is done"),
    };
    assert!(second.repair_from_init);
    assert!(second.wants_init_repair(&partial));
    assert!(!second.wants_init_repair(&other));
    assert!(!second.wants_init_repair(&NightfallError::ChunkNotDone));
    let job = PatchJob { repair_from_init: false, ..second };
    assert!(!job.wants_init_repair(&partial));
}

#[test]
fn init_delivery_restarts_the_chunk_count() {
    let mut m = manager();
    let id = transcode(&mut m);
    m.start(&id, true, 0).unwrap();
    m.chunk_request(&id, 0, DONE, 0).unwrap();
    m.chunk_delivered(&id, 0, true, 0).unwrap();
    assert_eq!(m.lookup(&id).unwrap().chunks_since_init, 1);
    assert!(matches!(m.chunk_init_request(&id, 0, DONE).unwrap(), InitStep::Ready));
    m.chunk_init_finish(&id, 0, DONE).unwrap();
    assert_eq!(m.lookup(&id).unwrap().chunks_since_init, 0);
    assert_eq!(m.lookup(&id).unwrap().real_segment, 1);
}

#[test]
fn init_request_elsewhere_restarts() {
    let mut m = manager();
    let id = transcode(&mut m);
    m.start(&id, true, 0).unwrap();
    assert!(matches!(m.chunk_init_request(&id, 30, MISSING).unwrap(), InitStep::Restart));
    m.seek_to(&id, 30, Some(-1), 50).unwrap();
    m.start(&id, true, 50).unwrap();
    assert_eq!(m.lookup(&id).unwrap().start_num(), 30);
    assert_eq!(m.stat_of(&id).unwrap().hard_seeked_at, 30);
    assert_eq!(m.stat_of(&id).unwrap().last_hard_seek, 50);
    assert!(m.sessions[0].pause());
    assert!(m.lookup(&id).unwrap().paused);
    assert!(matches!(
        m.chunk_init_request(&id, 30, MISSING).unwrap(),
        InitStep::Resume { signal: true }
    ));
    assert!(!m.lookup(&id).unwrap().paused);
}

#[test]
fn close_requests_keep_the_producer_running() {
    let mut m = manager();
    let id = transcode(&mut m);
    m.start(&id, true, 0).unwrap();
    m.record_progress(&id, 10, 1000).unwrap();
    assert!(matches!(
        m.chunk_request(&id, 8, DONE, 0).unwrap(),
        ChunkStep::Serve { resume: true, .. }
    ));
    assert!(matches!(
        m.chunk_request(&id, 7, DONE, 0).unwrap(),
        ChunkStep::Serve { resume: false, .. }
    ));
}

#[test]
fn slow_streams_are_restarted_near_the_request() {
    let mut m = manager();
    let id = transcode(&mut m);
    m.start(&id, true, 0).unwrap();
    m.record_progress(&id, 0, 1000).unwrap();
    // two chunks ahead at normal speed: 10 s, within the tolerance of 10 s
    assert!(matches!(
        m.chunk_request(&id, 2, MISSING, 100_000).unwrap(),
        ChunkStep::Wait { hard_seek: false, .. }
    ));
    // three chunks ahead: 15 s
    assert!(matches!(
        m.chunk_request(&id, 3, MISSING, 100_000).unwrap(),
        ChunkStep::Wait { hard_seek: true, .. }
    ));
}

#[test]
fn the_hint_is_more_eager_than_the_request() {
    let mut m = manager();
    let id = transcode(&mut m);
    m.start(&id, true, 0).unwrap();
    m.record_progress(&id, 0, 2000).unwrap();
    // three chunks ahead at double speed: 7.5 s, between the two floors
    assert_eq!(m.lookup(&id).unwrap().eta_for(3), 7_500);
    assert!(m.should_hard_seek(&id, 3, 100_000).unwrap());
    assert!(matches!(
        m.chunk_request(&id, 3, MISSING, 100_000).unwrap(),
        ChunkStep::Wait { hard_seek: false, .. }
    ));
    assert!(!m.should_hard_seek(&id, 2, 100_000).unwrap());
}

#[test]
fn the_hint_is_no_before_the_start() {
    let mut m = manager();
    let id = transcode(&mut m);
    assert!(!m.should_hard_seek(&id, 500, 0).unwrap());
    m.seek_to(&id, 40, None, 0).unwrap();
    m.start(&id, true, 0).unwrap();
    assert!(m.should_hard_seek(&id, 39, 1_000_000).unwrap());
}

#[test]
fn far_jumps_are_debounced() {
    let mut m = manager();
    let id = transcode(&mut m);
    m.seek_to(&id, 20, None, 1_000).unwrap();
    m.start(&id, true, 1_000).unwrap();
    m.record_progress(&id, 0, 1_000_000).unwrap();
    // at this speed the wait never exceeds the tolerance
    assert!(matches!(
        m.chunk_request(&id, 36, MISSING, 15_999).unwrap(),
        ChunkStep::Wait { hard_seek: true, .. }
    ));
    assert!(matches!(
        m.chunk_request(&id, 35, MISSING, 15_999).unwrap(),
        ChunkStep::Wait { hard_seek: false, .. }
    ));
    assert!(matches!(
        m.chunk_request(&id, 36, MISSING, 16_000).unwrap(),
        ChunkStep::Wait { hard_seek: false, .. }
    ));
    assert!(m.should_hard_seek(&id, 36, 15_999).unwrap());
    assert!(!m.should_hard_seek(&id, 36, 16_000).unwrap());
}

#[test]
fn chunk_eta_is_in_whole_seconds() {
    let mut m = manager();
    let id = transcode(&mut m);
    m.start(&id, true, 0).unwrap();
    m.record_progress(&id, 2, 1000).unwrap();
    assert_eq!(m.chunk_eta(&id, 50).unwrap(), 240);
    m.record_progress(&id, 2, 1500).unwrap();
    assert_eq!(m.chunk_eta(&id, 3).unwrap(), 3);
    assert_eq!(m.chunk_eta(&id, 0).unwrap(), 0);
}

#[test]
fn passthroughs_map_their_errors() {
    let mut m = manager();
    let id = transcode(&mut m);
    assert!(matches!(m.get_sub(&id, "eng", false), Err(NightfallError::ChunkNotDone)));
    assert_eq!(m.get_sub(&id, "eng", true).unwrap(), format!("/var/streams/{}/eng.vtt", id));
    assert!(matches!(m.get_stderr(&id, None), Err(NightfallError::Aborted)));
    assert_eq!(m.get_stderr(&id, Some("log".to_string())).unwrap(), "log");
    assert!(matches!(m.take_stdout(&id), Err(NightfallError::Aborted)));
    m.start(&id, true, 0).unwrap();
    assert!(m.take_stdout(&id).is_ok());
    assert!(matches!(m.take_stdout(&id), Err(NightfallError::Aborted)));
}

#[test]
fn sessions_do_not_disturb_each_other() {
    let mut m = manager();
    let a = transcode(&mut m);
    let b = transcode(&mut m);
    m.start(&b, true, 7).unwrap();
    m.record_progress(&b, 4, 1200).unwrap();
    let before = format!("{:?}", m.lookup(&b).unwrap());
    m.start(&a, true, 10).unwrap();
    m.record_progress(&a, 9, 900).unwrap();
    m.chunk_request(&a, 0, DONE, 20).unwrap();
    m.chunk_delivered(&a, 0, true, 20).unwrap();
    m.seek_to(&a, 70, Some(-1), 30).unwrap();
    m.die(&a, None, 40).unwrap();
    assert_eq!(format!("{:?}", m.lookup(&b).unwrap()), before);
    assert!(m.stat_of(&b).is_none());
    assert_eq!(m.stat_of(&a).unwrap().hard_seeked_at, 70);
}

#[test]
fn seek_keeps_the_sequence_counter() {
    let mut m = manager();
    let id = transcode(&mut m);
    m.start(&id, true, 0).unwrap();
    m.chunk_request(&id, 0, DONE, 1).unwrap();
    m.chunk_delivered(&id, 0, true, 1).unwrap();
    m.seek_to(&id, 90, Some(-1), 2).unwrap();
    m.start(&id, true, 2).unwrap();
    let s = m.lookup(&id).unwrap();
    assert_eq!(s.real_segment, 1);
    assert_eq!(s.start_num(), 90);
    assert_eq!(s.chunks_since_init, 1);
    // the file of chunk 0 is still the one that was served
    assert_eq!(s.last_served, Some(0));
}

#[test]
fn a_chunk_produced_anew_is_patched_again() {
    let mut m = manager();
    let id = transcode(&mut m);
    m.start(&id, true, 0).unwrap();
    m.record_progress(&id, 9, 1000).unwrap();
    m.chunk_request(&id, 5, DONE, 1).unwrap();
    m.chunk_delivered(&id, 5, true, 1).unwrap();
    m.seek_to(&id, 3, Some(-1), 2).unwrap();
    m.start(&id, true, 2).unwrap();
    m.record_progress(&id, 9, 1000).unwrap();
    match m.chunk_request(&id, 5, DONE, 3).unwrap() {
        ChunkStep::Serve { patch, .. } => assert_eq!(patch.unwrap().real_segment, 1),
        ChunkStep::Wait { .. } => panic!("chunk 5 is done"),
    }
    m.chunk_delivered(&id, 5, true, 3).unwrap();
    assert_eq!(m.lookup(&id).unwrap().real_segment, 2);
}

#[test]
fn gc_leaves_unobserved_sessions_alone() {
    let mut m = manager();
    let a = transcode(&mut m);
    let b = transcode(&mut m);
    m.start(&a, true, 0).unwrap();
    m.start(&b, true, 0).unwrap();
    let out = m.garbage_collect(200_000, &quiet(1));
    assert_eq!(out.reaped.len(), 1);
    assert_eq!(out.reaped[0].id, a);
    assert!(m.lookup(&a).is_none());
    let kept = m.lookup(&b).unwrap();
    assert!(kept.has_started());
    assert!(!kept.paused);
    let out = m.garbage_collect(200_000, &quiet(5));
    assert_eq!(out.reaped.len(), 1);
    assert!(m.sessions.is_empty());
    let out = m.garbage_collect(200_000, &quiet(5));
    assert!(out.reaped.is_empty());
    assert!(out.paused.is_empty());
}
