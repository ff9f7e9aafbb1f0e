use std::collections::BTreeSet;

use sentry_mosaic::camera::Camera;
use sentry_mosaic::catalog::FolderEntry;
use sentry_mosaic::clip::SentryClip;
use sentry_mosaic::error::ClipError;
use sentry_mosaic::plan::{Action, Clock, Joined, Phase, Progress, SkipReason, FRESHNESS_SECONDS};

const FOLDER: &str = "/clips/2020-10-22_10-37-28";
const MOSAIC: &str = "/clips/2020-10-22_10-37-28-mosaic.mp4";
const HIDDEN: &str = "/clips/.2020-10-22_10-37-28-mosaic.mp4";
const BACK_TMP: &str = "/clips/2020-10-22_10-37-28/2020-10-22_10-37-28-back-tmp.mp4";
const FRONT_TMP: &str = "/clips/2020-10-22_10-37-28/2020-10-22_10-37-28-front-tmp.mp4";
const LAST_MODIFIED: i64 = 1603363200;

fn file(path: &str, modified: i64) -> FolderEntry {
    FolderEntry { path: path.to_string(), regular_file: true, modified: Some(modified) }
}

fn sample_clip() -> SentryClip {
    let entries = vec![
        file("/clips/2020-10-22_10-37-28/2020-10-22_10-37-30-back.mp4", 1603363100),
        file("/clips/2020-10-22_10-37-28/2020-10-22_10-37-35-back.mp4", LAST_MODIFIED),
        file("/clips/2020-10-22_10-37-28/2020-10-22_10-37-28-front.mp4", 1603363150),
        file("/clips/2020-10-22_10-37-28/notes.txt", 1603369999),
    ];
    SentryClip::from_folder(FOLDER, &entries).unwrap()
}

fn clock_at(unix: i64) -> Clock {
    Clock { unix, stamp: "20201022_120000000".to_string() }
}

/// A file system and a video tool that only remember what was asked of them.
struct World {
    files: BTreeSet<String>,
    tool_calls: Vec<Vec<String>>,
    performed: Vec<Action>,
    failing_outputs: Vec<String>,
    failing_renames: bool,
}

fn world() -> World {
    let mut files = BTreeSet::new();
    for name in vec!["2020-10-22_10-37-30-back.mp4", "2020-10-22_10-37-35-back.mp4", "2020-10-22_10-37-28-front.mp4", "notes.txt"]
    {
        files.insert(format!("{}/{}", FOLDER, name));
    }
    World { files, tool_calls: Vec::new(), performed: Vec::new(), failing_outputs: Vec::new(), failing_renames: false }
}

fn perform(world: &mut World, action: &Action) -> bool {
    world.performed.push(action.clone());
    match action {
        Action::Probe { path } => world.files.contains(path),
        Action::Write { path, text: _ } => {
            world.files.insert(path.clone());
            true
        }
        Action::Remove { path } => world.files.remove(path),
        Action::Run { args } => {
            world.tool_calls.push(args.clone());
            let output = args[args.len() - 1].clone();
            if world.failing_outputs.contains(&output) {
                false
            } else {
                world.files.insert(output);
                true
            }
        }
        Action::Rename { from, to } => {
            if !world.failing_renames && world.files.remove(from) {
                world.files.insert(to.clone());
                true
            } else {
                false
            }
        }
        Action::Stop => panic!("a run that has ended has nothing to perform"),
    }
}

fn run(clip: &SentryClip, clock: &Clock, world: &mut World) -> Progress {
    let (mut progress, mut action) = clip.start(clock);
    let mut steps = 0;
    while action != Action::Stop {
        assert!(!progress.phase.ended());
        let reply = perform(world, &action);
        let next = clip.advance(clock, progress, reply);
        progress = next.0;
        action = next.1;
        steps += 1;
        assert!(steps < 100);
    }
    assert!(progress.phase.ended());
    progress
}

#[test]
fn the_mosaic_is_produced() {
    let clip = sample_clip();
    let mut world = world();
    let end = run(&clip, &clock_at(LAST_MODIFIED + 16 * 60), &mut world);
    assert_eq!(end.phase, Phase::Done);
    assert_eq!(end.joined, Joined { back: true, front: true, left: false, right: false });
    assert!(world.files.contains(MOSAIC));
    assert!(!world.files.contains(HIDDEN));
    assert!(!world.files.contains(BACK_TMP));
    assert!(!world.files.contains(FRONT_TMP));
    assert!(world.files.iter().all(|f| !f.starts_with("/tmp/")));
    assert_eq!(world.tool_calls.len(), 3);
    assert_eq!(world.tool_calls[0][9], BACK_TMP);
    assert_eq!(world.tool_calls[1][9], FRONT_TMP);
    let compose = &world.tool_calls[2];
    assert_eq!(compose[compose.len() - 1], HIDDEN);
    assert_eq!(compose[3..7].to_vec(), vec!["-i", BACK_TMP, "-i", FRONT_TMP]);
    assert_eq!(world.files.len(), 5);
}

#[test]
fn the_actions_come_in_their_order() {
    let clip = sample_clip();
    let mut world = world();
    run(&clip, &clock_at(LAST_MODIFIED + 16 * 60), &mut world);
    let back_list = "/tmp/tesla_playlist_tmp_20201022_120000000_20201022_103728000_back.txt".to_string();
    let front_list = "/tmp/tesla_playlist_tmp_20201022_120000000_20201022_103728000_front.txt".to_string();
    let kinds: Vec<String> = world
        .performed
        .iter()
        .map(|a| match a {
            Action::Probe { path } => format!("probe {}", path),
            Action::Write { path, text: _ } => format!("write {}", path),
            Action::Remove { path } => format!("remove {}", path),
            Action::Run { args } => format!("run {}", args[args.len() - 1]),
            Action::Rename { from, to } => format!("rename {} {}", from, to),
            Action::Stop => "stop".to_string(),
        })
        .collect();
    assert_eq!(
        kinds,
        vec![
            format!("probe {}", MOSAIC),
            format!("write {}", back_list),
            format!("probe {}", BACK_TMP),
            format!("run {}", BACK_TMP),
            format!("remove {}", back_list),
            format!("write {}", front_list),
            format!("probe {}", FRONT_TMP),
            format!("run {}", FRONT_TMP),
            format!("remove {}", front_list),
            format!("run {}", HIDDEN),
            format!("rename {} {}", HIDDEN, MOSAIC),
            format!("remove {}", BACK_TMP),
            format!("remove {}", FRONT_TMP),
        ]
    );
}

#[test]
fn an_existing_mosaic_is_left_alone() {
    let clip = sample_clip();
    let mut world = world();
    world.files.insert(MOSAIC.to_string());
    let before = world.files.clone();
    let end = run(&clip, &clock_at(LAST_MODIFIED + 16 * 60), &mut world);
    assert_eq!(end.phase, Phase::Skipped(SkipReason::AlreadyProcessed));
    assert_eq!(world.tool_calls.len(), 0);
    assert_eq!(world.performed, vec![Action::Probe { path: MOSAIC.to_string() }]);
    assert_eq!(world.files, before);
}

#[test]
fn a_second_run_calls_the_tool_no_more() {
    let clip = sample_clip();
    let mut world = world();
    run(&clip, &clock_at(LAST_MODIFIED + 16 * 60), &mut world);
    let calls = world.tool_calls.len();
    let files = world.files.clone();
    let end = run(&clip, &clock_at(LAST_MODIFIED + 17 * 60), &mut world);
    assert_eq!(end.phase, Phase::Skipped(SkipReason::AlreadyProcessed));
    assert_eq!(world.tool_calls.len(), calls);
    assert_eq!(world.files, files);
}

#[test]
fn a_fresh_event_is_not_processed() {
    let clip = sample_clip();
    for age in vec![0, 1, 60, 14 * 60, FRESHNESS_SECONDS - 1, -5] {
        let mut world = world();
        let end = run(&clip, &clock_at(LAST_MODIFIED + age), &mut world);
        assert_eq!(end.phase, Phase::Skipped(SkipReason::TooRecent));
        assert!(world.performed.is_empty());
        assert!(world.tool_calls.is_empty());
    }
}

#[test]
fn fifteen_minutes_are_enough() {
    assert_eq!(FRESHNESS_SECONDS, 900);
    let clip = sample_clip();
    let (progress, action) = clip.start(&clock_at(LAST_MODIFIED + 900));
    assert_eq!(progress.phase, Phase::ProbeMosaic);
    assert_eq!(action, Action::Probe { path: MOSAIC.to_string() });
    let (progress, action) = clip.start(&clock_at(LAST_MODIFIED + 899));
    assert_eq!(progress.phase, Phase::Skipped(SkipReason::TooRecent));
    assert_eq!(action, Action::Stop);
}

#[test]
fn the_freshness_test_does_not_overflow() {
    let clip = SentryClip::from_folder(FOLDER, &vec![file("/e/2020-10-22_10-37-30-back.mp4", i64::MAX)]).unwrap();
    let (progress, _) = clip.start(&clock_at(i64::MAX));
    assert_eq!(progress.phase, Phase::Skipped(SkipReason::TooRecent));
    let old = SentryClip::from_folder(FOLDER, &vec![file("/e/2020-10-22_10-37-30-back.mp4", i64::MIN)]).unwrap();
    let (progress, _) = old.start(&clock_at(i64::MIN + 900));
    assert_eq!(progress.phase, Phase::ProbeMosaic);
}

#[test]
fn an_empty_event_is_skipped_first_of_all() {
    let clip = SentryClip::from_folder(FOLDER, &vec![file("/clips/e/notes.txt", LAST_MODIFIED)]).unwrap();
    let mut world = world();
    world.files.insert(MOSAIC.to_string());
    let end = run(&clip, &clock_at(0), &mut world);
    assert_eq!(end.phase, Phase::Skipped(SkipReason::Empty));
    assert!(world.performed.is_empty());
}

#[test]
fn an_event_without_a_parent_folder_is_given_up() {
    let clip = SentryClip::from_folder("2020-10-22_10-37-28", &vec![file("/e/2020-10-22_10-37-30-back.mp4", 0)]).unwrap();
    let (progress, action) = clip.start(&clock_at(LAST_MODIFIED + 1000));
    assert_eq!(progress.phase, Phase::Failed(ClipError::PathConstruction));
    assert_eq!(action, Action::Stop);
}

#[test]
fn a_camera_whose_join_fails_is_left_out() {
    let clip = sample_clip();
    let mut world = world();
    world.failing_outputs.push(BACK_TMP.to_string());
    let end = run(&clip, &clock_at(LAST_MODIFIED + 16 * 60), &mut world);
    assert_eq!(end.phase, Phase::Done);
    assert_eq!(end.joined, Joined { back: false, front: true, left: false, right: false });
    let compose = &world.tool_calls[2];
    assert_eq!(compose[3..5].to_vec(), vec!["-i", FRONT_TMP]);
    assert_eq!(compose[5], "-c:v");
    assert!(compose[2].contains("[0:v] setpts=PTS-STARTPTS, scale=640x480 [upperright]"));
    assert!(!compose[2].contains("upperleft"));
    assert!(world.files.contains(MOSAIC));
    assert!(!world.files.contains(FRONT_TMP));
}

#[test]
fn a_failed_composition_gives_the_event_up() {
    let clip = sample_clip();
    let mut world = world();
    world.failing_outputs.push(HIDDEN.to_string());
    let end = run(&clip, &clock_at(LAST_MODIFIED + 16 * 60), &mut world);
    assert_eq!(end.phase, Phase::Failed(ClipError::ExternalTool));
    assert!(!world.files.contains(MOSAIC));
    assert!(world.performed.iter().all(|a| !matches!(a, Action::Rename { .. })));
}

#[test]
fn a_tool_that_never_works_gives_the_event_up() {
    let clip = sample_clip();
    let mut world = world();
    world.failing_outputs = vec![BACK_TMP.to_string(), FRONT_TMP.to_string(), HIDDEN.to_string()];
    let end = run(&clip, &clock_at(LAST_MODIFIED + 16 * 60), &mut world);
    assert_eq!(end.phase, Phase::Failed(ClipError::ExternalTool));
    assert_eq!(end.joined, Joined { back: false, front: false, left: false, right: false });
    assert_eq!(world.tool_calls.len(), 3);
    assert!(!world.files.contains(MOSAIC));
}

#[test]
fn a_failed_rename_gives_the_event_up() {
    let clip = sample_clip();
    let mut world = world();
    world.failing_renames = true;
    let end = run(&clip, &clock_at(LAST_MODIFIED + 16 * 60), &mut world);
    assert_eq!(end.phase, Phase::Failed(ClipError::Filesystem));
    assert!(!world.files.contains(MOSAIC));
    assert!(world.files.contains(BACK_TMP));
}

#[test]
fn a_joined_video_left_over_is_deleted_first() {
    let clip = sample_clip();
    let mut world = world();
    world.files.insert(BACK_TMP.to_string());
    run(&clip, &clock_at(LAST_MODIFIED + 16 * 60), &mut world);
    let probe = world.performed.iter().position(|a| *a == Action::Probe { path: BACK_TMP.to_string() }).unwrap();
    assert_eq!(world.performed[probe + 1], Action::Remove { path: BACK_TMP.to_string() });
    assert!(matches!(world.performed[probe + 2], Action::Run { .. }));
    assert!(world.files.contains(MOSAIC));
}

#[test]
fn single_steps_of_one_camera() {
    let clip = sample_clip();
    let clock = clock_at(LAST_MODIFIED + 16 * 60);
    let joined = Joined { back: false, front: false, left: false, right: false };
    let list = "/tmp/tesla_playlist_tmp_20201022_120000000_20201022_103728000_back.txt".to_string();
    let at = |phase: Phase| Progress { phase, joined };

    let (next, action) = clip.advance(&clock, at(Phase::WritePlaylist(Camera::Back)), false);
    assert_eq!(next.phase, Phase::DropPlaylist(Camera::Back));
    assert_eq!(action, Action::Remove { path: list.clone() });

    let (next, action) = clip.advance(&clock, at(Phase::RemoveStale(Camera::Back)), false);
    assert_eq!(next.phase, Phase::DropPlaylist(Camera::Back));
    assert_eq!(action, Action::Remove { path: list.clone() });

    let (next, action) = clip.advance(&clock, at(Phase::RemoveStale(Camera::Back)), true);
    assert_eq!(next.phase, Phase::Join(Camera::Back));
    assert!(matches!(action, Action::Run { .. }));

    let (next, _) = clip.advance(&clock, at(Phase::Join(Camera::Back)), true);
    assert_eq!(next.joined, Joined { back: true, front: false, left: false, right: false });

    let (next, action) = clip.advance(&clock, at(Phase::DropPlaylist(Camera::Front)), true);
    assert_eq!(next.phase, Phase::Compose);
    assert!(matches!(action, Action::Run { .. }));

    let (next, action) = clip.advance(&clock, at(Phase::Publish), true);
    assert_eq!(next.phase, Phase::Done);
    assert_eq!(action, Action::Stop);
}

#[test]
fn a_run_that_has_ended_rests() {
    let clip = sample_clip();
    let clock = clock_at(0);
    let joined = Joined::none();
    for phase in vec![
        Phase::Done,
        Phase::Skipped(SkipReason::Empty),
        Phase::Skipped(SkipReason::TooRecent),
        Phase::Skipped(SkipReason::AlreadyProcessed),
        Phase::Failed(ClipError::ExternalTool),
    ] {
        assert!(phase.ended());
        for reply in vec![true, false] {
            let (next, action) = clip.advance(&clock, Progress { phase, joined }, reply);
            assert_eq!(next, Progress { phase, joined });
            assert_eq!(action, Action::Stop);
        }
    }
    assert!(!Phase::Compose.ended());
    assert!(!Phase::ProbeMosaic.ended());
}

#[test]
fn marks_of_joined_cameras() {
    let none = Joined::none();
    for camera in Camera::all_cameras() {
        assert!(!none.holds(&camera));
        let one = none.marked(&camera, true);
        for other in Camera::all_cameras() {
            assert_eq!(one.holds(&other), other == camera);
        }
        assert_eq!(one.marked(&camera, false), none);
    }
}

#[test]
fn process_begins_at_the_time_of_the_machine() {
    let now = chrono::Utc::now().timestamp();
    let old = sample_clip();
    let (clock, progress, action) = old.process();
    assert!(clock.unix >= now && clock.unix <= now + 60);
    assert_eq!(clock.stamp.chars().count(), 18);
    assert!(clock.stamp.starts_with("20"));
    assert_eq!(progress.phase, Phase::ProbeMosaic);
    assert_eq!(action, Action::Probe { path: MOSAIC.to_string() });

    let fresh = SentryClip::from_folder(FOLDER, &vec![file("/e/2020-10-22_10-37-30-back.mp4", now - 60)]).unwrap();
    let (_, progress, action) = fresh.process();
    assert_eq!(progress.phase, Phase::Skipped(SkipReason::TooRecent));
    assert_eq!(action, Action::Stop);
}
