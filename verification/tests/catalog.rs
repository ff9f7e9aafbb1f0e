use sentry_mosaic::camera::Camera;
use sentry_mosaic::catalog::{process_folder, FolderEntry, Skipped};
use sentry_mosaic::clip::SentryClip;
use sentry_mosaic::error::ClipError;

fn file(path: &str, modified: i64) -> FolderEntry {
    FolderEntry { path: path.to_string(), regular_file: true, modified: Some(modified) }
}

fn sample_entries() -> Vec<FolderEntry> {
    vec![
        file("/clips/2020-10-22_10-37-28/2020-10-22_10-37-30-back.mp4", 1603363100),
        file("/clips/2020-10-22_10-37-28/2020-10-22_10-37-35-back.mp4", 1603363200),
        file("/clips/2020-10-22_10-37-28/2020-10-22_10-37-28-front.mp4", 1603363150),
        file("/clips/2020-10-22_10-37-28/notes.txt", 1603369999),
    ]
}

fn starts(files: &Vec<&sentry_mosaic::camera::CameraFile>) -> Vec<String> {
    files.iter().map(|f| f.start_time().format()).collect()
}

#[test]
fn catalog_of_an_event_folder() {
    let clip = SentryClip::from_folder("/clips/2020-10-22_10-37-28", &sample_entries()).unwrap();
    assert_eq!(clip.clips().len(), 3);
    assert!(!clip.is_empty());
    assert_eq!(
        clip.skipped(),
        &vec![
            Skipped {
                path: "/clips/2020-10-22_10-37-28/notes.txt".to_string(),
                reason: ClipError::FilenameGrammar
            }
        ]
    );
    let back = clip.files_per_camera(&Camera::Back);
    assert_eq!(starts(&back), vec!["2020-10-22_10-37-30", "2020-10-22_10-37-35"]);
    let front = clip.files_per_camera(&Camera::Front);
    assert_eq!(starts(&front), vec!["2020-10-22_10-37-28"]);
    assert!(clip.files_per_camera(&Camera::Left).is_empty());
    assert!(clip.files_per_camera(&Camera::Right).is_empty());
    assert_eq!(clip.when().format(), "2020-10-22_10-37-28");
    assert_eq!(clip.folder(), "/clips/2020-10-22_10-37-28");
}

#[test]
fn the_catalog_is_in_the_order_of_start_times() {
    let clip = SentryClip::from_folder("/clips/2020-10-22_10-37-28", &sample_entries()).unwrap();
    let order: Vec<String> = clip.clips().iter().map(|f| f.start_time().format()).collect();
    assert_eq!(order, vec!["2020-10-22_10-37-28", "2020-10-22_10-37-30", "2020-10-22_10-37-35"]);
    let cameras: Vec<Camera> = clip.clips().iter().map(|f| f.camera()).collect();
    assert_eq!(cameras, vec![Camera::Front, Camera::Back, Camera::Back]);
}

#[test]
fn clips_of_one_start_time_keep_the_order_of_the_listing() {
    let entries = vec![
        file("/e/2020-10-22_10-37-40-right_repeater.mp4", 5),
        file("/e/2020-10-22_10-37-30-left_repeater.mp4", 5),
        file("/e/2020-10-22_10-37-30-back.mp4", 5),
        file("/e/2020-10-22_10-37-40-front.mp4", 5),
        file("/e/2020-10-22_10-37-30-front.mp4", 5),
        file("/e/2020-10-22_10-37-20-right_repeater.mp4", 5),
    ];
    let catalog = process_folder(&entries);
    let order: Vec<(String, Camera)> =
        catalog.clips.iter().map(|f| (f.start_time().format(), f.camera())).collect();
    assert_eq!(
        order,
        vec![
            ("2020-10-22_10-37-20".to_string(), Camera::Right),
            ("2020-10-22_10-37-30".to_string(), Camera::Left),
            ("2020-10-22_10-37-30".to_string(), Camera::Back),
            ("2020-10-22_10-37-30".to_string(), Camera::Front),
            ("2020-10-22_10-37-40".to_string(), Camera::Right),
            ("2020-10-22_10-37-40".to_string(), Camera::Front),
        ]
    );
}

#[test]
fn a_long_listing_in_reverse_comes_out_in_order() {
    let mut entries = Vec::new();
    for minute in (0..60).rev() {
        for second in (0..60).rev().step_by(7) {
            entries.push(file(format!("/e/2020-10-22_10-{:02}-{:02}-back.mp4", minute, second).as_str(), 1));
        }
    }
    let catalog = process_folder(&entries);
    assert_eq!(catalog.clips.len(), entries.len());
    for i in 1..catalog.clips.len() {
        assert!(catalog.clips[i - 1].start_time().ordinal() <= catalog.clips[i].start_time().ordinal());
    }
}

#[test]
fn valid_and_invalid_entries_are_counted_apart() {
    let entries = vec![
        file("/e/2020-10-22_10-37-30-back.mp4", 10),
        file("/e/notes.txt", 10),
        file("/e/2020-10-22_10-37-31-front.mp4", 10),
        file("/e/2020-10-22_10-37-31-rear.mp4", 10),
        file("/e/2021-02-29_10-37-31-front.mp4", 10),
        FolderEntry { path: "/e/2020-10-22_10-37-32-front.mp4".to_string(), regular_file: false, modified: Some(1) },
        FolderEntry { path: "/e/2020-10-22_10-37-33-front.mp4".to_string(), regular_file: true, modified: None },
        file("/e/2020-10-22_10-37-29-left_repeater.mp4", 10),
    ];
    let catalog = process_folder(&entries);
    assert_eq!(catalog.clips.len(), 3);
    assert_eq!(catalog.skipped.len(), 5);
    let reasons: Vec<(String, ClipError)> = catalog.skipped.iter().map(|s| (s.path.clone(), s.reason)).collect();
    assert_eq!(
        reasons,
        vec![
            ("/e/notes.txt".to_string(), ClipError::FilenameGrammar),
            ("/e/2020-10-22_10-37-31-rear.mp4".to_string(), ClipError::UnknownCameraToken),
            ("/e/2021-02-29_10-37-31-front.mp4".to_string(), ClipError::TimestampParse),
            ("/e/2020-10-22_10-37-32-front.mp4".to_string(), ClipError::Filesystem),
            ("/e/2020-10-22_10-37-33-front.mp4".to_string(), ClipError::Filesystem),
        ]
    );
}

#[test]
fn an_entry_that_is_no_file_fails_before_its_name_is_read() {
    let entries = vec![FolderEntry { path: "/e/notes.txt".to_string(), regular_file: false, modified: None }];
    let catalog = process_folder(&entries);
    assert_eq!(catalog.skipped[0].reason, ClipError::Filesystem);
    let entries = vec![FolderEntry { path: "/e/notes.txt".to_string(), regular_file: true, modified: None }];
    let catalog = process_folder(&entries);
    assert_eq!(catalog.skipped[0].reason, ClipError::FilenameGrammar);
}

#[test]
fn last_modified_is_the_latest_among_the_clips() {
    let clip = SentryClip::from_folder("/clips/2020-10-22_10-37-28", &sample_entries()).unwrap();
    assert_eq!(clip.last_modified(), Some(1603363200));
    let catalog = process_folder(&vec![file("/e/2020-10-22_10-37-30-back.mp4", -5), file("/e/x.txt", 99)]);
    assert_eq!(catalog.last_modified, Some(-5));
}

#[test]
fn a_folder_without_clips_is_an_empty_event() {
    let clip = SentryClip::from_folder("/clips/2020-10-22_10-37-28", &Vec::new()).unwrap();
    assert!(clip.is_empty());
    assert_eq!(clip.last_modified(), None);
    assert!(clip.skipped().is_empty());
    let only_notes = SentryClip::from_folder("/clips/2020-10-22_10-37-28", &vec![file("/e/notes.txt", 7)]).unwrap();
    assert!(only_notes.is_empty());
    assert_eq!(only_notes.last_modified(), None);
    assert_eq!(only_notes.skipped().len(), 1);
}

#[test]
fn a_folder_that_is_not_named_after_a_moment_is_no_event() {
    for folder in vec!["/clips/holiday", "/clips/2020-10-22", "/clips/2021-02-29_10-37-28", "/clips/", ""] {
        match SentryClip::from_folder(folder, &sample_entries()) {
            Ok(_) => panic!("{} became an event", folder),
            Err(e) => assert_eq!(e, ClipError::TimestampParse),
        }
    }
}

#[test]
fn the_mosaic_stands_beside_the_event_folder() {
    let clip = SentryClip::from_folder("/clips/2020-10-22_10-37-28", &sample_entries()).unwrap();
    assert_eq!(clip.mosaic_file(), Ok("/clips/2020-10-22_10-37-28-mosaic.mp4".to_string()));
    let at_root = SentryClip::from_folder("/2020-10-22_10-37-28", &Vec::new()).unwrap();
    assert_eq!(at_root.mosaic_file(), Ok("/2020-10-22_10-37-28-mosaic.mp4".to_string()));
    let relative = SentryClip::from_folder("clips/2020-10-22_10-37-28", &Vec::new()).unwrap();
    assert_eq!(relative.mosaic_file(), Ok("clips/2020-10-22_10-37-28-mosaic.mp4".to_string()));
}

#[test]
fn a_folder_without_a_parent_has_no_place_for_a_mosaic() {
    let clip = SentryClip::from_folder("2020-10-22_10-37-28", &sample_entries()).unwrap();
    assert_eq!(clip.mosaic_file(), Err(ClipError::PathConstruction));
}
