use sentry_mosaic::camera::{Camera, CameraFile};
use sentry_mosaic::error::ClipError;

#[test]
fn cameras_come_in_their_fixed_order() {
    assert_eq!(Camera::all_cameras(), vec![Camera::Back, Camera::Front, Camera::Left, Camera::Right]);
}

#[test]
fn each_token_names_its_camera() {
    assert_eq!(Camera::from("back"), Some(Camera::Back));
    assert_eq!(Camera::from("front"), Some(Camera::Front));
    assert_eq!(Camera::from("left_repeater"), Some(Camera::Left));
    assert_eq!(Camera::from("right_repeater"), Some(Camera::Right));
}

#[test]
fn token_and_camera_are_inverse() {
    for camera in Camera::all_cameras() {
        assert_eq!(Camera::from(camera.camera_file_name()), Some(camera));
    }
}

#[test]
fn other_texts_name_no_camera() {
    for name in vec!["", "Back", "BACK", "back ", " back", "left", "right", "left_repeater2", "rear", "fron"] {
        assert_eq!(Camera::from(name), None);
    }
}

#[test]
fn tokens_and_display_names() {
    assert_eq!(Camera::Back.camera_file_name(), "back");
    assert_eq!(Camera::Front.camera_file_name(), "front");
    assert_eq!(Camera::Left.camera_file_name(), "left_repeater");
    assert_eq!(Camera::Right.camera_file_name(), "right_repeater");
    assert_eq!(Camera::Back.display_name(), "Back");
    assert_eq!(Camera::Front.display_name(), "Front");
    assert_eq!(Camera::Left.display_name(), "Left");
    assert_eq!(Camera::Right.display_name(), "Right");
}

#[test]
fn successor_walks_the_fixed_order() {
    assert_eq!(Camera::Back.successor(), Some(Camera::Front));
    assert_eq!(Camera::Front.successor(), Some(Camera::Left));
    assert_eq!(Camera::Left.successor(), Some(Camera::Right));
    assert_eq!(Camera::Right.successor(), None);
}

#[test]
fn a_clip_is_read_from_its_path() {
    let file = CameraFile::from("/clips/2020-10-22_10-37-28/2020-10-22_10-37-30-back.mp4").unwrap();
    assert_eq!(file.path(), "/clips/2020-10-22_10-37-28/2020-10-22_10-37-30-back.mp4");
    assert_eq!(file.camera(), Camera::Back);
    assert_eq!(file.start_time().format(), "2020-10-22_10-37-30");
    assert_eq!(file.start_time().unix_seconds(), 1603363050);
}

#[test]
fn a_clip_is_described_in_one_line() {
    let file = CameraFile::from("/e/2020-10-22_10-37-30-left_repeater.mp4").unwrap();
    assert_eq!(file.describe(), "/e/2020-10-22_10-37-30-left_repeater.mp4 - 2020-10-22 10:37:30 - Left");
    let moment = chrono::DateTime::from_timestamp(file.start_time().unix_seconds(), 0).unwrap().naive_utc();
    assert_eq!(file.start_time().readable(), moment.to_string());
}

#[test]
fn every_camera_token_is_read() {
    assert_eq!(CameraFile::from("2020-10-22_10-37-30-front.mp4").unwrap().camera(), Camera::Front);
    assert_eq!(CameraFile::from("2020-10-22_10-37-30-left_repeater.mp4").unwrap().camera(), Camera::Left);
    assert_eq!(CameraFile::from("e/2020-10-22_10-37-30-right_repeater.mp4").unwrap().camera(), Camera::Right);
}

fn refusal(path: &str) -> ClipError {
    match CameraFile::from(path) {
        Ok(_) => panic!("{} was read as a clip", path),
        Err(e) => e,
    }
}

#[test]
fn names_outside_the_shape_are_grammar_errors() {
    for path in vec![
        "notes.txt",
        "/e/notes.mp4",
        "/e/2020-10-22_10-37-30.mp4",
        "/e/2020-10-22_10-37-30-.mp4",
        "/e/2020-10-22_10-37-30_back.mp4",
        "/e/2020-10-22_10-37-3-back.mp4",
        "/e/x2020-10-22_10-37-30-back.mp4",
        "/e/2020-10-22_10-37-30-back-2.mp4",
        "/e/2020-10-22_10-37-30-back copy.mp4",
        "/e/2020-10-22_10-37-30-back.tmp.mp4",
        "/e/.mp4",
        "/e/",
        "",
    ] {
        assert_eq!(refusal(path), ClipError::FilenameGrammar);
    }
}

#[test]
fn another_extension_is_a_grammar_error() {
    for path in vec![
        "/e/2020-10-22_10-37-30-back.MP4",
        "/e/2020-10-22_10-37-30-back.mov",
        "/e/2020-10-22_10-37-30-back",
        "/e/2020-10-22_10-37-30-back.mp4.part",
        "/e/2020-10-22_10-37-30-back.",
    ] {
        assert_eq!(refusal(path), ClipError::FilenameGrammar);
    }
}

#[test]
fn a_moment_that_does_not_exist_is_a_timestamp_error() {
    assert_eq!(refusal("/e/2021-02-29_10-37-30-back.mp4"), ClipError::TimestampParse);
    assert_eq!(refusal("/e/2020-10-22_25-37-30-front.mp4"), ClipError::TimestampParse);
    assert_eq!(refusal("/e/2020-10-22_10-37-61-nobody.mp4"), ClipError::TimestampParse);
}

#[test]
fn an_unknown_token_is_its_own_error() {
    assert_eq!(refusal("/e/2020-10-22_10-37-30-rear.mp4"), ClipError::UnknownCameraToken);
    assert_eq!(refusal("/e/2020-10-22_10-37-30-Back.mp4"), ClipError::UnknownCameraToken);
    assert_eq!(refusal("/e/2020-10-22_10-37-30-back2.mp4"), ClipError::UnknownCameraToken);
    assert_eq!(refusal("/e/2020-10-22_10-37-30-left.mp4"), ClipError::UnknownCameraToken);
}

#[test]
fn the_pattern_of_the_grammar_agrees_on_whole_names() {
    let pattern = regex::Regex::new(r"^(\d{4}-\d{2}-\d{2}_\d{2}-\d{2}-\d{2})-([a-zA-Z0-9_]+)$").unwrap();
    for stem in vec![
        "2020-10-22_10-37-30-back",
        "2020-10-22_10-37-30-rear",
        "2021-02-29_10-37-30-back",
        "2020-10-22_10-37-30-",
        "2020-10-22_10-37-30",
        "x2020-10-22_10-37-30-back",
        "2020-10-22_10-37-30-back-2",
        "2020-10-22 10-37-30-back",
        "notes",
    ] {
        let path = format!("/e/{}.mp4", stem);
        let shaped = CameraFile::from(path.as_str()) != Err(ClipError::FilenameGrammar);
        assert_eq!(shaped, pattern.is_match(stem), "{}", stem);
    }
}
