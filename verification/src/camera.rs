//! The four camera angles, and the clips recorded from them as their file
//! names describe them.

use vstd::prelude::*;
use vstd::string::*;
use crate::error::ClipError;
use crate::formats::{has_stamp_shape, is_stamp_shape, parse_spec, parse_tesla_timestamp, readable_spec, stamp_fields};
use crate::formats::{Civil, Timestamp};
use crate::paths::{extension_of, file_name, file_name_of, find_last, lemma_last_index_of, stem_of};
use crate::text::same_text;

verus! {

/// One of the four fixed recording positions.
#[derive(Clone, Copy, Debug, PartialEq, Eq, Structural)]
pub enum Camera {
    Back,
    Front,
    Right,
    Left,
}

/// The camera that a token names, if it is one of the four tokens exactly.
pub open spec fn camera_of_token(token: Seq<char>) -> Option<Camera> {
    if token == Camera::Back.token() {
        Some(Camera::Back)
    } else if token == Camera::Front.token() {
        Some(Camera::Front)
    } else if token == Camera::Left.token() {
        Some(Camera::Left)
    } else if token == Camera::Right.token() {
        Some(Camera::Right)
    } else {
        None
    }
}

/// The four angles in their fixed order.
pub open spec fn camera_order() -> Seq<Camera> {
    seq![Camera::Back, Camera::Front, Camera::Left, Camera::Right]
}

/// A token names the camera whose token it is, and no other text names one.
pub proof fn lemma_camera_of_token(token: Seq<char>, camera: Camera)
    ensures
        camera_of_token(token) == Some(camera) <==> token == camera.token(),
        camera_of_token(camera.token()) == Some(camera),
{
    reveal_strlit("back");
    reveal_strlit("front");
    reveal_strlit("left_repeater");
    reveal_strlit("right_repeater");
    assert(Camera::Back.token()[0] == 'b');
    assert(Camera::Front.token()[0] == 'f');
    assert(Camera::Left.token()[0] == 'l');
    assert(Camera::Right.token()[0] == 'r');
}

impl Camera {
    /// The lowercase token that names this angle inside a clip's file name.
    pub open spec fn token(self) -> Seq<char> {
        match self {
            Camera::Back => "back"@,
            Camera::Front => "front"@,
            Camera::Right => "right_repeater"@,
            Camera::Left => "left_repeater"@,
        }
    }

    /// The name of this angle for people to read.
    pub open spec fn label(self) -> Seq<char> {
        match self {
            Camera::Back => "Back"@,
            Camera::Front => "Front"@,
            Camera::Right => "Right"@,
            Camera::Left => "Left"@,
        }
    }

    /// The place of this angle in the fixed order: 0 for the back camera, then
    /// front, left and right.
    pub open spec fn position(self) -> int {
        match self {
            Camera::Back => 0,
            Camera::Front => 1,
            Camera::Left => 2,
            Camera::Right => 3,
        }
    }

    /// The angle that follows this one in the fixed order, if any.
    pub open spec fn following(self) -> Option<Camera> {
        match self {
            Camera::Back => Some(Camera::Front),
            Camera::Front => Some(Camera::Left),
            Camera::Left => Some(Camera::Right),
            Camera::Right => None,
        }
    }

    /// The four angles in their fixed order: back, front, left, right.
    pub fn all_cameras() -> (r: Vec<Camera>)
        ensures
            r@ == camera_order(),
    {
        let r = vec![Camera::Back, Camera::Front, Camera::Left, Camera::Right];
        assert(r@ =~= camera_order());
        r
    }

    /// The angle that a file-name token names. The match is exact and
    /// case-sensitive; any other text names no camera.
    pub fn from(name: &str) -> (r: Option<Camera>)
        ensures
            r == camera_of_token(name@),
    {
        if same_text(name, "back") {
            Some(Camera::Back)
        } else if same_text(name, "front") {
            Some(Camera::Front)
        } else if same_text(name, "left_repeater") {
            Some(Camera::Left)
        } else if same_text(name, "right_repeater") {
            Some(Camera::Right)
        } else {
            None
        }
    }

    /// The token of this angle as used in file names.
    pub fn camera_file_name(&self) -> (r: &'static str)
        ensures
            r@ == self.token(),
    {
        match self {
            Camera::Back => "back",
            Camera::Front => "front",
            Camera::Right => "right_repeater",
            Camera::Left => "left_repeater",
        }
    }

    /// The name of this angle for people to read.
    pub fn display_name(&self) -> (r: &'static str)
        ensures
            r@ == self.label(),
    {
        match self {
            Camera::Back => "Back",
            Camera::Front => "Front",
            Camera::Right => "Right",
            Camera::Left => "Left",
        }
    }

    /// The angle that follows this one in the fixed order, if any.
    pub fn successor(&self) -> (r: Option<Camera>)
        ensures
            r == self.following(),
            match r {
                Some(next) => next.position() == self.position() + 1,
                None => self.position() == 3,
            },
    {
        match self {
            Camera::Back => Some(Camera::Front),
            Camera::Front => Some(Camera::Left),
            Camera::Left => Some(Camera::Right),
            Camera::Right => None,
        }
    }
}

/// What a clip is, as contracts speak of it.
pub struct CameraFileView {
    pub path: Seq<char>,
    pub camera: Camera,
    pub start_time: Civil,
}

/// Whether `c` may stand in the token of a file name: a letter of either
/// case, a digit or `_`.
pub open spec fn is_token_char(c: char) -> bool {
    ('a' <= c <= 'z') || ('A' <= c <= 'Z') || ('0' <= c <= '9') || c == '_'
}

/// Whether a file stem has the shape `<timestamp>-<token>`: nineteen
/// characters in the shape of a timestamp, a `-`, and a token of one or more
/// token characters, with nothing before or after.
pub open spec fn is_clip_shape(stem: Seq<char>) -> bool {
    &&& stem.len() >= 21
    &&& is_stamp_shape(stem.subrange(0, 19))
    &&& stem[19] == '-'
    &&& forall|i: int| 20 <= i < stem.len() ==> is_token_char(#[trigger] stem[i])
}

/// What the path of a file says of it: the clip it names, or the reason why
/// it names none.
pub open spec fn clip_name_verdict(path: Seq<char>) -> Result<CameraFileView, ClipError> {
    let name = file_name_of(path);
    let stem = stem_of(name);
    if extension_of(name) != Some("mp4"@) || !is_clip_shape(stem) {
        Err(ClipError::FilenameGrammar)
    } else if parse_spec(stem.subrange(0, 19)).is_none() {
        Err(ClipError::TimestampParse)
    } else if camera_of_token(stem.subrange(20, stem.len() as int)).is_none() {
        Err(ClipError::UnknownCameraToken)
    } else {
        Ok(
            CameraFileView {
                path: path,
                camera: camera_of_token(stem.subrange(20, stem.len() as int)).unwrap(),
                start_time: stamp_fields(stem.subrange(0, 19)),
            },
        )
    }
}

/// A clip in one line for people to read: its path, its start time and the
/// name of its camera.
pub open spec fn describe_spec(file: CameraFileView) -> Seq<char> {
    file.path + " - "@ + readable_spec(file.start_time) + " - "@ + file.camera.label()
}

/// A file name that lacks the shape `<timestamp>-<token>.mp4`, spells a
/// moment that does not exist or names no known camera yields no clip but
/// the reason, and only such a name is refused.
pub proof fn lemma_grammar_rejection(path: Seq<char>)
    ensures
        ({
            let name = file_name_of(path);
            let stem = stem_of(name);
            let shaped = extension_of(name) == Some("mp4"@) && is_clip_shape(stem);
            let timed = parse_spec(stem.subrange(0, 19)).is_some();
            let known = camera_of_token(stem.subrange(20, stem.len() as int)).is_some();
            &&& !shaped ==> clip_name_verdict(path) == Err::<CameraFileView, ClipError>(ClipError::FilenameGrammar)
            &&& shaped && !timed ==> clip_name_verdict(path) == Err::<CameraFileView, ClipError>(
                ClipError::TimestampParse,
            )
            &&& shaped && timed && !known ==> clip_name_verdict(path) == Err::<CameraFileView, ClipError>(
                ClipError::UnknownCameraToken,
            )
            &&& clip_name_verdict(path).is_ok() <==> shaped && timed && known
            &&& clip_name_verdict(path) matches Ok(file) ==> file.path == path && stem.subrange(
                20,
                stem.len() as int,
            ) == file.camera.token() && parse_spec(stem.subrange(0, 19)) == Some(file.start_time)
        }),
{
    let stem = stem_of(file_name_of(path));
    let token = stem.subrange(20, stem.len() as int);
    if let Some(camera) = camera_of_token(token) {
        lemma_camera_of_token(token, camera);
    }
}

/// One clip: where it lies, which camera recorded it and when it starts.
/// A value exists only for a path whose name follows the grammar.
#[derive(Debug, PartialEq, Eq)]
pub struct CameraFile {
    path: String,
    camera: Camera,
    start_time: Timestamp,
}

impl View for CameraFile {
    type V = CameraFileView;

    closed spec fn view(&self) -> CameraFileView {
        CameraFileView { path: self.path@, camera: self.camera, start_time: self.start_time@ }
    }
}

/// Executable form of [`is_token_char`].
fn check_token_char(c: char) -> (r: bool)
    ensures
        r == is_token_char(c),
{
    ('a' <= c && c <= 'z') || ('A' <= c && c <= 'Z') || ('0' <= c && c <= '9') || c == '_'
}

/// Executable form of [`is_clip_shape`].
fn has_clip_shape(stem: &str) -> (r: bool)
    ensures
        r == is_clip_shape(stem@),
{
    let n: usize = stem.unicode_len();
    if n < 21 {
        return false;
    }
    if !has_stamp_shape(stem.substring_char(0, 19)) {
        return false;
    }
    if stem.get_char(19) != '-' {
        return false;
    }
    let mut i: usize = 20;
    while i < n
        invariant
            20 <= i <= n,
            n == stem@.len(),
            forall|j: int| 20 <= j < i ==> is_token_char(#[trigger] stem@[j]),
        decreases n - i,
    {
        if !check_token_char(stem.get_char(i)) {
            return false;
        }
        i += 1;
    }
    true
}

impl CameraFile {
    /// The camera and the start time are those that the path's name spells.
    #[verifier::type_invariant]
    spec fn well_formed(self) -> bool {
        clip_name_verdict(self.path@) == Ok::<CameraFileView, ClipError>(self@)
    }

    /// Reads a clip from the path of its file. The name must be
    /// `<timestamp>-<token>.mp4` with a timestamp that exists and one of the
    /// four camera tokens; anything else is an error, told apart by kind.
    pub fn from(path: &str) -> (r: Result<CameraFile, ClipError>)
        ensures
            match r {
                Ok(file) => clip_name_verdict(path@) == Ok::<CameraFileView, ClipError>(file@),
                Err(e) => clip_name_verdict(path@) == Err::<CameraFileView, ClipError>(e),
            },
    {
        let name = file_name(path);
        let name_len: usize = name.as_str().unicode_len();
        proof {
            lemma_last_index_of(name@, '.');
        }
        let dot: usize = match find_last(name.as_str(), '.') {
            Some(dot) => dot,
            None => {
                return Err(ClipError::FilenameGrammar);
            },
        };
        if dot == 0 {
            return Err(ClipError::FilenameGrammar);
        }
        if !same_text(name.as_str().substring_char(dot + 1, name_len), "mp4") {
            return Err(ClipError::FilenameGrammar);
        }
        let stem = name.as_str().substring_char(0, dot);
        if !has_clip_shape(stem) {
            return Err(ClipError::FilenameGrammar);
        }
        let stem_len: usize = stem.unicode_len();
        let start_time = match parse_tesla_timestamp(stem.substring_char(0, 19)) {
            Ok(t) => t,
            Err(e) => {
                return Err(ClipError::TimestampParse);
            },
        };
        let camera = match Camera::from(stem.substring_char(20, stem_len)) {
            Some(c) => c,
            None => {
                return Err(ClipError::UnknownCameraToken);
            },
        };
        Ok(CameraFile { path: String::from_str(path), camera, start_time })
    }

    /// The clip in one line for people to read.
    pub fn describe(&self) -> (r: String)
        ensures
            r@ == describe_spec(self@),
    {
        let mut r = String::from_str(self.path.as_str());
        r.append(" - ");
        r.append(self.start_time.readable().as_str());
        r.append(" - ");
        r.append(self.camera.display_name());
        assert(r@ =~= describe_spec(self@));
        r
    }

    /// The path the clip was read from.
    pub fn path(&self) -> (r: &str)
        ensures
            r@ == self@.path,
    {
        self.path.as_str()
    }

    /// The camera that recorded the clip.
    pub fn camera(&self) -> (r: Camera)
        ensures
            r == self@.camera,
    {
        self.camera
    }

    /// The moment the clip starts at.
    pub fn start_time(&self) -> (r: Timestamp)
        ensures
            r@ == self@.start_time,
            clip_name_verdict(self@.path) == Ok::<CameraFileView, ClipError>(self@),
    {
        proof {
            use_type_invariant(self);
        }
        self.start_time
    }
}

} // verus!
