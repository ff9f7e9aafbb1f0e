//! The run of one event, step by step. The library decides what is done
//! next and hands it out as an [`Action`]; the caller performs it and reports
//! how it went; from the report the library decides the next step.
//!
//! An event without clips, one whose clips were modified within the last
//! fifteen minutes, and one whose mosaic already stands are skipped. For the
//! others the clips of each camera are joined, a camera without clips or
//! with a failed step being left out, and the joined videos are composed
//! into the mosaic, which is written beside its place and moved there once
//! it is whole.

use vstd::prelude::*;
use vstd::string::*;
use crate::camera::Camera;
use crate::clip::{concat_job, mosaic_job, mosaic_name, mosaic_path, ClipView, SentryClip};
use crate::formats::Civil;
use crate::error::ClipError;
use crate::mosaic::{hidden_file, hidden_path, input_views, lemma_hidden_differs};
use crate::playlist::{concat_args, concat_arguments, merged_file, merged_name, merged_path, playlist_file};
use crate::playlist::playlist_path;
use crate::text::texts;

verus! {

/// For how many seconds after its last modification an event is left alone:
/// the recorder may still be writing.
pub const FRESHNESS_SECONDS: i64 = 900;

/// Why an event is not touched.
#[derive(Clone, Copy, Debug, PartialEq, Eq, Structural)]
pub enum SkipReason {
    /// The event has no clips.
    Empty,
    /// The clips were modified less than fifteen minutes ago.
    TooRecent,
    /// The mosaic of the event exists already.
    AlreadyProcessed,
}

/// Where the run of an event stands. Each phase but the last three waits for
/// the report on the action that led into it.
#[derive(Clone, Copy, Debug, PartialEq, Eq, Structural)]
pub enum Phase {
    /// Nothing is done for the event.
    Skipped(SkipReason),
    /// Asked whether the mosaic exists.
    ProbeMosaic,
    /// Writing the playlist of a camera.
    WritePlaylist(Camera),
    /// Asked whether a joined video was left over from an earlier run.
    ProbeStale(Camera),
    /// Deleting the joined video left over.
    RemoveStale(Camera),
    /// The video tool joins the clips of a camera.
    Join(Camera),
    /// Deleting the playlist of a camera.
    DropPlaylist(Camera),
    /// The video tool composes the mosaic.
    Compose,
    /// Moving the mosaic to its place.
    Publish,
    /// Deleting the joined video of a camera.
    Cleanup(Camera),
    /// The mosaic stands.
    Done,
    /// The event was given up.
    Failed(ClipError),
}

/// Of which cameras a joined video was made in this run.
#[derive(Clone, Copy, Debug, PartialEq, Eq, Structural)]
pub struct Joined {
    pub back: bool,
    pub front: bool,
    pub left: bool,
    pub right: bool,
}

/// The state of a run: its phase, and what was joined so far.
#[derive(Clone, Copy, Debug, PartialEq, Eq, Structural)]
pub struct Progress {
    pub phase: Phase,
    pub joined: Joined,
}

/// The time of a run.
#[derive(Debug, PartialEq, Eq)]
pub struct Clock {
    /// Seconds since 1970-01-01 00:00:00 UTC.
    pub unix: i64,
    /// The same time as text, for the names of playlists.
    pub stamp: String,
}

/// One thing for the caller to do. The report on it is `true` where a probed
/// file exists and where any other action succeeded.
#[derive(Clone, Debug, PartialEq, Eq)]
pub enum Action {
    /// Find out whether a file exists at the path.
    Probe { path: String },
    /// Write the text to a new file at the path.
    Write { path: String, text: String },
    /// Delete the file at the path.
    Remove { path: String },
    /// Run the video tool with the arguments and wait for it.
    Run { args: Vec<String> },
    /// Move the file to its new path in one step.
    Rename { from: String, to: String },
    /// Nothing: the run has ended.
    Stop,
}

/// An [`Action`] as contracts speak of it.
pub enum ActionView {
    Probe { path: Seq<char> },
    Write { path: Seq<char>, text: Seq<char> },
    Remove { path: Seq<char> },
    Run { args: Seq<Seq<char>> },
    Rename { from: Seq<char>, to: Seq<char> },
    Stop,
}

impl View for Action {
    type V = ActionView;

    open spec fn view(&self) -> ActionView {
        match self {
            Action::Probe { path } => ActionView::Probe { path: path@ },
            Action::Write { path, text } => ActionView::Write { path: path@, text: text@ },
            Action::Remove { path } => ActionView::Remove { path: path@ },
            Action::Run { args } => ActionView::Run { args: texts(args@) },
            Action::Rename { from, to } => ActionView::Rename { from: from@, to: to@ },
            Action::Stop => ActionView::Stop,
        }
    }
}

impl Phase {
    /// Whether the run has ended.
    pub open spec fn is_final(self) -> bool {
        self is Skipped || self is Done || self is Failed
    }

    /// Whether the run has ended.
    pub fn ended(&self) -> (r: bool)
        ensures
            r == self.is_final(),
    {
        match self {
            Phase::Skipped(_) => true,
            Phase::Done => true,
            Phase::Failed(_) => true,
            _ => false,
        }
    }
}

impl Joined {
    /// No camera joined yet.
    pub open spec fn nothing() -> Joined {
        Joined { back: false, front: false, left: false, right: false }
    }

    /// Whether a joined video of the camera was made.
    pub open spec fn has(self, camera: Camera) -> bool {
        match camera {
            Camera::Back => self.back,
            Camera::Front => self.front,
            Camera::Left => self.left,
            Camera::Right => self.right,
        }
    }

    /// The same with the mark of one camera set to `made`.
    pub open spec fn with(self, camera: Camera, made: bool) -> Joined {
        match camera {
            Camera::Back => Joined { back: made, ..self },
            Camera::Front => Joined { front: made, ..self },
            Camera::Left => Joined { left: made, ..self },
            Camera::Right => Joined { right: made, ..self },
        }
    }

    /// No camera joined yet.
    pub fn none() -> (r: Joined)
        ensures
            r == Joined::nothing(),
    {
        Joined { back: false, front: false, left: false, right: false }
    }

    /// Whether a joined video of the camera was made.
    pub fn holds(&self, camera: &Camera) -> (r: bool)
        ensures
            r == self.has(*camera),
    {
        match camera {
            Camera::Back => self.back,
            Camera::Front => self.front,
            Camera::Left => self.left,
            Camera::Right => self.right,
        }
    }

    /// The same with the mark of one camera set to `made`.
    pub fn marked(&self, camera: &Camera, made: bool) -> (r: Joined)
        ensures
            r == self.with(*camera, made),
    {
        match camera {
            Camera::Back => Joined { back: made, front: self.front, left: self.left, right: self.right },
            Camera::Front => Joined { back: self.back, front: made, left: self.left, right: self.right },
            Camera::Left => Joined { back: self.back, front: self.front, left: made, right: self.right },
            Camera::Right => Joined { back: self.back, front: self.front, left: self.left, right: made },
        }
    }
}

/// The joined video of one camera as an input of the mosaic, if it was made.
pub open spec fn joined_input(clip: ClipView, joined: Joined, camera: Camera) -> Seq<(Seq<char>, Camera)> {
    if joined.has(camera) {
        seq![(merged_path(clip.folder, clip.when, camera), camera)]
    } else {
        Seq::empty()
    }
}

/// The inputs of the mosaic: the joined videos that were made, in the fixed
/// order of the cameras.
pub open spec fn joined_inputs(clip: ClipView, joined: Joined) -> Seq<(Seq<char>, Camera)> {
    joined_input(clip, joined, Camera::Back) + joined_input(clip, joined, Camera::Front) + joined_input(
        clip,
        joined,
        Camera::Left,
    ) + joined_input(clip, joined, Camera::Right)
}

/// The measure by which the walk through the cameras ends.
pub open spec fn cameras_left(from: Option<Camera>) -> int {
    match from {
        Some(camera) => 4 - camera.position(),
        None => 0,
    }
}

/// The step into composing: the video tool is run on the joined videos.
/// Without a place for the mosaic the event is given up.
pub open spec fn to_compose(clip: ClipView, joined: Joined) -> (Progress, ActionView) {
    match mosaic_path(clip.folder, clip.when) {
        Some(target) => match mosaic_job(clip, joined_inputs(clip, joined), target) {
            Ok(job) => (Progress { phase: Phase::Compose, joined }, ActionView::Run { args: job.args }),
            Err(e) => (Progress { phase: Phase::Failed(e), joined }, ActionView::Stop),
        },
        None => (Progress { phase: Phase::Failed(ClipError::PathConstruction), joined }, ActionView::Stop),
    }
}

/// The step into the first camera from `from` on that has clips: its
/// playlist is written. Where no camera is left, composing begins.
pub open spec fn to_cameras(clip: ClipView, stamp: Seq<char>, joined: Joined, from: Option<Camera>) -> (
    Progress,
    ActionView,
)
    decreases cameras_left(from),
{
    match from {
        Some(camera) => match concat_job(clip, camera, stamp) {
            Some(job) => (
                Progress { phase: Phase::WritePlaylist(camera), joined },
                ActionView::Write { path: job.playlist, text: job.listing },
            ),
            None => to_cameras(clip, stamp, joined, camera.following()),
        },
        None => to_compose(clip, joined),
    }
}

/// The step into deleting the joined video of the first camera from `from` on
/// that has one. Where none is left, the run is done.
pub open spec fn to_cleanup(clip: ClipView, joined: Joined, from: Option<Camera>) -> (Progress, ActionView)
    decreases cameras_left(from),
{
    match from {
        Some(camera) => if joined.has(camera) {
            (
                Progress { phase: Phase::Cleanup(camera), joined },
                ActionView::Remove { path: merged_path(clip.folder, clip.when, camera) },
            )
        } else {
            to_cleanup(clip, joined, camera.following())
        },
        None => (Progress { phase: Phase::Done, joined }, ActionView::Stop),
    }
}

/// How the run of an event begins at the time `unix`: with the question
/// whether the mosaic exists, unless the event is empty or too recent, in
/// this order, or has no place for a mosaic.
pub open spec fn first_step(clip: ClipView, unix: int) -> (Progress, ActionView) {
    let joined = Joined::nothing();
    if clip.clips.len() == 0 {
        (Progress { phase: Phase::Skipped(SkipReason::Empty), joined }, ActionView::Stop)
    } else if clip.last_modified matches Some(modified) && modified + FRESHNESS_SECONDS > unix {
        (Progress { phase: Phase::Skipped(SkipReason::TooRecent), joined }, ActionView::Stop)
    } else {
        match mosaic_path(clip.folder, clip.when) {
            Some(target) => (Progress { phase: Phase::ProbeMosaic, joined }, ActionView::Probe { path: target }),
            None => (Progress { phase: Phase::Failed(ClipError::PathConstruction), joined }, ActionView::Stop),
        }
    }
}

/// How the run goes on from `at` when the action that led there is reported
/// as `reply`: the state it comes to and the action to perform next.
pub open spec fn next_step(clip: ClipView, stamp: Seq<char>, at: Progress, reply: bool) -> (Progress, ActionView) {
    let joined = at.joined;
    match at.phase {
        Phase::Skipped(_) => (at, ActionView::Stop),
        Phase::Done => (at, ActionView::Stop),
        Phase::Failed(_) => (at, ActionView::Stop),
        Phase::ProbeMosaic => if reply {
            (Progress { phase: Phase::Skipped(SkipReason::AlreadyProcessed), joined }, ActionView::Stop)
        } else {
            to_cameras(clip, stamp, joined, Some(Camera::Back))
        },
        Phase::WritePlaylist(camera) => if reply {
            (
                Progress { phase: Phase::ProbeStale(camera), joined },
                ActionView::Probe { path: merged_path(clip.folder, clip.when, camera) },
            )
        } else {
            (
                Progress { phase: Phase::DropPlaylist(camera), joined },
                ActionView::Remove { path: playlist_path(stamp, clip.when, camera) },
            )
        },
        Phase::ProbeStale(camera) => if reply {
            (
                Progress { phase: Phase::RemoveStale(camera), joined },
                ActionView::Remove { path: merged_path(clip.folder, clip.when, camera) },
            )
        } else {
            (
                Progress { phase: Phase::Join(camera), joined },
                ActionView::Run {
                    args: concat_args(
                        playlist_path(stamp, clip.when, camera),
                        merged_path(clip.folder, clip.when, camera),
                    ),
                },
            )
        },
        Phase::RemoveStale(camera) => if reply {
            (
                Progress { phase: Phase::Join(camera), joined },
                ActionView::Run {
                    args: concat_args(
                        playlist_path(stamp, clip.when, camera),
                        merged_path(clip.folder, clip.when, camera),
                    ),
                },
            )
        } else {
            (
                Progress { phase: Phase::DropPlaylist(camera), joined },
                ActionView::Remove { path: playlist_path(stamp, clip.when, camera) },
            )
        },
        Phase::Join(camera) => (
            Progress { phase: Phase::DropPlaylist(camera), joined: joined.with(camera, reply) },
            ActionView::Remove { path: playlist_path(stamp, clip.when, camera) },
        ),
        Phase::DropPlaylist(camera) => to_cameras(clip, stamp, joined, camera.following()),
        Phase::Compose => if reply {
            match mosaic_path(clip.folder, clip.when) {
                Some(target) => match hidden_path(target) {
                    Some(hidden) => (
                        Progress { phase: Phase::Publish, joined },
                        ActionView::Rename { from: hidden, to: target },
                    ),
                    None => (
                        Progress { phase: Phase::Failed(ClipError::PathConstruction), joined },
                        ActionView::Stop,
                    ),
                },
                None => (Progress { phase: Phase::Failed(ClipError::PathConstruction), joined }, ActionView::Stop),
            }
        } else {
            (Progress { phase: Phase::Failed(ClipError::ExternalTool), joined }, ActionView::Stop)
        },
        Phase::Publish => if reply {
            to_cleanup(clip, joined, Some(Camera::Back))
        } else {
            (Progress { phase: Phase::Failed(ClipError::Filesystem), joined }, ActionView::Stop)
        },
        Phase::Cleanup(camera) => to_cleanup(clip, joined, camera.following()),
    }
}

/// The actions of a run that stands at `at`, one for each report of
/// `replies`, in their order.
pub open spec fn trace(clip: ClipView, stamp: Seq<char>, at: Progress, replies: Seq<bool>) -> Seq<ActionView>
    decreases replies.len(),
{
    if replies.len() == 0 {
        Seq::empty()
    } else {
        let step = next_step(clip, stamp, at, replies.first());
        seq![step.1] + trace(clip, stamp, step.0, replies.drop_first())
    }
}

/// All actions of the run of an event that begins at the time `unix`: the
/// first, and those that the reports lead to.
pub open spec fn actions_of_run(clip: ClipView, unix: int, stamp: Seq<char>, replies: Seq<bool>) -> Seq<
    ActionView,
> {
    seq![first_step(clip, unix).1] + trace(clip, stamp, first_step(clip, unix).0, replies)
}

/// A run that has ended asks for nothing more, whatever is reported to it.
pub proof fn lemma_ended_run_rests(clip: ClipView, stamp: Seq<char>, at: Progress, replies: Seq<bool>)
    requires
        at.phase.is_final(),
    ensures
        trace(clip, stamp, at, replies).len() == replies.len(),
        forall|i: int| 0 <= i < replies.len() ==> trace(clip, stamp, at, replies)[i] == ActionView::Stop,
    decreases replies.len(),
{
    if replies.len() > 0 {
        lemma_ended_run_rests(clip, stamp, at, replies.drop_first());
        assert(next_step(clip, stamp, at, replies.first()) == (at, ActionView::Stop));
    }
}

/// An event without clips is not touched: its run asks for nothing.
pub proof fn lemma_empty_event_untouched(clip: ClipView, unix: int, stamp: Seq<char>, replies: Seq<bool>)
    requires
        clip.clips.len() == 0,
    ensures
        first_step(clip, unix).0.phase == Phase::Skipped(SkipReason::Empty),
        forall|i: int|
            0 <= i < actions_of_run(clip, unix, stamp, replies).len() ==> actions_of_run(
                clip,
                unix,
                stamp,
                replies,
            )[i] == ActionView::Stop,
{
    lemma_ended_run_rests(clip, stamp, first_step(clip, unix).0, replies);
}

/// An event whose clips were modified less than fifteen minutes before the
/// run is not processed: the run is skipped as too recent and asks for
/// nothing, so the video tool is never run.
pub proof fn lemma_fresh_event_untouched(clip: ClipView, unix: int, stamp: Seq<char>, replies: Seq<bool>)
    requires
        clip.last_modified matches Some(modified) && modified + FRESHNESS_SECONDS > unix,
    ensures
        first_step(clip, unix).0.phase is Skipped,
        clip.clips.len() > 0 ==> first_step(clip, unix).0.phase == Phase::Skipped(SkipReason::TooRecent),
        forall|i: int|
            0 <= i < actions_of_run(clip, unix, stamp, replies).len() ==> actions_of_run(
                clip,
                unix,
                stamp,
                replies,
            )[i] == ActionView::Stop,
{
    lemma_ended_run_rests(clip, stamp, first_step(clip, unix).0, replies);
}

/// An event whose mosaic exists already is not processed again: once the
/// question for the mosaic is answered with yes, the run is skipped and asks
/// for nothing more. No action of such a run calls the video tool.
pub proof fn lemma_existing_mosaic_untouched(clip: ClipView, unix: int, stamp: Seq<char>, replies: Seq<bool>)
    requires
        first_step(clip, unix).0.phase == Phase::ProbeMosaic,
        replies.len() > 0,
        replies[0],
    ensures
        next_step(clip, stamp, first_step(clip, unix).0, true).0.phase == Phase::Skipped(
            SkipReason::AlreadyProcessed,
        ),
        actions_of_run(clip, unix, stamp, replies)[0] is Probe,
        forall|i: int|
            1 <= i < actions_of_run(clip, unix, stamp, replies).len() ==> actions_of_run(
                clip,
                unix,
                stamp,
                replies,
            )[i] == ActionView::Stop,
        forall|i: int|
            0 <= i < actions_of_run(clip, unix, stamp, replies).len() ==> !(actions_of_run(
                clip,
                unix,
                stamp,
                replies,
            )[i] is Run),
{
    let begun = first_step(clip, unix).0;
    let second = next_step(clip, stamp, begun, true);
    lemma_ended_run_rests(clip, stamp, second.0, replies.drop_first());
    let rest = trace(clip, stamp, second.0, replies.drop_first());
    assert(trace(clip, stamp, begun, replies) =~= seq![second.1] + rest);
    let all = actions_of_run(clip, unix, stamp, replies);
    assert forall|i: int| 1 <= i < all.len() implies all[i] == ActionView::Stop by {
        if i >= 2 {
            assert(all[i] == rest[i - 2]);
        }
    }
}

/// The video tool is run only to join the clips of a camera or to compose
/// the mosaic, and a mosaic is moved to its place only after the video tool
/// has composed it.
pub proof fn lemma_tool_and_rename(clip: ClipView, stamp: Seq<char>, at: Progress, reply: bool)
    ensures
        next_step(clip, stamp, at, reply).1 is Run ==> next_step(clip, stamp, at, reply).0.phase is Join
            || next_step(clip, stamp, at, reply).0.phase is Compose,
        next_step(clip, stamp, at, reply).1 is Rename ==> at.phase is Compose && reply,
        next_step(clip, stamp, at, reply).0.phase is Done ==> at.phase is Done || at.phase is Publish
            || at.phase is Cleanup,
{
    lemma_to_cameras(clip, stamp, at.joined, Some(Camera::Back));
    lemma_to_cleanup(clip, at.joined, Some(Camera::Back));
    match at.phase {
        Phase::DropPlaylist(camera) => {
            lemma_to_cameras(clip, stamp, at.joined, camera.following());
        },
        Phase::Cleanup(camera) => {
            lemma_to_cleanup(clip, at.joined, camera.following());
        },
        _ => {},
    }
}

/// The mosaic appears whole or not at all: the only action that touches its
/// place is the move of the finished file from the hidden path beside it,
/// after the video tool has reported success; the video tool itself never
/// writes to the place of the mosaic.
pub proof fn lemma_mosaic_appears_whole(clip: ClipView, stamp: Seq<char>, at: Progress, reply: bool)
    ensures
        next_step(clip, stamp, at, reply).1 matches ActionView::Rename { from, to } ==> {
            &&& at.phase is Compose
            &&& reply
            &&& mosaic_path(clip.folder, clip.when) == Some(to)
            &&& hidden_path(to) == Some(from)
            &&& from != to
        },
        next_step(clip, stamp, at, reply).1 matches ActionView::Run { args } ==> {
            &&& args.len() > 0
            &&& mosaic_path(clip.folder, clip.when) != Some(args.last())
        },
        next_step(clip, stamp, at, reply).1 matches ActionView::Write { path, text } ==> mosaic_path(
            clip.folder,
            clip.when,
        ) != Some(path),
{
    lemma_tool_and_rename(clip, stamp, at, reply);
    let place = mosaic_path(clip.folder, clip.when);
    match at.phase {
        Phase::ProbeMosaic => {
            lemma_outputs_of_cameras(clip, stamp, at.joined, Some(Camera::Back));
        },
        Phase::Publish => {
            lemma_to_cleanup(clip, at.joined, Some(Camera::Back));
        },
        Phase::Cleanup(camera) => {
            lemma_to_cleanup(clip, at.joined, camera.following());
        },
        Phase::DropPlaylist(camera) => {
            lemma_outputs_of_cameras(clip, stamp, at.joined, camera.following());
        },
        Phase::ProbeStale(camera) => {
            lemma_join_output(clip, stamp, camera);
        },
        Phase::RemoveStale(camera) => {
            lemma_join_output(clip, stamp, camera);
        },
        Phase::Compose => {
            if let Some(target) = place {
                if hidden_path(target).is_some() {
                    lemma_hidden_differs(target);
                }
            }
        },
        _ => {},
    }
}

/// The call that joins the clips of a camera writes to the joined video of
/// that camera, which is not the place of the mosaic.
proof fn lemma_join_output(clip: ClipView, stamp: Seq<char>, camera: Camera)
    ensures
        ({
            let output = merged_path(clip.folder, clip.when, camera);
            let args = concat_args(playlist_path(stamp, clip.when, camera), output);
            args.len() > 0 && args.last() == output && mosaic_path(clip.folder, clip.when) != Some(output)
        }),
{
    let output = merged_path(clip.folder, clip.when, camera);
    let args = concat_args(playlist_path(stamp, clip.when, camera), output);
    assert(args.len() == 10 && args[9] == output);
    lemma_merged_name_ends(clip.folder, clip.when, camera);
    if mosaic_path(clip.folder, clip.when).is_some() {
        lemma_mosaic_name_ends(clip.folder, clip.when);
    }
}

/// The path of a mosaic ends in `c.mp4`, the fifth character from its end
/// being `c`.
proof fn lemma_mosaic_name_ends(folder: Seq<char>, when: Civil)
    requires
        mosaic_path(folder, when).is_some(),
    ensures
        ({
            let path = mosaic_path(folder, when).unwrap();
            path.len() >= 5 && path[path.len() - 5] == 'c'
        }),
{
    reveal_strlit("-mosaic.mp4");
    let tail = "-mosaic.mp4"@;
    let name = mosaic_name(when);
    let path = mosaic_path(folder, when).unwrap();
    assert(tail[6] == 'c');
    assert(name[name.len() - 5] == 'c');
    assert(path[path.len() - 5] == name[name.len() - 5]);
}

/// The path of a joined video ends in `p.mp4`, the fifth character from its
/// end being `p`.
proof fn lemma_merged_name_ends(folder: Seq<char>, when: Civil, camera: Camera)
    ensures
        ({
            let path = merged_path(folder, when, camera);
            path.len() >= 5 && path[path.len() - 5] == 'p'
        }),
{
    reveal_strlit("-tmp.mp4");
    let tail = "-tmp.mp4"@;
    let name = merged_name(when, camera);
    let path = merged_path(folder, when, camera);
    assert(tail[3] == 'p');
    assert(name[name.len() - 5] == 'p');
    assert(path[path.len() - 5] == name[name.len() - 5]);
}

/// The path of a playlist ends in `.txt`.
proof fn lemma_playlist_name_ends(stamp: Seq<char>, when: Civil, camera: Camera)
    ensures
        ({
            let path = playlist_path(stamp, when, camera);
            path.len() >= 5 && path[path.len() - 1] == 't'
        }),
{
    reveal_strlit(".txt");
    let tail = ".txt"@;
    assert(tail[3] == 't');
}

/// What the walk through the cameras asks for does not touch the place of
/// the mosaic.
proof fn lemma_outputs_of_cameras(clip: ClipView, stamp: Seq<char>, joined: Joined, from: Option<Camera>)
    ensures
        to_cameras(clip, stamp, joined, from).1 matches ActionView::Run { args } ==> {
            &&& args.len() > 0
            &&& mosaic_path(clip.folder, clip.when) != Some(args.last())
        },
        to_cameras(clip, stamp, joined, from).1 matches ActionView::Write { path, text } ==> mosaic_path(
            clip.folder,
            clip.when,
        ) != Some(path),
    decreases cameras_left(from),
{
    let place = mosaic_path(clip.folder, clip.when);
    match from {
        Some(camera) => {
            if concat_job(clip, camera, stamp).is_none() {
                lemma_outputs_of_cameras(clip, stamp, joined, camera.following());
            } else if let Some(target) = place {
                lemma_playlist_name_ends(stamp, clip.when, camera);
                reveal_strlit("-mosaic.mp4");
                let tail = "-mosaic.mp4"@;
                let name = mosaic_name(clip.when);
                assert(tail[10] == '4');
                assert(name[name.len() - 1] == '4');
                assert(target[target.len() - 1] == name[name.len() - 1]);
            }
        },
        None => {
            if let Some(target) = place {
                if let Some(hidden) = hidden_path(target) {
                    lemma_hidden_differs(target);
                    let job = mosaic_job(clip, joined_inputs(clip, joined), target).unwrap();
                    assert(job.args.last() == hidden);
                }
            }
        },
    }
}

/// Where the walk through the cameras leads: to writing a playlist, to
/// composing, or to giving up.
pub proof fn lemma_to_cameras(clip: ClipView, stamp: Seq<char>, joined: Joined, from: Option<Camera>)
    ensures
        ({
            let step = to_cameras(clip, stamp, joined, from);
            ||| step.0.phase is WritePlaylist && step.1 is Write
            ||| step.0.phase is Compose && step.1 is Run
            ||| step.0.phase is Failed && step.1 is Stop
        }),
    decreases cameras_left(from),
{
    if let Some(camera) = from {
        if concat_job(clip, camera, stamp).is_none() {
            lemma_to_cameras(clip, stamp, joined, camera.following());
        }
    }
}

/// Where the walk through the joined videos leads: to deleting one, or to
/// the end of the run.
pub proof fn lemma_to_cleanup(clip: ClipView, joined: Joined, from: Option<Camera>)
    ensures
        ({
            let step = to_cleanup(clip, joined, from);
            ||| step.0.phase is Cleanup && step.1 is Remove
            ||| step.0.phase is Done && step.1 is Stop
        }),
    decreases cameras_left(from),
{
    if let Some(camera) = from {
        if !joined.has(camera) {
            lemma_to_cleanup(clip, joined, camera.following());
        }
    }
}

/// Reads the time from chrono's `Utc::now`, as seconds by `DateTime::timestamp`
/// and as text by `DateTime::format` with year, month, day, hour, minute,
/// second and milliseconds.
///
/// Trusted: nothing. The time is whatever the machine's clock says.
#[verifier::external_body]
fn utc_now() -> (r: Clock) {
    let now = chrono::Utc::now();
    Clock { unix: now.timestamp(), stamp: now.format("%Y%m%d_%H%M%S%3f").to_string() }
}

impl SentryClip {
    /// The joined videos that were made, each with its camera.
    fn joined_videos(&self, joined: &Joined) -> (r: Vec<(String, Camera)>)
        ensures
            input_views(r@) == joined_inputs(self@, *joined),
    {
        let when = self.when();
        let mut r: Vec<(String, Camera)> = Vec::new();
        if joined.holds(&Camera::Back) {
            r.push((merged_file(self.folder(), &when, &Camera::Back), Camera::Back));
        }
        assert(input_views(r@) =~= joined_input(self@, *joined, Camera::Back));
        if joined.holds(&Camera::Front) {
            r.push((merged_file(self.folder(), &when, &Camera::Front), Camera::Front));
        }
        assert(input_views(r@) =~= joined_input(self@, *joined, Camera::Back) + joined_input(
            self@,
            *joined,
            Camera::Front,
        ));
        if joined.holds(&Camera::Left) {
            r.push((merged_file(self.folder(), &when, &Camera::Left), Camera::Left));
        }
        assert(input_views(r@) =~= joined_input(self@, *joined, Camera::Back) + joined_input(
            self@,
            *joined,
            Camera::Front,
        ) + joined_input(self@, *joined, Camera::Left));
        if joined.holds(&Camera::Right) {
            r.push((merged_file(self.folder(), &when, &Camera::Right), Camera::Right));
        }
        assert(input_views(r@) =~= joined_inputs(self@, *joined));
        r
    }

    /// The step into composing.
    fn enter_compose(&self, joined: Joined) -> (r: (Progress, Action))
        ensures
            (r.0, r.1@) == to_compose(self@, joined),
    {
        let target = match self.mosaic_file() {
            Ok(target) => target,
            Err(e) => {
                return (Progress { phase: Phase::Failed(e), joined }, Action::Stop);
            },
        };
        let inputs = self.joined_videos(&joined);
        match self.create_mosaic(&inputs, target.as_str()) {
            Ok(job) => (Progress { phase: Phase::Compose, joined }, Action::Run { args: job.args }),
            Err(e) => (Progress { phase: Phase::Failed(e), joined }, Action::Stop),
        }
    }

    /// The step into the first camera from `from` on that has clips.
    fn enter_cameras(&self, stamp: &str, joined: Joined, from: Option<Camera>) -> (r: (Progress, Action))
        ensures
            (r.0, r.1@) == to_cameras(self@, stamp@, joined, from),
        decreases cameras_left(from),
    {
        match from {
            Some(camera) => match self.concatenate_camera_files(&camera, stamp) {
                Some(job) => (
                    Progress { phase: Phase::WritePlaylist(camera), joined },
                    Action::Write { path: job.playlist, text: job.listing },
                ),
                None => self.enter_cameras(stamp, joined, camera.successor()),
            },
            None => self.enter_compose(joined),
        }
    }

    /// The step into deleting the first joined video from `from` on.
    fn enter_cleanup(&self, joined: Joined, from: Option<Camera>) -> (r: (Progress, Action))
        ensures
            (r.0, r.1@) == to_cleanup(self@, joined, from),
        decreases cameras_left(from),
    {
        match from {
            Some(camera) => {
                if joined.holds(&camera) {
                    (
                        Progress { phase: Phase::Cleanup(camera), joined },
                        Action::Remove { path: merged_file(self.folder(), &self.when(), &camera) },
                    )
                } else {
                    self.enter_cleanup(joined, camera.successor())
                }
            },
            None => (Progress { phase: Phase::Done, joined }, Action::Stop),
        }
    }

    /// The call of the video tool that joins the clips of a camera.
    fn join_action(&self, stamp: &str, camera: &Camera) -> (r: Action)
        ensures
            r@ == (ActionView::Run {
                args: concat_args(
                    playlist_path(stamp@, self@.when, *camera),
                    merged_path(self@.folder, self@.when, *camera),
                ),
            }),
    {
        let when = self.when();
        let playlist = playlist_file(stamp, &when, camera);
        let output = merged_file(self.folder(), &when, camera);
        Action::Run { args: concat_arguments(playlist.as_str(), output.as_str()) }
    }

    /// Begins the run of the event at the time of `clock`. An event without
    /// clips is skipped as empty; one whose clips were modified less than
    /// fifteen minutes before that time is skipped as too recent; for any
    /// other the first action is to find out whether the mosaic exists.
    pub fn start(&self, clock: &Clock) -> (r: (Progress, Action))
        ensures
            (r.0, r.1@) == first_step(self@, clock.unix as int),
    {
        let joined = Joined::none();
        let modified: i64 = match self.last_modified() {
            Some(modified) => modified,
            None => {
                return (Progress { phase: Phase::Skipped(SkipReason::Empty), joined }, Action::Stop);
            },
        };
        if modified as i128 + FRESHNESS_SECONDS as i128 > clock.unix as i128 {
            return (Progress { phase: Phase::Skipped(SkipReason::TooRecent), joined }, Action::Stop);
        }
        match self.mosaic_file() {
            Ok(target) => (Progress { phase: Phase::ProbeMosaic, joined }, Action::Probe { path: target }),
            Err(e) => (Progress { phase: Phase::Failed(e), joined }, Action::Stop),
        }
    }

    /// Goes on with the run from `at`, given the report on the action that
    /// led there: `true` where the probed file exists or the action
    /// succeeded. Returns the state the run comes to and the next action.
    /// `clock` is the clock that the run began with.
    pub fn advance(&self, clock: &Clock, at: Progress, reply: bool) -> (r: (Progress, Action))
        ensures
            (r.0, r.1@) == next_step(self@, clock.stamp@, at, reply),
    {
        let joined = at.joined;
        let stamp = clock.stamp.as_str();
        match at.phase {
            Phase::Skipped(_) => (at, Action::Stop),
            Phase::Done => (at, Action::Stop),
            Phase::Failed(_) => (at, Action::Stop),
            Phase::ProbeMosaic => {
                if reply {
                    (Progress { phase: Phase::Skipped(SkipReason::AlreadyProcessed), joined }, Action::Stop)
                } else {
                    self.enter_cameras(stamp, joined, Some(Camera::Back))
                }
            },
            Phase::WritePlaylist(camera) => {
                if reply {
                    (
                        Progress { phase: Phase::ProbeStale(camera), joined },
                        Action::Probe { path: merged_file(self.folder(), &self.when(), &camera) },
                    )
                } else {
                    (
                        Progress { phase: Phase::DropPlaylist(camera), joined },
                        Action::Remove { path: playlist_file(stamp, &self.when(), &camera) },
                    )
                }
            },
            Phase::ProbeStale(camera) => {
                if reply {
                    (
                        Progress { phase: Phase::RemoveStale(camera), joined },
                        Action::Remove { path: merged_file(self.folder(), &self.when(), &camera) },
                    )
                } else {
                    (Progress { phase: Phase::Join(camera), joined }, self.join_action(stamp, &camera))
                }
            },
            Phase::RemoveStale(camera) => {
                if reply {
                    (Progress { phase: Phase::Join(camera), joined }, self.join_action(stamp, &camera))
                } else {
                    (
                        Progress { phase: Phase::DropPlaylist(camera), joined },
                        Action::Remove { path: playlist_file(stamp, &self.when(), &camera) },
                    )
                }
            },
            Phase::Join(camera) => (
                Progress { phase: Phase::DropPlaylist(camera), joined: joined.marked(&camera, reply) },
                Action::Remove { path: playlist_file(stamp, &self.when(), &camera) },
            ),
            Phase::DropPlaylist(camera) => self.enter_cameras(stamp, joined, camera.successor()),
            Phase::Compose => {
                if !reply {
                    return (Progress { phase: Phase::Failed(ClipError::ExternalTool), joined }, Action::Stop);
                }
                let target = match self.mosaic_file() {
                    Ok(target) => target,
                    Err(e) => {
                        return (Progress { phase: Phase::Failed(e), joined }, Action::Stop);
                    },
                };
                match hidden_file(target.as_str()) {
                    Some(hidden) => (
                        Progress { phase: Phase::Publish, joined },
                        Action::Rename { from: hidden, to: target },
                    ),
                    None => (
                        Progress { phase: Phase::Failed(ClipError::PathConstruction), joined },
                        Action::Stop,
                    ),
                }
            },
            Phase::Publish => {
                if reply {
                    self.enter_cleanup(joined, Some(Camera::Back))
                } else {
                    (Progress { phase: Phase::Failed(ClipError::Filesystem), joined }, Action::Stop)
                }
            },
            Phase::Cleanup(camera) => self.enter_cleanup(joined, camera.successor()),
        }
    }

    /// Begins the run of the event now: reads the clock and takes the first
    /// step at that time. The clock is returned for the steps that follow.
    pub fn process(&self) -> (r: (Clock, Progress, Action))
        ensures
            (r.1, r.2@) == first_step(self@, r.0.unix as int),
    {
        let clock = utc_now();
        let (progress, action) = self.start(&clock);
        (clock, progress, action)
    }
}

} // verus!
