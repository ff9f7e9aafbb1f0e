//! An event: one folder of clips recorded around one moment, with the
//! catalog of its clips and the paths of what is made from them.

use vstd::prelude::*;
use vstd::string::*;
use crate::camera::{Camera, CameraFile, CameraFileView};
use crate::catalog::{accepted, chronological, entry_views, file_views, is_chronological, latest, lemma_filter_push};
use crate::catalog::{lemma_latest, process_folder, rejected, seconds_of, skipped_views, start_key, FolderEntry};
use crate::catalog::{Skipped, SkippedView};
use crate::error::ClipError;
use crate::formats::{format_spec, parse_spec, parse_tesla_timestamp, Civil, Timestamp};
use crate::mosaic::{compose_args, compose_arguments, hidden_file, hidden_path, input_paths, input_views, paths_of};
use crate::mosaic::{MosaicJob, MosaicJobView};
use crate::paths::{file_name, file_name_of, join, join_spec, parent, parent_of};
use crate::playlist::{concat_args, concat_arguments, create_temp_playlist, merged_file, merged_path, playlist_file};
use crate::playlist::{playlist_path, playlist_text, ConcatJob, ConcatJobView};

verus! {

/// An event as contracts speak of it.
pub struct ClipView {
    /// The path of the event's folder.
    pub folder: Seq<char>,
    /// The moment that the folder's name spells.
    pub when: Civil,
    /// The latest modification among the clips, in seconds since 1970-01-01;
    /// nothing for an event without clips.
    pub last_modified: Option<int>,
    /// The clips in the order of their start times.
    pub clips: Seq<CameraFileView>,
    /// The entries of the folder that are no clips, with the reasons.
    pub skipped: Seq<SkippedView>,
}

/// The test for a clip of the given camera.
pub open spec fn recorded_by(camera: Camera) -> spec_fn(CameraFileView) -> bool {
    |f: CameraFileView| f.camera == camera
}

/// The clips of one camera, in the order of the list.
pub open spec fn per_camera(clips: Seq<CameraFileView>, camera: Camera) -> Seq<CameraFileView> {
    clips.filter(recorded_by(camera))
}

/// The borrowed clips of a list as contracts speak of them.
pub open spec fn borrowed_views(files: Seq<&CameraFile>) -> Seq<CameraFileView> {
    files.map_values(|f: &CameraFile| f@)
}

/// The name of the mosaic of an event: `<timestamp>-mosaic.mp4`.
pub open spec fn mosaic_name(when: Civil) -> Seq<char> {
    format_spec(when) + "-mosaic.mp4"@
}

/// The path of the mosaic of an event: beside the event's folder, in the
/// folder that holds it. There is none where the folder's path names no
/// parent.
pub open spec fn mosaic_path(folder: Seq<char>, when: Civil) -> Option<Seq<char>> {
    match parent_of(folder) {
        Some(dir) => Some(join_spec(dir, mosaic_name(when))),
        None => None,
    }
}

/// What joining the clips of one camera of an event takes; nothing where the
/// event has no clip of that camera. `stamp` is the time of the run as the
/// playlist's name holds it.
pub open spec fn concat_job(clip: ClipView, camera: Camera, stamp: Seq<char>) -> Option<ConcatJobView> {
    let files = per_camera(clip.clips, camera);
    let playlist = playlist_path(stamp, clip.when, camera);
    let output = merged_path(clip.folder, clip.when, camera);
    if files.len() == 0 {
        None
    } else {
        Some(
            ConcatJobView {
                playlist: playlist,
                listing: playlist_text(files),
                output: output,
                args: concat_args(playlist, output),
            },
        )
    }
}

/// The Unix time from which the clock of the mosaic counts: the start of the
/// earliest clip. An event without clips has its own moment instead.
pub open spec fn baseline(clip: ClipView) -> int {
    if clip.clips.len() > 0 {
        clip.clips[0].start_time.unix()
    } else {
        clip.when.unix()
    }
}

/// What composing the mosaic of an event at `target` takes, from the joined
/// videos given. There is no way to do it where `target` has no hidden path
/// beside it.
pub open spec fn mosaic_job(clip: ClipView, inputs: Seq<(Seq<char>, Camera)>, target: Seq<char>) -> Result<
    MosaicJobView,
    ClipError,
> {
    match hidden_path(target) {
        Some(temporary) => Ok(
            MosaicJobView {
                temporary: temporary,
                target: target,
                args: compose_args(inputs, baseline(clip), temporary),
                intermediates: paths_of(inputs),
            },
        ),
        None => Err(ClipError::PathConstruction),
    }
}

/// Picking the clips of one camera out of a chronological list leaves them
/// chronological.
pub proof fn lemma_per_camera_chronological(clips: Seq<CameraFileView>, camera: Camera)
    requires
        is_chronological(clips),
    ensures
        is_chronological(per_camera(clips, camera)),
        forall|i: int|
            0 <= i < per_camera(clips, camera).len() ==> clips.contains(#[trigger] per_camera(clips, camera)[i]),
    decreases clips.len(),
{
    let picked = per_camera(clips, camera);
    if clips.len() == 0 {
        reveal(Seq::filter);
    } else {
        let head = clips.drop_last();
        let x = clips.last();
        assert(is_chronological(head)) by {
            assert forall|i: int, j: int| 0 <= i <= j < head.len() implies start_key(head[i]) <= start_key(head[j]) by {
                assert(head[i] == clips[i] && head[j] == clips[j]);
            }
        }
        lemma_per_camera_chronological(head, camera);
        lemma_filter_push(head, x, recorded_by(camera));
        assert(head.push(x) =~= clips);
        let before = per_camera(head, camera);
        assert forall|i: int| 0 <= i < picked.len() implies clips.contains(#[trigger] picked[i]) by {
            if i < before.len() {
                assert(picked[i] == before[i]);
                assert(head.contains(before[i]));
                let k = choose|k: int| 0 <= k < head.len() && head[k] == before[i];
                assert(clips[k] == picked[i]);
            } else {
                assert(clips[clips.len() - 1] == picked[i]);
            }
        }
        assert forall|i: int, j: int| 0 <= i <= j < picked.len() implies start_key(picked[i]) <= start_key(
            picked[j],
        ) by {
            if j < before.len() {
                assert(picked[i] == before[i] && picked[j] == before[j]);
            } else if i < before.len() {
                assert(picked[i] == before[i]);
                assert(head.contains(before[i]));
                let k = choose|k: int| 0 <= k < head.len() && head[k] == before[i];
                assert(clips[k] == picked[i]);
                assert(picked[j] == clips[clips.len() - 1]);
            }
        }
    }
}

/// One event: a folder named after the moment of the event, and the clips
/// found in it. The clips are always in the order of their start times.
#[derive(Debug)]
pub struct SentryClip {
    folder: String,
    when: Timestamp,
    last_modified: Option<i64>,
    clips: Vec<CameraFile>,
    skipped: Vec<Skipped>,
}

impl View for SentryClip {
    type V = ClipView;

    closed spec fn view(&self) -> ClipView {
        ClipView {
            folder: self.folder@,
            when: self.when@,
            last_modified: seconds_of(self.last_modified),
            clips: file_views(self.clips@),
            skipped: skipped_views(self.skipped@),
        }
    }
}

impl SentryClip {
    /// The clips are in the order of their start times, a latest
    /// modification is known exactly where there is a clip, and the moment of
    /// the event is the one that the folder's name spells.
    #[verifier::type_invariant]
    spec fn well_formed(self) -> bool {
        &&& is_chronological(self@.clips)
        &&& self@.last_modified.is_none() <==> self@.clips.len() == 0
        &&& parse_spec(file_name_of(self@.folder)) == Some(self@.when)
    }

    /// Builds the event of a folder from the folder's path and the listing of
    /// its entries. The name of the folder must be a timestamp; no entry of
    /// the listing makes the event fail.
    pub fn from_folder(folder: &str, entries: &Vec<FolderEntry>) -> (r: Result<SentryClip, ClipError>)
        ensures
            match r {
                Ok(clip) => {
                    &&& parse_spec(file_name_of(folder@)) == Some(clip@.when)
                    &&& clip@.folder == folder@
                    &&& clip@.clips == chronological(accepted(entry_views(entries@)))
                    &&& clip@.skipped == rejected(entry_views(entries@))
                    &&& clip@.last_modified == latest(entry_views(entries@))
                    &&& is_chronological(clip@.clips)
                    &&& clip@.clips.len() + clip@.skipped.len() == entries@.len()
                },
                Err(e) => e == ClipError::TimestampParse && parse_spec(file_name_of(folder@)).is_none(),
            },
    {
        let name = file_name(folder);
        let when = match parse_tesla_timestamp(name.as_str()) {
            Ok(when) => when,
            Err(e) => {
                return Err(e);
            },
        };
        let catalog = process_folder(entries);
        proof {
            lemma_latest(entry_views(entries@));
        }
        Ok(
            SentryClip {
                folder: String::from_str(folder),
                when,
                last_modified: catalog.last_modified,
                clips: catalog.clips,
                skipped: catalog.skipped,
            },
        )
    }

    /// The path of the event's folder.
    pub fn folder(&self) -> (r: &str)
        ensures
            r@ == self@.folder,
    {
        self.folder.as_str()
    }

    /// The moment of the event, as the folder's name spells it.
    pub fn when(&self) -> (r: Timestamp)
        ensures
            r@ == self@.when,
            parse_spec(file_name_of(self@.folder)) == Some(self@.when),
    {
        proof {
            use_type_invariant(self);
        }
        self.when
    }

    /// The latest modification among the clips; nothing exactly for an event
    /// without clips.
    pub fn last_modified(&self) -> (r: Option<i64>)
        ensures
            seconds_of(r) == self@.last_modified,
            r.is_none() <==> self@.clips.len() == 0,
    {
        proof {
            use_type_invariant(self);
        }
        self.last_modified
    }

    /// The clips of the event, in the order of their start times.
    pub fn clips(&self) -> (r: &Vec<CameraFile>)
        ensures
            file_views(r@) == self@.clips,
            is_chronological(self@.clips),
    {
        proof {
            use_type_invariant(self);
        }
        &self.clips
    }

    /// The entries of the folder that are no clips, each with its reason.
    pub fn skipped(&self) -> (r: &Vec<Skipped>)
        ensures
            skipped_views(r@) == self@.skipped,
    {
        &self.skipped
    }

    /// Whether the event has no clip at all.
    pub fn is_empty(&self) -> (r: bool)
        ensures
            r == (self@.clips.len() == 0),
    {
        self.clips.is_empty()
    }

    /// The clips of one camera, in the order of their start times.
    pub fn files_per_camera(&self, camera: &Camera) -> (r: Vec<&CameraFile>)
        ensures
            borrowed_views(r@) == per_camera(self@.clips, *camera),
            is_chronological(borrowed_views(r@)),
    {
        let ghost all = file_views(self.clips@);
        let mut r: Vec<&CameraFile> = Vec::new();
        let mut i: usize = 0;
        proof {
            reveal(Seq::filter);
            assert(all.take(0) =~= Seq::<CameraFileView>::empty());
            assert(borrowed_views(r@) =~= per_camera(all.take(0), *camera));
        }
        while i < self.clips.len()
            invariant
                i <= self.clips.len(),
                all == file_views(self.clips@),
                borrowed_views(r@) == per_camera(all.take(i as int), *camera),
            decreases self.clips.len() - i,
        {
            let file = &self.clips[i];
            proof {
                assert(all.take(i + 1) =~= all.take(i as int).push(file@));
                lemma_filter_push(all.take(i as int), file@, recorded_by(*camera));
            }
            if file.camera() == *camera {
                let ghost before = borrowed_views(r@);
                r.push(file);
                assert(borrowed_views(r@) =~= before.push(file@));
            }
            i += 1;
        }
        proof {
            use_type_invariant(self);
            assert(all.take(i as int) =~= all);
            lemma_per_camera_chronological(all, *camera);
        }
        r
    }

    /// The path at which the mosaic of the event is to stand: in the folder
    /// that holds the event's folder, named after the event's moment. A folder
    /// whose path names no parent has no such path.
    pub fn mosaic_file(&self) -> (r: Result<String, ClipError>)
        ensures
            match r {
                Ok(path) => mosaic_path(self@.folder, self@.when) == Some(path@),
                Err(e) => e == ClipError::PathConstruction && mosaic_path(self@.folder, self@.when).is_none(),
            },
    {
        match parent(self.folder.as_str()) {
            Some(dir) => {
                let mut name = self.when.format();
                name.append("-mosaic.mp4");
                Ok(join(dir.as_str(), name.as_str()))
            },
            None => Err(ClipError::PathConstruction),
        }
    }

    /// Describes how the clips of one camera are joined into one video: the
    /// playlist that names them in the order of their start times, the file
    /// inside the event's folder that the joined video is written to, and the
    /// call of the video tool. Nothing is described for a camera without
    /// clips. `stamp` is the time of the run for the playlist's name.
    pub fn concatenate_camera_files(&self, camera: &Camera, stamp: &str) -> (r: Option<ConcatJob>)
        ensures
            match r {
                Some(job) => concat_job(self@, *camera, stamp@) == Some(job@),
                None => concat_job(self@, *camera, stamp@).is_none(),
            },
    {
        let files = self.files_per_camera(camera);
        if files.len() == 0 {
            return None;
        }
        let playlist = playlist_file(stamp, &self.when, camera);
        let listing = create_temp_playlist(&files);
        let output = merged_file(self.folder.as_str(), &self.when, camera);
        let args = concat_arguments(playlist.as_str(), output.as_str());
        Some(ConcatJob { playlist, listing, output, args })
    }

    /// The Unix time from which the clock of the mosaic counts.
    pub fn clock_origin(&self) -> (r: i64)
        ensures
            r as int == baseline(self@),
    {
        if self.clips.len() > 0 {
            self.clips[0].start_time().unix_seconds()
        } else {
            self.when.unix_seconds()
        }
    }

    /// Describes how the joined videos are composed into the mosaic at
    /// `mosaic_file`: the video tool writes to a hidden path beside it, each
    /// video in the quarter of its camera and the clock over all; the joined
    /// videos are the intermediates to delete afterwards.
    pub fn create_mosaic(&self, file_cameras: &Vec<(String, Camera)>, mosaic_file: &str) -> (r: Result<
        MosaicJob,
        ClipError,
    >)
        ensures
            match r {
                Ok(job) => mosaic_job(self@, input_views(file_cameras@), mosaic_file@) == Ok::<
                    MosaicJobView,
                    ClipError,
                >(job@),
                Err(e) => mosaic_job(self@, input_views(file_cameras@), mosaic_file@) == Err::<
                    MosaicJobView,
                    ClipError,
                >(e),
            },
    {
        let temporary = match hidden_file(mosaic_file) {
            Some(path) => path,
            None => {
                return Err(ClipError::PathConstruction);
            },
        };
        let args = compose_arguments(file_cameras, self.clock_origin(), temporary.as_str());
        let intermediates = input_paths(file_cameras);
        Ok(MosaicJob { temporary, target: String::from_str(mosaic_file), args, intermediates })
    }
}

} // verus!
