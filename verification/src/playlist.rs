//! Joining the clips of one camera: the playlist that names them in order,
//! the file the joined video is written to, and the call of the video tool.

use vstd::prelude::*;
use vstd::string::*;
use crate::camera::{Camera, CameraFile, CameraFileView};
use crate::clip::borrowed_views;
use crate::formats::{compact_spec, format_spec, Civil, Timestamp};
use crate::paths::{join, join_spec};
use crate::text::{push_text, texts};

verus! {

/// The line of a playlist that names one clip: `file '<path>'` and a line
/// break.
pub open spec fn playlist_line(path: Seq<char>) -> Seq<char> {
    "file '"@ + path + "'"@ + "\n"@
}

/// The text of the playlist of the given clips: one line for each, in the
/// order of the list.
pub open spec fn playlist_text(files: Seq<CameraFileView>) -> Seq<char>
    decreases files.len(),
{
    if files.len() == 0 {
        Seq::empty()
    } else {
        playlist_text(files.drop_last()) + playlist_line(files.last().path)
    }
}

/// The path of the playlist for one camera of one event. It holds the time of
/// the run, as `stamp`, the moment of the event and the camera's token, so
/// that no two runs and no two cameras share a playlist.
pub open spec fn playlist_path(stamp: Seq<char>, when: Civil, camera: Camera) -> Seq<char> {
    "/tmp/tesla_playlist_tmp_"@ + stamp + "_"@ + compact_spec(when) + "_"@ + camera.token() + ".txt"@
}

/// The name of the joined video of one camera: `<timestamp>-<token>-tmp.mp4`.
pub open spec fn merged_name(when: Civil, camera: Camera) -> Seq<char> {
    format_spec(when) + "-"@ + camera.token() + "-tmp.mp4"@
}

/// The path of the joined video of one camera, inside the event's folder.
pub open spec fn merged_path(folder: Seq<char>, when: Civil, camera: Camera) -> Seq<char> {
    join_spec(folder, merged_name(when, camera))
}

/// The arguments with which the video tool joins the clips of a playlist into
/// `output` without encoding them anew.
pub open spec fn concat_args(playlist: Seq<char>, output: Seq<char>) -> Seq<Seq<char>> {
    seq!["-y"@, "-f"@, "concat"@, "-safe"@, "0"@, "-i"@, playlist, "-c"@, "copy"@, output]
}

/// In one run of one event no two cameras share a playlist or a joined video.
pub proof fn lemma_names_differ_by_camera(stamp: Seq<char>, folder: Seq<char>, when: Civil, a: Camera, b: Camera)
    requires
        a != b,
    ensures
        playlist_path(stamp, when, a) != playlist_path(stamp, when, b),
        merged_path(folder, when, a) != merged_path(folder, when, b),
{
    reveal_strlit("back");
    reveal_strlit("front");
    reveal_strlit("left_repeater");
    reveal_strlit("right_repeater");
    assert(a.token().len() != b.token().len());
    assert(playlist_path(stamp, when, a).len() != playlist_path(stamp, when, b).len());
    assert(merged_name(when, a).len() != merged_name(when, b).len());
    assert(merged_path(folder, when, a).len() != merged_path(folder, when, b).len());
}

/// Runs that read different times from the clock do not share a playlist.
pub proof fn lemma_names_differ_by_stamp(first: Seq<char>, second: Seq<char>, when: Civil, camera: Camera)
    requires
        first != second,
    ensures
        playlist_path(first, when, camera) != playlist_path(second, when, camera),
{
    let head = "/tmp/tesla_playlist_tmp_"@;
    let one = playlist_path(first, when, camera);
    let two = playlist_path(second, when, camera);
    let rest = "_"@ + compact_spec(when) + "_"@ + camera.token() + ".txt"@;
    assert(one =~= head + first + rest);
    assert(two =~= head + second + rest);
    if one == two {
        assert(one.len() == head.len() + first.len() + rest.len());
        assert(two.len() == head.len() + second.len() + rest.len());
        assert(first.len() == second.len());
        assert forall|i: int| 0 <= i < first.len() implies first[i] == second[i] by {
            assert(one[head.len() + i] == first[i]);
            assert(two[head.len() + i] == second[i]);
        }
        assert(first =~= second);
    }
}

/// What joining the clips of one camera takes.
#[derive(Debug, PartialEq, Eq)]
pub struct ConcatJob {
    /// The path at which the playlist is written.
    pub playlist: String,
    /// The text of the playlist.
    pub listing: String,
    /// The path of the joined video.
    pub output: String,
    /// The arguments for the video tool.
    pub args: Vec<String>,
}

/// A [`ConcatJob`] as contracts speak of it.
pub struct ConcatJobView {
    pub playlist: Seq<char>,
    pub listing: Seq<char>,
    pub output: Seq<char>,
    pub args: Seq<Seq<char>>,
}

impl View for ConcatJob {
    type V = ConcatJobView;

    open spec fn view(&self) -> ConcatJobView {
        ConcatJobView {
            playlist: self.playlist@,
            listing: self.listing@,
            output: self.output@,
            args: texts(self.args@),
        }
    }
}

/// Writes the text of the playlist of the given clips.
pub fn create_temp_playlist(files: &Vec<&CameraFile>) -> (r: String)
    ensures
        r@ == playlist_text(borrowed_views(files@)),
{
    let ghost all = borrowed_views(files@);
    let mut r = String::new();
    let mut i: usize = 0;
    assert(all.take(0) =~= Seq::<CameraFileView>::empty());
    while i < files.len()
        invariant
            i <= files.len(),
            all == borrowed_views(files@),
            r@ == playlist_text(all.take(i as int)),
        decreases files.len() - i,
    {
        let ghost before = r@;
        r.append("file '");
        r.append(files[i].path());
        r.append("'");
        r.append("\n");
        proof {
            assert(all.take(i + 1).drop_last() =~= all.take(i as int));
            assert(all.take(i + 1).last() == files@[i as int]@);
            assert(r@ =~= before + playlist_line(files@[i as int]@.path));
        }
        i += 1;
    }
    assert(all.take(i as int) =~= all);
    r
}

/// The path of the playlist for one camera of one event.
pub fn playlist_file(stamp: &str, when: &Timestamp, camera: &Camera) -> (r: String)
    ensures
        r@ == playlist_path(stamp@, when@, *camera),
{
    let mut r = String::from_str("/tmp/tesla_playlist_tmp_");
    r.append(stamp);
    r.append("_");
    r.append(when.compact().as_str());
    r.append("_");
    r.append(camera.camera_file_name());
    r.append(".txt");
    assert(r@ =~= playlist_path(stamp@, when@, *camera));
    r
}

/// The path of the joined video of one camera.
pub fn merged_file(folder: &str, when: &Timestamp, camera: &Camera) -> (r: String)
    ensures
        r@ == merged_path(folder@, when@, *camera),
{
    let mut name = when.format();
    name.append("-");
    name.append(camera.camera_file_name());
    name.append("-tmp.mp4");
    assert(name@ =~= merged_name(when@, *camera));
    join(folder, name.as_str())
}

/// The arguments for joining the clips of `playlist` into `output`.
pub fn concat_arguments(playlist: &str, output: &str) -> (r: Vec<String>)
    ensures
        texts(r@) == concat_args(playlist@, output@),
{
    let mut r: Vec<String> = Vec::new();
    assert(texts(r@) =~= Seq::<Seq<char>>::empty());
    push_text(&mut r, "-y");
    push_text(&mut r, "-f");
    push_text(&mut r, "concat");
    push_text(&mut r, "-safe");
    push_text(&mut r, "0");
    push_text(&mut r, "-i");
    push_text(&mut r, playlist);
    push_text(&mut r, "-c");
    push_text(&mut r, "copy");
    push_text(&mut r, output);
    assert(texts(r@) =~= concat_args(playlist@, output@));
    r
}

} // verus!
