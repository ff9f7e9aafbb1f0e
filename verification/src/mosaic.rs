//! Composing the mosaic: each camera's video in its own quarter of one
//! canvas, a clock drawn over it, and the call of the video tool.
//!
//! The quarters are fixed: back upper left, front upper right, left lower
//! left, right lower right. A camera without video leaves its quarter blank.

use vstd::prelude::*;
use vstd::string::*;
use crate::camera::Camera;
use crate::paths::{file_name, file_name_of, join, join_spec, last_index_of, lemma_last_index_of, parent, parent_of};
use crate::text::{decimal, int_text, push_text, render_int, render_nat, texts};

verus! {

/// The name of the quarter of the canvas that shows a camera.
pub open spec fn corner(camera: Camera) -> Seq<char> {
    match camera {
        Camera::Back => "upperleft"@,
        Camera::Front => "upperright"@,
        Camera::Left => "lowerleft"@,
        Camera::Right => "lowerright"@,
    }
}

/// Where the quarter of a camera begins on the canvas of 1280 by 960, as the
/// video tool's overlay takes it: nothing for the upper left corner.
pub open spec fn offset(camera: Camera) -> Seq<char> {
    match camera {
        Camera::Back => ""@,
        Camera::Front => ":x=640"@,
        Camera::Left => ":y=480"@,
        Camera::Right => ":x=640:y=480"@,
    }
}

/// The step that scales the input of the given number to a quarter and names
/// it after its corner.
pub open spec fn scale_step(index: nat, camera: Camera) -> Seq<char> {
    "; ["@ + decimal(index) + ":v] setpts=PTS-STARTPTS, scale=640x480 ["@ + corner(camera) + "]"@
}

/// The scaling steps of all inputs, in their order.
pub open spec fn scale_steps(cameras: Seq<Camera>) -> Seq<char>
    decreases cameras.len(),
{
    if cameras.len() == 0 {
        Seq::empty()
    } else {
        scale_steps(cameras.drop_last()) + scale_step((cameras.len() - 1) as nat, cameras.last())
    }
}

/// The name of the canvas after `index` quarters were laid on it.
pub open spec fn layer_name(index: nat) -> Seq<char> {
    if index == 0 {
        "base"@
    } else {
        "tmp"@ + decimal(index)
    }
}

/// The step that lays the quarter of input `index` on the canvas. All steps
/// but the last of `total` name their result for the next.
pub open spec fn overlay_step(index: nat, camera: Camera, total: nat) -> Seq<char> {
    "; ["@ + layer_name(index) + "]["@ + corner(camera) + "] overlay=shortest=1"@ + offset(camera) + (if index + 1
        < total {
        " ["@ + layer_name(index + 1) + "]"@
    } else {
        Seq::empty()
    })
}

/// The overlay steps of the first inputs of `total`, in their order.
pub open spec fn overlay_steps(cameras: Seq<Camera>, total: nat) -> Seq<char>
    decreases cameras.len(),
{
    if cameras.len() == 0 {
        Seq::empty()
    } else {
        overlay_steps(cameras.drop_last(), total) + overlay_step(
            (cameras.len() - 1) as nat,
            cameras.last(),
            total,
        )
    }
}

/// The step that draws the clock: the time of day that has passed in the
/// video, counted from the Unix time `unix`.
pub open spec fn clock_step(unix: int) -> Seq<char> {
    "drawtext=text='%{pts\\:gmtime\\:"@ + int_text(unix)
        + "\\:%d-%m-%Y %T}': x=100 : y=800 : box=0: fontsize=32: fontcolor=GoldenRod"@
}

/// The whole description of the composition for the video tool: the canvas,
/// the quarters of the inputs in their order, and the clock.
pub open spec fn filter_text(cameras: Seq<Camera>, unix: int) -> Seq<char> {
    "nullsrc=size=1280x960 [base]"@ + scale_steps(cameras) + overlay_steps(cameras, cameras.len()) + (if cameras.len()
        == 0 {
        "; [base] "@
    } else {
        ", "@
    }) + clock_step(unix)
}

/// The joined videos that go into a mosaic, each with its camera, as
/// contracts speak of them.
pub open spec fn input_views(inputs: Seq<(String, Camera)>) -> Seq<(Seq<char>, Camera)> {
    inputs.map_values(|p: (String, Camera)| (p.0@, p.1))
}

/// The cameras of the inputs, in their order.
pub open spec fn cameras_of(inputs: Seq<(Seq<char>, Camera)>) -> Seq<Camera> {
    inputs.map_values(|p: (Seq<char>, Camera)| p.1)
}

/// The paths of the inputs, in their order.
pub open spec fn paths_of(inputs: Seq<(Seq<char>, Camera)>) -> Seq<Seq<char>> {
    inputs.map_values(|p: (Seq<char>, Camera)| p.0)
}

/// The arguments that name the inputs: `-i` and the path, for each.
pub open spec fn input_args(inputs: Seq<(Seq<char>, Camera)>) -> Seq<Seq<char>>
    decreases inputs.len(),
{
    if inputs.len() == 0 {
        Seq::empty()
    } else {
        input_args(inputs.drop_last()) + seq!["-i"@, inputs.last().0]
    }
}

/// The arguments with which the video tool composes the inputs into
/// `output`.
pub open spec fn compose_args(inputs: Seq<(Seq<char>, Camera)>, unix: int, output: Seq<char>) -> Seq<Seq<char>> {
    seq!["-y"@, "-filter_complex"@, filter_text(cameras_of(inputs), unix)] + input_args(inputs) + seq![
        "-c:v"@,
        "libx264"@,
        output,
    ]
}

/// The hidden path beside `target` at which a file is written before it is
/// moved to `target`: the same folder, the same name behind a dot. There is
/// none where `target` names no folder or no file.
pub open spec fn hidden_path(target: Seq<char>) -> Option<Seq<char>> {
    match parent_of(target) {
        Some(dir) => if file_name_of(target).len() > 0 {
            Some(join_spec(dir, "."@ + file_name_of(target)))
        } else {
            None
        },
        None => None,
    }
}

/// The hidden path beside a target is never the target itself: what is
/// written there leaves the target untouched.
pub proof fn lemma_hidden_differs(target: Seq<char>)
    requires
        hidden_path(target).is_some(),
    ensures
        hidden_path(target).unwrap() != target,
{
    lemma_last_index_of(target, '/');
    reveal_strlit(".");
    let cut = last_index_of(target, '/');
    let name = file_name_of(target);
    let dir = parent_of(target).unwrap();
    let hidden = hidden_path(target).unwrap();
    let dotted = "."@ + name;
    assert(dotted[0] == '.');
    assert(hidden[hidden.len() - name.len() - 1] == '.');
    assert(target[target.len() - name.len() - 1] == '/');
}

/// What composing a mosaic takes.
#[derive(Debug, PartialEq, Eq)]
pub struct MosaicJob {
    /// The hidden path that the video tool writes to.
    pub temporary: String,
    /// The path of the finished mosaic.
    pub target: String,
    /// The arguments for the video tool.
    pub args: Vec<String>,
    /// The joined videos, to be deleted once the mosaic stands.
    pub intermediates: Vec<String>,
}

/// A [`MosaicJob`] as contracts speak of it.
pub struct MosaicJobView {
    pub temporary: Seq<char>,
    pub target: Seq<char>,
    pub args: Seq<Seq<char>>,
    pub intermediates: Seq<Seq<char>>,
}

impl View for MosaicJob {
    type V = MosaicJobView;

    open spec fn view(&self) -> MosaicJobView {
        MosaicJobView {
            temporary: self.temporary@,
            target: self.target@,
            args: texts(self.args@),
            intermediates: texts(self.intermediates@),
        }
    }
}

/// The name of the quarter that shows a camera.
pub fn corner_name(camera: &Camera) -> (r: &'static str)
    ensures
        r@ == corner(*camera),
{
    match camera {
        Camera::Back => "upperleft",
        Camera::Front => "upperright",
        Camera::Left => "lowerleft",
        Camera::Right => "lowerright",
    }
}

/// Where the quarter of a camera begins, as the overlay takes it.
pub fn corner_offset(camera: &Camera) -> (r: &'static str)
    ensures
        r@ == offset(*camera),
{
    match camera {
        Camera::Back => "",
        Camera::Front => ":x=640",
        Camera::Left => ":y=480",
        Camera::Right => ":x=640:y=480",
    }
}

/// Appends the name of the canvas after `index` quarters.
fn push_layer_name(out: &mut String, index: usize)
    ensures
        final(out)@ == old(out)@ + layer_name(index as nat),
{
    if index == 0 {
        out.append("base");
    } else {
        out.append("tmp");
        out.append(render_nat(index as u64).as_str());
        assert(out@ =~= old(out)@ + layer_name(index as nat));
    }
}

/// Appends the step that scales input `index`.
fn push_scale_step(out: &mut String, index: usize, camera: &Camera)
    ensures
        final(out)@ == old(out)@ + scale_step(index as nat, *camera),
{
    out.append("; [");
    out.append(render_nat(index as u64).as_str());
    out.append(":v] setpts=PTS-STARTPTS, scale=640x480 [");
    out.append(corner_name(camera));
    out.append("]");
    assert(out@ =~= old(out)@ + scale_step(index as nat, *camera));
}

/// Appends the step that lays input `index` of `total` on the canvas.
fn push_overlay_step(out: &mut String, index: usize, camera: &Camera, total: usize)
    requires
        index < total,
    ensures
        final(out)@ == old(out)@ + overlay_step(index as nat, *camera, total as nat),
{
    let mut step = String::from_str("; [");
    push_layer_name(&mut step, index);
    step.append("][");
    step.append(corner_name(camera));
    step.append("] overlay=shortest=1");
    step.append(corner_offset(camera));
    let ghost stem = step@;
    assert(stem =~= "; ["@ + layer_name(index as nat) + "]["@ + corner(*camera) + "] overlay=shortest=1"@ + offset(
        *camera,
    ));
    if index + 1 < total {
        let mut name = String::from_str(" [");
        push_layer_name(&mut name, index + 1);
        name.append("]");
        step.append(name.as_str());
        assert(step@ =~= stem + (" ["@ + layer_name((index + 1) as nat) + "]"@));
    } else {
        assert(step@ =~= stem + Seq::<char>::empty());
    }
    out.append(step.as_str());
}

/// Writes the description of the composition for the video tool.
pub fn filter_description(inputs: &Vec<(String, Camera)>, unix: i64) -> (r: String)
    ensures
        r@ == filter_text(cameras_of(input_views(inputs@)), unix as int),
{
    let ghost cameras = cameras_of(input_views(inputs@));
    let total: usize = inputs.len();
    let mut r = String::from_str("nullsrc=size=1280x960 [base]");
    let ghost canvas = r@;
    let mut i: usize = 0;
    assert(cameras.take(0) =~= Seq::<Camera>::empty());
    assert(r@ =~= canvas + scale_steps(cameras.take(0)));
    while i < total
        invariant
            i <= total,
            total == inputs.len(),
            cameras == cameras_of(input_views(inputs@)),
            r@ == canvas + scale_steps(cameras.take(i as int)),
        decreases total - i,
    {
        let ghost before = r@;
        push_scale_step(&mut r, i, &inputs[i].1);
        proof {
            assert(cameras.take(i + 1).drop_last() =~= cameras.take(i as int));
            assert(cameras.take(i + 1).last() == inputs@[i as int].1);
            assert(r@ =~= canvas + scale_steps(cameras.take(i + 1)));
        }
        i += 1;
    }
    assert(cameras.take(total as int) =~= cameras);
    let ghost scaled = r@;
    i = 0;
    assert(r@ =~= scaled + overlay_steps(cameras.take(0), total as nat));
    while i < total
        invariant
            i <= total,
            total == inputs.len(),
            cameras == cameras_of(input_views(inputs@)),
            r@ == scaled + overlay_steps(cameras.take(i as int), total as nat),
        decreases total - i,
    {
        let ghost before = r@;
        push_overlay_step(&mut r, i, &inputs[i].1, total);
        proof {
            assert(cameras.take(i + 1).drop_last() =~= cameras.take(i as int));
            assert(cameras.take(i + 1).last() == inputs@[i as int].1);
            assert(r@ =~= scaled + overlay_steps(cameras.take(i + 1), total as nat));
        }
        i += 1;
    }
    let ghost laid = r@;
    if total == 0 {
        r.append("; [base] ");
    } else {
        r.append(", ");
    }
    let mut clock = String::from_str("drawtext=text='%{pts\\:gmtime\\:");
    clock.append(render_int(unix).as_str());
    clock.append("\\:%d-%m-%Y %T}': x=100 : y=800 : box=0: fontsize=32: fontcolor=GoldenRod");
    assert(clock@ =~= clock_step(unix as int));
    r.append(clock.as_str());
    assert(r@ =~= filter_text(cameras, unix as int));
    r
}

/// The arguments for composing the inputs into `output`.
pub fn compose_arguments(inputs: &Vec<(String, Camera)>, unix: i64, output: &str) -> (r: Vec<String>)
    ensures
        texts(r@) == compose_args(input_views(inputs@), unix as int, output@),
{
    let ghost all = input_views(inputs@);
    let mut r: Vec<String> = Vec::new();
    assert(texts(r@) =~= Seq::<Seq<char>>::empty());
    push_text(&mut r, "-y");
    push_text(&mut r, "-filter_complex");
    push_text(&mut r, filter_description(inputs, unix).as_str());
    let ghost head = texts(r@);
    let mut i: usize = 0;
    assert(all.take(0) =~= Seq::<(Seq<char>, Camera)>::empty());
    assert(texts(r@) =~= head + input_args(all.take(0)));
    while i < inputs.len()
        invariant
            i <= inputs.len(),
            all == input_views(inputs@),
            texts(r@) == head + input_args(all.take(i as int)),
        decreases inputs.len() - i,
    {
        let ghost before = texts(r@);
        push_text(&mut r, "-i");
        push_text(&mut r, inputs[i].0.as_str());
        proof {
            assert(all.take(i + 1).drop_last() =~= all.take(i as int));
            assert(all.take(i + 1).last() == (inputs@[i as int].0@, inputs@[i as int].1));
            assert(texts(r@) =~= before + seq!["-i"@, inputs@[i as int].0@]);
        }
        i += 1;
    }
    assert(all.take(i as int) =~= all);
    push_text(&mut r, "-c:v");
    push_text(&mut r, "libx264");
    push_text(&mut r, output);
    assert(texts(r@) =~= compose_args(all, unix as int, output@));
    r
}

/// The hidden path beside `target`, if `target` names a file in a folder.
pub fn hidden_file(target: &str) -> (r: Option<String>)
    ensures
        match r {
            Some(path) => hidden_path(target@) == Some(path@),
            None => hidden_path(target@).is_none(),
        },
{
    let dir = match parent(target) {
        Some(dir) => dir,
        None => {
            return None;
        },
    };
    let name = file_name(target);
    if name.as_str().unicode_len() == 0 {
        return None;
    }
    let mut hidden = String::from_str(".");
    hidden.append(name.as_str());
    Some(join(dir.as_str(), hidden.as_str()))
}

/// The paths of the inputs.
pub fn input_paths(inputs: &Vec<(String, Camera)>) -> (r: Vec<String>)
    ensures
        texts(r@) == paths_of(input_views(inputs@)),
{
    let mut r: Vec<String> = Vec::new();
    let mut i: usize = 0;
    while i < inputs.len()
        invariant
            i <= inputs.len(),
            texts(r@) == paths_of(input_views(inputs@)).take(i as int),
        decreases inputs.len() - i,
    {
        let ghost before = texts(r@);
        push_text(&mut r, inputs[i].0.as_str());
        assert(texts(r@) =~= paths_of(input_views(inputs@)).take(i + 1));
        i += 1;
    }
    assert(paths_of(input_views(inputs@)).take(i as int) =~= paths_of(input_views(inputs@)));
    r
}

} // verus!
