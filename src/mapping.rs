//! The avatar's tables: which mesh and property path each blend shape lives
//! at, and which blend shapes each expression drives.
//!
//! The host reads its scene (the meshes under the skeleton, the animation
//! clips) into the plain values below; the tables are built from those.
use vstd::prelude::*;

use crate::chars::{
    chars_of, find_char, find_in, lemma_find_from_range, lower_of, string_of, strings_view,
    sub_chars, to_lowercase,
};
use crate::frame::NameMap;

verus! {

/// What a blend shape's property path starts with.
pub const BLEND_SHAPE_PATH_PREFIX: &'static str = "blend_shapes/";

/// Where a blend shape lives: the mesh instance's id and the property path of
/// the shape on it, with the value the shape had when it was found.
#[derive(Debug, Clone)]
pub struct BlendShapeMapping<N> {
    /// The instance id of the mesh that the blend shape is on.
    pub mesh_id: i64,
    /// The property path of the blend shape.
    pub blend_shape_path: String,
    /// The value of the blend shape, generally from 0.0 to 1.0.
    pub value: N,
}

/// What a [`BlendShapeMapping`] stands for.
pub struct BlendShapeMappingModel<N> {
    pub mesh_id: i64,
    pub blend_shape_path: Seq<char>,
    pub value: N,
}

impl<N> View for BlendShapeMapping<N> {
    type V = BlendShapeMappingModel<N>;

    open spec fn view(&self) -> BlendShapeMappingModel<N> {
        BlendShapeMappingModel {
            mesh_id: self.mesh_id,
            blend_shape_path: self.blend_shape_path@,
            value: self.value,
        }
    }
}

impl<N> BlendShapeMapping<N> {
    /// A mapping to the shape at `blend_shape_path` on mesh `mesh_id`.
    pub fn new(mesh_id: i64, blend_shape_path: String, value: N) -> (r: BlendShapeMapping<N>)
        ensures
            r@ == (BlendShapeMappingModel { mesh_id, blend_shape_path: blend_shape_path@, value }),
    {
        BlendShapeMapping { mesh_id, blend_shape_path, value }
    }
}

/// A child node of the skeleton, as far as the blend-shape table needs it.
#[derive(Debug, Clone)]
pub enum SkeletonChild<N> {
    /// Not a mesh instance.
    Other,
    /// A mesh instance whose mesh could not be read as an array mesh.
    Unreadable,
    /// A mesh instance with its instance id and its blend shapes' names and
    /// current values, in index order.
    Mesh { instance_id: i64, blend_shapes: Vec<(String, N)> },
}

/// What a [`SkeletonChild`] stands for.
pub enum SkeletonChildModel<N> {
    Other,
    Unreadable,
    Mesh { instance_id: i64, blend_shapes: Seq<(Seq<char>, N)> },
}

impl<N> View for SkeletonChild<N> {
    type V = SkeletonChildModel<N>;

    open spec fn view(&self) -> SkeletonChildModel<N> {
        match self {
            SkeletonChild::Other => SkeletonChildModel::Other,
            SkeletonChild::Unreadable => SkeletonChildModel::Unreadable,
            SkeletonChild::Mesh { instance_id, blend_shapes } => SkeletonChildModel::Mesh {
                instance_id: *instance_id,
                blend_shapes: blend_shapes@.map_values(|e: (String, N)| (e.0@, e.1)),
            },
        }
    }
}

/// The blend-shape table as names to what each mapping stands for.
pub open spec fn shape_table_view<N>(m: Map<Seq<char>, BlendShapeMapping<N>>) -> Map<
    Seq<char>,
    BlendShapeMappingModel<N>,
> {
    m.map_values(|b: BlendShapeMapping<N>| b@)
}

/// The property path of the blend shape called `name`.
pub open spec fn shape_path(name: Seq<char>) -> Seq<char> {
    BLEND_SHAPE_PATH_PREFIX@ + name
}

/// `m` with the shapes `shapes` of mesh `id` registered in order.
pub open spec fn register_shapes<N>(
    m: Map<Seq<char>, BlendShapeMappingModel<N>>,
    id: i64,
    shapes: Seq<(Seq<char>, N)>,
) -> Map<Seq<char>, BlendShapeMappingModel<N>>
    decreases shapes.len(),
{
    if shapes.len() == 0 {
        m
    } else {
        register_shapes(m, id, shapes.drop_last()).insert(
            shapes.last().0,
            BlendShapeMappingModel {
                mesh_id: id,
                blend_shape_path: shape_path(shapes.last().0),
                value: shapes.last().1,
            },
        )
    }
}

/// `m` with the blend shapes of `c` registered; an instance id of zero names
/// no live instance and registers nothing.
pub open spec fn register_child<N>(
    m: Map<Seq<char>, BlendShapeMappingModel<N>>,
    c: SkeletonChildModel<N>,
) -> Map<Seq<char>, BlendShapeMappingModel<N>> {
    match c {
        SkeletonChildModel::Mesh { instance_id, blend_shapes } => if instance_id == 0 {
            m
        } else {
            register_shapes(m, instance_id, blend_shapes)
        },
        _ => m,
    }
}

/// `m` with the blend shapes of every child in `cs` registered, in order.
pub open spec fn register_children<N>(
    m: Map<Seq<char>, BlendShapeMappingModel<N>>,
    cs: Seq<SkeletonChildModel<N>>,
) -> Map<Seq<char>, BlendShapeMappingModel<N>>
    decreases cs.len(),
{
    if cs.len() == 0 {
        m
    } else {
        register_child(register_children(m, cs.drop_last()), cs.last())
    }
}

/// A text holding `a` then `b`.
fn concat_text(a: &str, b: &String) -> (r: String)
    ensures
        r@ == a@ + b@,
{
    let mut v = chars_of(a);
    let w = chars_of(b.as_str());
    let mut i: usize = 0;
    let ghost v0 = v@;
    while i < w.len()
        invariant
            i <= w@.len(),
            v@ == v0 + w@.subrange(0, i as int),
        decreases w@.len() - i,
    {
        v.push(w[i]);
        assert(w@.subrange(0, i + 1) == w@.subrange(0, i as int).push(w@[i as int]));
        i = i + 1;
    }
    assert(w@.subrange(0, i as int) == w@);
    string_of(&v)
}

/// Registers every blend shape of the skeleton's children in `mappings`, as
/// [`register_children`] says; a later shape of the same name replaces an
/// earlier one.
pub fn populate_blend_shape_mappings<N: Copy>(
    mappings: &mut NameMap<BlendShapeMapping<N>>,
    children: &Vec<SkeletonChild<N>>,
)
    requires
        old(mappings).wf(),
    ensures
        final(mappings).wf(),
        shape_table_view(final(mappings).map()) == register_children(
            shape_table_view(old(mappings).map()),
            children@.map_values(|c: SkeletonChild<N>| c@),
        ),
{
    let ghost cs = children@.map_values(|c: SkeletonChild<N>| c@);
    let ghost m0 = shape_table_view(mappings.map());
    let mut i: usize = 0;
    while i < children.len()
        invariant
            i <= children@.len(),
            cs == children@.map_values(|c: SkeletonChild<N>| c@),
            mappings.wf(),
            shape_table_view(mappings.map()) == register_children(m0, cs.subrange(0, i as int)),
        decreases children@.len() - i,
    {
        assert(cs.subrange(0, i + 1).drop_last() == cs.subrange(0, i as int));
        match &children[i] {
            SkeletonChild::Mesh { instance_id, blend_shapes } => {
                if *instance_id != 0 {
                    let ghost before = shape_table_view(mappings.map());
                    let ghost ss = blend_shapes@.map_values(|e: (String, N)| (e.0@, e.1));
                    let mut j: usize = 0;
                    while j < blend_shapes.len()
                        invariant
                            j <= blend_shapes@.len(),
                            ss == blend_shapes@.map_values(|e: (String, N)| (e.0@, e.1)),
                            mappings.wf(),
                            shape_table_view(mappings.map()) == register_shapes(
                                before,
                                *instance_id,
                                ss.subrange(0, j as int),
                            ),
                        decreases blend_shapes@.len() - j,
                    {
                        let name = &blend_shapes[j].0;
                        let path = concat_text(BLEND_SHAPE_PATH_PREFIX, name);
                        let b = BlendShapeMapping::new(*instance_id, path, blend_shapes[j].1);
                        let ghost old_map = mappings.map();
                        mappings.insert(name.clone(), b);
                        proof {
                            assert(ss.subrange(0, j + 1).drop_last() == ss.subrange(0, j as int));
                            assert(shape_table_view(mappings.map()) =~= shape_table_view(
                                old_map,
                            ).insert(name@, b@));
                        }
                        j = j + 1;
                    }
                    assert(ss.subrange(0, j as int) == ss);
                }
            },
            _ => {},
        }
        i = i + 1;
    }
    assert(cs.subrange(0, i as int) == cs);
}

/// The kind of an animation track.
#[derive(Debug, Clone, Copy, PartialEq, Eq, Structural)]
pub enum TrackKind {
    Rotation3d,
    BlendShape,
    Other,
}

/// One track of an animation clip: its path, kind and number of keyframes.
#[derive(Debug, Clone)]
pub struct AnimationTrack {
    pub path: String,
    pub kind: TrackKind,
    pub key_count: i32,
}

/// An animation clip: its name and its tracks, in order.
#[derive(Debug, Clone)]
pub struct AnimationClip {
    pub name: String,
    pub tracks: Vec<AnimationTrack>,
}

/// What an [`AnimationTrack`] stands for.
pub struct TrackModel {
    pub path: Seq<char>,
    pub kind: TrackKind,
    pub key_count: i32,
}

/// What an [`AnimationClip`] stands for.
pub struct ClipModel {
    pub name: Seq<char>,
    pub tracks: Seq<TrackModel>,
}

impl View for AnimationTrack {
    type V = TrackModel;

    open spec fn view(&self) -> TrackModel {
        TrackModel { path: self.path@, kind: self.kind, key_count: self.key_count }
    }
}

impl View for AnimationClip {
    type V = ClipModel;

    open spec fn view(&self) -> ClipModel {
        ClipModel {
            name: self.name@,
            tracks: self.tracks@.map_values(|t: AnimationTrack| t@),
        }
    }
}

/// The blend shape that track `t` drives: a blend-shape track with at least
/// one keyframe whose path `node:morph` names it after the first `:`.
/// Rotation tracks drive none yet.
pub open spec fn track_morph(t: TrackModel) -> Option<Seq<char>> {
    if t.kind == TrackKind::BlendShape && t.key_count >= 1 {
        match find_char(t.path, ':') {
            Some(i) => Some(t.path.subrange(i + 1, t.path.len() as int)),
            None => None,
        }
    } else {
        None
    }
}

/// The blend shapes that the tracks `ts` drive, in order.
pub open spec fn clip_morphs(ts: Seq<TrackModel>) -> Seq<Seq<char>>
    decreases ts.len(),
{
    if ts.len() == 0 {
        Seq::empty()
    } else {
        match track_morph(ts.last()) {
            Some(m) => clip_morphs(ts.drop_last()).push(m),
            None => clip_morphs(ts.drop_last()),
        }
    }
}

/// The expression table as names to blend-shape name lists.
pub open spec fn expression_table_view(m: Map<Seq<char>, Vec<String>>) -> Map<
    Seq<char>,
    Seq<Seq<char>>,
> {
    m.map_values(|v: Vec<String>| strings_view(v@))
}

/// `m` with the clips `clips[i..]` registered in order under their lowercase
/// names; a later clip of the same name replaces an earlier one, and a clip
/// that could not be read ends the registration.
pub open spec fn register_clips(
    m: Map<Seq<char>, Seq<Seq<char>>>,
    clips: Seq<Option<ClipModel>>,
    i: int,
) -> Map<Seq<char>, Seq<Seq<char>>>
    decreases clips.len() - i,
{
    if i < 0 || i >= clips.len() {
        m
    } else {
        match clips[i] {
            None => m,
            Some(c) => register_clips(m.insert(lower_of(c.name), clip_morphs(c.tracks)), clips, i + 1),
        }
    }
}

/// The view of each optional clip.
pub open spec fn clips_view(v: Seq<Option<AnimationClip>>) -> Seq<Option<ClipModel>> {
    v.map_values(
        |c: Option<AnimationClip>|
            match c {
                Some(c) => Some(c@),
                None => None,
            },
    )
}

/// The blend shapes that the tracks of `clip` drive, as [`clip_morphs`] says.
fn morphs_of(clip: &AnimationClip) -> (r: Vec<String>)
    ensures
        strings_view(r@) == clip_morphs(clip@.tracks),
{
    let ghost ts = clip@.tracks;
    let mut r: Vec<String> = Vec::new();
    let mut i: usize = 0;
    while i < clip.tracks.len()
        invariant
            i <= clip.tracks@.len(),
            ts == clip@.tracks,
            strings_view(r@) == clip_morphs(ts.subrange(0, i as int)),
        decreases clip.tracks@.len() - i,
    {
        let t = &clip.tracks[i];
        assert(ts[i as int] == t@);
        assert(ts.subrange(0, i + 1).drop_last() == ts.subrange(0, i as int));
        assert(ts.subrange(0, i + 1).last() == t@);
        if t.kind == TrackKind::BlendShape && t.key_count >= 1 {
            let p = chars_of(t.path.as_str());
            let n = p.len();
            match find_in(&p, ':') {
                Some(k) => {
                    proof {
                        lemma_find_from_range(p@, ':', 0);
                    }
                    let m = string_of(&sub_chars(&p, k + 1, n));
                    let ghost before = r@;
                    r.push(m);
                    assert(strings_view(r@) =~= strings_view(before).push(m@));
                },
                None => {},
            }
        }
        i = i + 1;
    }
    assert(ts.subrange(0, i as int) == ts);
    r
}

/// Registers every clip of `clips` in `mappings`, as [`register_clips`] says.
pub fn populate_and_modify_expression_mappings(
    mappings: &mut NameMap<Vec<String>>,
    clips: &Vec<Option<AnimationClip>>,
)
    requires
        old(mappings).wf(),
    ensures
        final(mappings).wf(),
        expression_table_view(final(mappings).map()) == register_clips(
            expression_table_view(old(mappings).map()),
            clips_view(clips@),
            0,
        ),
{
    let ghost cs = clips_view(clips@);
    let ghost m0 = expression_table_view(mappings.map());
    let mut i: usize = 0;
    while i < clips.len()
        invariant
            i <= clips@.len(),
            cs == clips_view(clips@),
            m0 == expression_table_view(old(mappings).map()),
            mappings.wf(),
            register_clips(m0, cs, 0) == register_clips(
                expression_table_view(mappings.map()),
                cs,
                i as int,
            ),
        decreases clips@.len() - i,
    {
        match &clips[i] {
            None => {
                assert(cs[i as int] is None);
                assert(register_clips(expression_table_view(mappings.map()), cs, i as int)
                    == expression_table_view(mappings.map()));
                return;
            },
            Some(c) => {
                let morphs = morphs_of(c);
                let name = to_lowercase(c.name.as_str());
                let ghost old_map = mappings.map();
                let ghost mv = strings_view(morphs@);
                mappings.insert(name, morphs);
                assert(expression_table_view(mappings.map()) =~= expression_table_view(
                    old_map,
                ).insert(lower_of(c@.name), mv));
            },
        }
        i = i + 1;
    }
}

/// The blend shapes that the expression `name` drives, looked up by its
/// lowercase form.
pub fn expression_morphs<'a>(expressions: &'a NameMap<Vec<String>>, name: &str) -> (r: Option<
    &'a Vec<String>,
>)
    requires
        expressions.wf(),
    ensures
        r matches Some(v) ==> expressions.map().contains_key(lower_of(name@))
            && expressions.map()[lower_of(name@)] == *v,
        r is None ==> !expressions.map().contains_key(lower_of(name@)),
{
    let key = to_lowercase(name);
    expressions.get(key.as_str())
}

/// Registration from `k` on keeps an entry that no later readable clip names.
proof fn lemma_register_keeps(
    m: Map<Seq<char>, Seq<Seq<char>>>,
    clips: Seq<Option<ClipModel>>,
    k: int,
    key: Seq<char>,
    val: Seq<Seq<char>>,
)
    requires
        0 <= k,
        m.contains_key(key) && m[key] == val,
        forall|j: int|
            k <= j < clips.len() ==> (#[trigger] clips[j] is None || lower_of(clips[j]->0.name)
                != key),
    ensures
        register_clips(m, clips, k).contains_key(key),
        register_clips(m, clips, k)[key] == val,
    decreases clips.len() - k,
{
    if k < clips.len() {
        match clips[k] {
            None => {},
            Some(c) => {
                lemma_register_keeps(
                    m.insert(lower_of(c.name), clip_morphs(c.tracks)),
                    clips,
                    k + 1,
                    key,
                    val,
                );
            },
        }
    }
}

/// Registration from `k` reaches the clip at `i` and keeps its entry.
proof fn lemma_register_reaches(
    m: Map<Seq<char>, Seq<Seq<char>>>,
    clips: Seq<Option<ClipModel>>,
    k: int,
    i: int,
    stored: ClipModel,
)
    requires
        0 <= k <= i < clips.len(),
        clips[i] == Some(stored),
        forall|j: int| k <= j < i ==> #[trigger] clips[j] is Some,
        forall|j: int|
            i < j < clips.len() ==> (#[trigger] clips[j] is None || lower_of(clips[j]->0.name)
                != lower_of(stored.name)),
    ensures
        register_clips(m, clips, k).contains_key(lower_of(stored.name)),
        register_clips(m, clips, k)[lower_of(stored.name)] == clip_morphs(stored.tracks),
    decreases i - k,
{
    if k == i {
        lemma_register_keeps(
            m.insert(lower_of(stored.name), clip_morphs(stored.tracks)),
            clips,
            i + 1,
            lower_of(stored.name),
            clip_morphs(stored.tracks),
        );
    } else {
        let c = clips[k]->0;
        assert(clips[k] is Some);
        lemma_register_reaches(
            m.insert(lower_of(c.name), clip_morphs(c.tracks)),
            clips,
            k + 1,
            i,
            stored,
        );
    }
}

/// Looking an expression up ignores case: when the clip at `i` is named
/// `stored`, every clip before it could be read and no later clip has the same
/// lowercase name, then every name with that lowercase form finds the blend
/// shapes of `stored` in the table built from `clips`.
pub proof fn lemma_lookup_ignores_case(
    m: Map<Seq<char>, Seq<Seq<char>>>,
    clips: Seq<Option<ClipModel>>,
    i: int,
    stored: ClipModel,
    queried: Seq<char>,
)
    requires
        0 <= i < clips.len(),
        clips[i] == Some(stored),
        forall|j: int| 0 <= j < i ==> #[trigger] clips[j] is Some,
        forall|j: int|
            i < j < clips.len() ==> (#[trigger] clips[j] is None || lower_of(clips[j]->0.name)
                != lower_of(stored.name)),
        lower_of(queried) == lower_of(stored.name),
    ensures
        register_clips(m, clips, 0).contains_key(lower_of(queried)),
        register_clips(m, clips, 0)[lower_of(queried)] == clip_morphs(stored.tracks),
{
    lemma_register_reaches(m, clips, 0, i, stored);
}

} // verus!
