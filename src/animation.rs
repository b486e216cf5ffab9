use vstd::prelude::*;

use crate::document::Document;
use crate::error::WldError;
use crate::fragment::{Dag, Fragment, FragmentKind, FragmentRef, Track};
use crate::names::{
    actor_tag_spec, animation_name, animation_name_spec, bone_name_from_dag, bone_name_spec,
    bytes_equal, copy_bytes, ends_with, ends_with_spec, naming_for_spec, BoneNaming,
};
use crate::skeleton::{track_def_of, track_of, S3DHierSprite};
use crate::track::{frame_count_spec, frame_spec, Keyframe};

verus! {

/// The frame delay of a track that states none, in milliseconds.
pub const DEFAULT_SLEEP_MS: u32 = 100;

/// What the discovery needs to know of one joint.
pub struct DagInfoView {
    pub bone_name: Seq<u8>,
    pub rest_track_name: Seq<u8>,
}

/// What the discovery needs to know of one joint.
#[derive(Clone, Debug)]
pub struct DagInfo {
    pub bone_name: Vec<u8>,
    pub rest_track_name: Vec<u8>,
}

impl View for DagInfo {
    type V = DagInfoView;

    open spec fn view(&self) -> DagInfoView {
        DagInfoView { bone_name: self.bone_name@, rest_track_name: self.rest_track_name@ }
    }
}

/// One bone's track within an animation, as values.
pub struct BoneTrackView {
    pub bone_index: u32,
    pub bone_name: Seq<u8>,
    pub track_index: u32,
    pub track_def_index: u32,
    pub ms_per_frame: u32,
    pub frame_count: nat,
}

/// One bone's track within an animation. The keyframes stay in the track
/// definition, so tracks that share a definition share its data.
#[derive(Clone, Debug)]
pub struct BoneTrack {
    pub bone_index: u32,
    pub bone_name: Vec<u8>,
    /// 1-based index of the `Track` fragment.
    pub track_index: u32,
    /// 1-based index of the `TrackDef` fragment it points at.
    pub track_def_index: u32,
    pub ms_per_frame: u32,
    pub frame_count: usize,
}

impl View for BoneTrack {
    type V = BoneTrackView;

    open spec fn view(&self) -> BoneTrackView {
        BoneTrackView {
            bone_index: self.bone_index,
            bone_name: self.bone_name@,
            track_index: self.track_index,
            track_def_index: self.track_def_index,
            ms_per_frame: self.ms_per_frame,
            frame_count: self.frame_count as nat,
        }
    }
}

/// An animation, as values.
pub struct AnimationView {
    pub name: Seq<u8>,
    pub tracks: Seq<BoneTrackView>,
    pub duration_ms: int,
}

/// A named animation: one track per bone that has one, and its length.
#[derive(Clone, Debug)]
pub struct S3DAnimation {
    pub name: Vec<u8>,
    pub tracks: Vec<BoneTrack>,
    pub duration_ms: u128,
}

impl View for S3DAnimation {
    type V = AnimationView;

    open spec fn view(&self) -> AnimationView {
        AnimationView {
            name: self.name@,
            tracks: self.tracks@.map_values(|t: BoneTrack| t@),
            duration_ms: self.duration_ms as int,
        }
    }
}

/// A track found for a joint: the animation it belongs to and the bone track.
pub struct Entry {
    pub anim: Seq<u8>,
    pub track: BoneTrackView,
}

/// How long a bone track plays: its frame count times its frame delay.
pub open spec fn track_duration(t: BoneTrackView) -> int {
    t.frame_count * t.ms_per_frame
}

/// The longest duration among `tracks` (0 for none).
pub open spec fn max_duration(tracks: Seq<BoneTrackView>) -> int
    decreases tracks.len(),
{
    if tracks.len() == 0 {
        0
    } else {
        let rest = max_duration(tracks.drop_last());
        let d = track_duration(tracks.last());
        if d > rest {
            d
        } else {
            rest
        }
    }
}

/// The first position at or after `k` of an animation named `name`, or -1.
pub open spec fn find_anim_from(anims: Seq<AnimationView>, name: Seq<u8>, k: int) -> int
    decreases anims.len() - k,
{
    if k < 0 || k >= anims.len() {
        -1
    } else if anims[k].name == name {
        k
    } else {
        find_anim_from(anims, name, k + 1)
    }
}

/// Files one found track under its animation, starting the animation if
/// it is new.
pub open spec fn add_entry(anims: Seq<AnimationView>, e: Entry) -> Seq<AnimationView> {
    let k = find_anim_from(anims, e.anim, 0);
    if k < 0 {
        anims.push(
            AnimationView {
                name: e.anim,
                tracks: seq![e.track],
                duration_ms: track_duration(e.track),
            },
        )
    } else {
        let a = anims[k];
        let d = track_duration(e.track);
        anims.update(
            k,
            AnimationView {
                name: a.name,
                tracks: a.tracks.push(e.track),
                duration_ms: if d > a.duration_ms {
                    d
                } else {
                    a.duration_ms
                },
            },
        )
    }
}

/// The animations that a sequence of found tracks groups into, in order of
/// first appearance.
pub open spec fn group(entries: Seq<Entry>) -> Seq<AnimationView>
    decreases entries.len(),
{
    if entries.len() == 0 {
        Seq::empty()
    } else {
        add_entry(group(entries.drop_last()), entries.last())
    }
}

/// A joint's discovery facts: its bone name and its rest track's name. A
/// rest track that cannot be resolved, or has no name, is a broken
/// reference through the joint's track reference.
pub open spec fn dag_info_spec(doc: Document, naming: BoneNaming, tag: Seq<u8>, dag: Dag) -> Result<
    DagInfoView,
    WldError,
> {
    let r = FragmentRef::Index(dag.track_reference);
    match doc.spec_resolve(r, FragmentKind::Track) {
        Err(_) => Err(WldError::BrokenReference { via: r }),
        Ok(p) => match doc.spec_string(track_of(doc.frags()[p]).name_reference) {
            Err(_) => Err(WldError::BrokenReference { via: r }),
            Ok(None) => Err(WldError::BrokenReference { via: r }),
            Ok(Some(rest)) => match doc.name_or_empty(dag.name_reference) {
                Err(e) => Err(e),
                Ok(full) => Ok(
                    DagInfoView { bone_name: bone_name_spec(naming, tag, full), rest_track_name: rest },
                ),
            },
        },
    }
}

/// The error of the first of the first `n` joints whose facts cannot be had.
pub open spec fn first_info_error(
    doc: Document,
    naming: BoneNaming,
    tag: Seq<u8>,
    dags: Seq<Dag>,
    n: int,
) -> Option<WldError>
    decreases n,
{
    if n <= 0 {
        None
    } else {
        match first_info_error(doc, naming, tag, dags, n - 1) {
            Some(e) => Some(e),
            None => match dag_info_spec(doc, naming, tag, dags[n - 1]) {
                Err(e) => Some(e),
                Ok(_) => None,
            },
        }
    }
}

/// What pairing joint `i` (with facts `info`) with the track at 1-based
/// index `t` yields: nothing if the track's name does not end with the
/// joint's rest track name, else the found track, or a broken reference
/// when its definition cannot be resolved.
pub open spec fn pair_spec(doc: Document, info: DagInfoView, i: int, t: int) -> Result<
    Option<Entry>,
    WldError,
> {
    let track = track_of(doc.frags()[t - 1]);
    match doc.spec_string(track.name_reference) {
        Ok(Some(name)) => if ends_with_spec(name, info.rest_track_name) {
            match doc.spec_resolve(track.reference, FragmentKind::TrackDef) {
                Err(_) => Err(WldError::BrokenReference { via: track.reference }),
                Ok(p) => Ok(
                    Some(
                        Entry {
                            anim: animation_name_spec(name, info.rest_track_name),
                            track: BoneTrackView {
                                bone_index: i as u32,
                                bone_name: info.bone_name,
                                track_index: t as u32,
                                track_def_index: (p + 1) as u32,
                                ms_per_frame: match track.sleep {
                                    Some(s) => s,
                                    None => DEFAULT_SLEEP_MS,
                                },
                                frame_count: frame_count_spec(track_def_of(doc.frags()[p])),
                            },
                        },
                    ),
                ),
            }
        } else {
            Ok(None)
        },
        _ => Ok(None),
    }
}

/// The tracks found for joint `i` among the first `j` document tracks.
pub open spec fn scan_dag(
    doc: Document,
    info: DagInfoView,
    i: int,
    tracks: Seq<usize>,
    j: int,
) -> Result<Seq<Entry>, WldError>
    decreases j,
{
    if j <= 0 {
        Ok(Seq::empty())
    } else {
        match scan_dag(doc, info, i, tracks, j - 1) {
            Err(e) => Err(e),
            Ok(found) => match pair_spec(doc, info, i, tracks[j - 1] as int) {
                Err(e) => Err(e),
                Ok(None) => Ok(found),
                Ok(Some(e)) => Ok(found.push(e)),
            },
        }
    }
}

/// The tracks found for the first `i` joints, joint by joint.
pub open spec fn scan(doc: Document, infos: Seq<DagInfoView>, tracks: Seq<usize>, i: int) -> Result<
    Seq<Entry>,
    WldError,
>
    decreases i,
{
    if i <= 0 {
        Ok(Seq::empty())
    } else {
        match scan(doc, infos, tracks, i - 1) {
            Err(e) => Err(e),
            Ok(found) => match scan_dag(doc, infos[i - 1], i - 1, tracks, tracks.len() as int) {
                Err(e) => Err(e),
                Ok(more) => Ok(found + more),
            },
        }
    }
}

/// Whether every found track fits the 32-bit indices that hold it.
pub open spec fn indices_fit(doc: Document, dag_count: int) -> bool {
    doc.count_spec() < 0x1_0000_0000 && dag_count < 0x1_0000_0000
}

/// The values of a list of animations.
pub open spec fn anims_view(v: Seq<S3DAnimation>) -> Seq<AnimationView> {
    v.map_values(|a: S3DAnimation| a@)
}

/// The joint facts for every joint whose facts can be had.
pub open spec fn infos_spec(doc: Document, naming: BoneNaming, tag: Seq<u8>, dags: Seq<Dag>) -> Seq<
    DagInfoView,
> {
    Seq::new(dags.len(), |i: int| dag_info_spec(doc, naming, tag, dags[i])->Ok_0)
}

proof fn lemma_first_info_error_stays(
    doc: Document,
    naming: BoneNaming,
    tag: Seq<u8>,
    dags: Seq<Dag>,
    m: int,
    n: int,
)
    requires
        0 < m <= n,
        first_info_error(doc, naming, tag, dags, m) is Some,
    ensures
        first_info_error(doc, naming, tag, dags, n) == first_info_error(doc, naming, tag, dags, m),
    decreases n - m,
{
    if m < n {
        lemma_first_info_error_stays(doc, naming, tag, dags, m, n - 1);
    }
}

proof fn lemma_scan_dag_err_stays(
    doc: Document,
    info: DagInfoView,
    i: int,
    tracks: Seq<usize>,
    j: int,
    m: int,
)
    requires
        0 < j <= m,
        scan_dag(doc, info, i, tracks, j) is Err,
    ensures
        scan_dag(doc, info, i, tracks, m) == scan_dag(doc, info, i, tracks, j),
    decreases m - j,
{
    if j < m {
        lemma_scan_dag_err_stays(doc, info, i, tracks, j, m - 1);
    }
}

proof fn lemma_scan_err_stays(
    doc: Document,
    infos: Seq<DagInfoView>,
    tracks: Seq<usize>,
    i: int,
    m: int,
)
    requires
        0 < i <= m,
        scan(doc, infos, tracks, i) is Err,
    ensures
        scan(doc, infos, tracks, m) == scan(doc, infos, tracks, i),
    decreases m - i,
{
    if i < m {
        lemma_scan_err_stays(doc, infos, tracks, i, m - 1);
    }
}

/// The discovery facts of a joint.
pub fn dag_info(doc: &Document, naming: BoneNaming, tag: &Vec<u8>, dag: &Dag) -> (res: Result<
    DagInfo,
    WldError,
>)
    ensures
        match res {
            Ok(v) => dag_info_spec(*doc, naming, tag@, *dag) == Ok::<DagInfoView, WldError>(v@),
            Err(e) => dag_info_spec(*doc, naming, tag@, *dag) == Err::<DagInfoView, WldError>(e),
        },
{
    let r = FragmentRef::Index(dag.track_reference);
    let rest = match doc.get_track(r) {
        Ok(t) => t,
        Err(_) => {
            return Err(WldError::BrokenReference { via: r });
        },
    };
    let rest_track_name = match doc.get_string(rest.name_reference) {
        Ok(Some(n)) => n,
        _ => {
            return Err(WldError::BrokenReference { via: r });
        },
    };
    let full = doc.name_of(dag.name_reference)?;
    let bone_name = bone_name_from_dag(naming, tag, &full);
    Ok(DagInfo { bone_name, rest_track_name })
}

/// The discovery facts of every joint, or the first joint's error.
pub fn dag_infos(doc: &Document, naming: BoneNaming, tag: &Vec<u8>, dags: &Vec<Dag>) -> (res: Result<
    Vec<DagInfo>,
    WldError,
>)
    ensures
        match first_info_error(*doc, naming, tag@, dags@, dags@.len() as int) {
            Some(e) => res == Err::<Vec<DagInfo>, WldError>(e),
            None => res is Ok && res->Ok_0@.len() == dags@.len() && forall|i: int|
                0 <= i < dags@.len() ==> (#[trigger] res->Ok_0@[i])@ == infos_spec(
                    *doc,
                    naming,
                    tag@,
                    dags@,
                )[i],
        },
{
    let n = dags.len();
    let mut out: Vec<DagInfo> = Vec::new();
    let mut i: usize = 0;
    while i < n
        invariant
            n == dags@.len(),
            i <= n,
            first_info_error(*doc, naming, tag@, dags@, i as int) is None,
            out@.len() == i,
            forall|k: int|
                0 <= k < i ==> (#[trigger] out@[k])@ == infos_spec(*doc, naming, tag@, dags@)[k],
        decreases n - i,
    {
        match dag_info(doc, naming, tag, &dags[i]) {
            Ok(v) => {
                out.push(v);
            },
            Err(e) => {
                assert(first_info_error(*doc, naming, tag@, dags@, i as int + 1) == Some(e));
                proof {
                    lemma_first_info_error_stays(*doc, naming, tag@, dags@, i as int + 1, n as int);
                }
                return Err(e);
            },
        }
        i = i + 1;
    }
    Ok(out)
}

proof fn lemma_find_anim(anims: Seq<AnimationView>, name: Seq<u8>, k: int)
    requires
        0 <= k,
    ensures
        find_anim_from(anims, name, k) == -1 || (k <= find_anim_from(anims, name, k) < anims.len()
            && anims[find_anim_from(anims, name, k)].name == name),
        find_anim_from(anims, name, k) == -1 ==> forall|m: int|
            k <= m < anims.len() ==> #[trigger] anims[m].name != name,
    decreases anims.len() - k,
{
    if k < anims.len() && anims[k].name != name {
        lemma_find_anim(anims, name, k + 1);
    }
}

/// Every discovered animation lasts exactly as long as its longest bone
/// track (frame count times frame delay) and has at least one track.
pub proof fn lemma_animation_duration(entries: Seq<Entry>)
    ensures
        forall|k: int|
            0 <= k < group(entries).len() ==> {
                let a = #[trigger] group(entries)[k];
                &&& a.tracks.len() > 0
                &&& a.duration_ms == max_duration(a.tracks)
            },
    decreases entries.len(),
{
    if entries.len() > 0 {
        let prev_entries = entries.drop_last();
        lemma_animation_duration(prev_entries);
        let prev = group(prev_entries);
        let e = entries.last();
        let d = track_duration(e.track);
        assert(d >= 0) by (nonlinear_arith)
            requires
                d == e.track.frame_count * e.track.ms_per_frame,
        ;
        lemma_find_anim(prev, e.anim, 0);
        let k0 = find_anim_from(prev, e.anim, 0);
        let cur = group(entries);
        assert(cur == add_entry(prev, e));
        if k0 < 0 {
            assert forall|k: int| 0 <= k < cur.len() implies {
                let a = #[trigger] cur[k];
                &&& a.tracks.len() > 0
                &&& a.duration_ms == max_duration(a.tracks)
            } by {
                if k < prev.len() {
                    assert(cur[k] == prev[k]);
                } else {
                    assert(cur[k].tracks == seq![e.track]);
                    assert(seq![e.track].drop_last() == Seq::<BoneTrackView>::empty());
                    assert(max_duration(Seq::<BoneTrackView>::empty()) == 0);
                    assert(seq![e.track].last() == e.track);
                    assert(max_duration(seq![e.track]) == d);
                }
            }
        } else {
            assert forall|k: int| 0 <= k < cur.len() implies {
                let a = #[trigger] cur[k];
                &&& a.tracks.len() > 0
                &&& a.duration_ms == max_duration(a.tracks)
            } by {
                if k != k0 {
                    assert(cur[k] == prev[k]);
                } else {
                    let a = prev[k0];
                    assert(a.duration_ms == max_duration(a.tracks));
                    assert(cur[k].tracks == a.tracks.push(e.track));
                    assert(a.tracks.push(e.track).drop_last() == a.tracks);
                }
            }
        }
    }
}

/// Every track of a discovered animation is a found track filed under that
/// animation's name: a bone that has no track of some animation is simply
/// absent from it.
pub proof fn lemma_animation_track_found(entries: Seq<Entry>, k: int, m: int)
    requires
        0 <= k < group(entries).len(),
        0 <= m < group(entries)[k].tracks.len(),
    ensures
        exists|x: int|
            0 <= x < entries.len() && #[trigger] entries[x].anim == group(entries)[k].name
                && entries[x].track == group(entries)[k].tracks[m],
    decreases entries.len(),
{
    let prev_entries = entries.drop_last();
    let prev = group(prev_entries);
    let e = entries.last();
    let last = entries.len() - 1;
    lemma_find_anim(prev, e.anim, 0);
    let k0 = find_anim_from(prev, e.anim, 0);
    let cur = group(entries);
    assert(cur == add_entry(prev, e));
    if k < prev.len() && k != k0 {
        assert(cur[k] == prev[k]);
        lemma_animation_track_found(prev_entries, k, m);
        let x = choose|x: int|
            0 <= x < prev_entries.len() && #[trigger] prev_entries[x].anim == prev[k].name
                && prev_entries[x].track == prev[k].tracks[m];
        assert(entries[x] == prev_entries[x]);
    } else if k0 >= 0 && m < cur[k].tracks.len() - 1 {
        assert(k == k0);
        assert(cur[k].tracks == prev[k].tracks.push(e.track));
        assert(cur[k].tracks[m] == prev[k].tracks[m]);
        lemma_animation_track_found(prev_entries, k, m);
        let x = choose|x: int|
            0 <= x < prev_entries.len() && #[trigger] prev_entries[x].anim == prev[k].name
                && prev_entries[x].track == prev[k].tracks[m];
        assert(entries[x] == prev_entries[x]);
    } else {
        assert(entries[last] == e);
        if k0 < 0 {
            assert(k == prev.len());
            assert(cur[k].tracks == seq![e.track]);
        } else {
            assert(k == k0);
            assert(cur[k].tracks == prev[k].tracks.push(e.track));
        }
        assert(entries[last].anim == cur[k].name && entries[last].track == cur[k].tracks[m]);
    }
}

/// Every found track is filed, unchanged, under the animation that its name
/// calls for: no (bone, matching track) pair is lost.
pub proof fn lemma_entry_filed(entries: Seq<Entry>, x: int)
    requires
        0 <= x < entries.len(),
    ensures
        exists|k: int, m: int|
            0 <= k < group(entries).len() && 0 <= m < group(entries)[k].tracks.len()
                && #[trigger] group(entries)[k].tracks[m] == entries[x].track && group(
                entries,
            )[k].name == entries[x].anim,
    decreases entries.len(),
{
    let prev_entries = entries.drop_last();
    let prev = group(prev_entries);
    let e = entries.last();
    let last = entries.len() - 1;
    lemma_find_anim(prev, e.anim, 0);
    let k0 = find_anim_from(prev, e.anim, 0);
    let cur = group(entries);
    assert(cur == add_entry(prev, e));
    if x == last {
        if k0 < 0 {
            let k = prev.len() as int;
            assert(cur[k].tracks == seq![e.track]);
            assert(cur[k].tracks[0] == entries[x].track && cur[k].name == entries[x].anim);
        } else {
            let m = prev[k0].tracks.len() as int;
            assert(cur[k0].tracks == prev[k0].tracks.push(e.track));
            assert(cur[k0].tracks[m] == entries[x].track && cur[k0].name == entries[x].anim);
        }
    } else {
        assert(entries[x] == prev_entries[x]);
        lemma_entry_filed(prev_entries, x);
        let (k, m) = choose|k: int, m: int|
            0 <= k < prev.len() && 0 <= m < prev[k].tracks.len() && #[trigger] prev[k].tracks[m]
                == prev_entries[x].track && prev[k].name == prev_entries[x].anim;
        if k0 >= 0 && k == k0 {
            assert(cur[k].tracks == prev[k].tracks.push(e.track));
            assert(cur[k].tracks[m] == prev[k].tracks[m]);
        } else {
            assert(cur[k] == prev[k]);
        }
        assert(cur[k].tracks[m] == entries[x].track && cur[k].name == entries[x].anim);
    }
}

/// No two discovered animations share a name.
pub proof fn lemma_animation_names_unique(entries: Seq<Entry>)
    ensures
        forall|k1: int, k2: int|
            0 <= k1 < group(entries).len() && 0 <= k2 < group(entries).len() && k1 != k2 ==> (
            #[trigger] group(entries)[k1]).name != (#[trigger] group(entries)[k2]).name,
    decreases entries.len(),
{
    if entries.len() > 0 {
        let prev_entries = entries.drop_last();
        lemma_animation_names_unique(prev_entries);
        let prev = group(prev_entries);
        let e = entries.last();
        lemma_find_anim(prev, e.anim, 0);
        let k0 = find_anim_from(prev, e.anim, 0);
        let cur = group(entries);
        assert(cur == add_entry(prev, e));
        assert forall|k1: int, k2: int|
            0 <= k1 < cur.len() && 0 <= k2 < cur.len() && k1 != k2 implies (#[trigger] cur[k1]).name
            != (#[trigger] cur[k2]).name by {
            if k0 < 0 {
                if k1 < prev.len() && k2 < prev.len() {
                    assert(cur[k1] == prev[k1] && cur[k2] == prev[k2]);
                } else if k1 < prev.len() {
                    assert(cur[k1] == prev[k1]);
                    assert(prev[k1].name != e.anim);
                } else {
                    assert(cur[k2] == prev[k2]);
                    assert(prev[k2].name != e.anim);
                }
            } else {
                assert(cur[k1].name == prev[k1].name);
                assert(cur[k2].name == prev[k2].name);
            }
        }
    }
}

/// The position of the first animation named `name`.
fn find_animation(anims: &Vec<S3DAnimation>, name: &Vec<u8>) -> (r: Option<usize>)
    ensures
        match r {
            Some(k) => find_anim_from(anims_view(anims@), name@, 0) == k as int,
            None => find_anim_from(anims_view(anims@), name@, 0) == -1,
        },
{
    let ghost v = anims_view(anims@);
    let mut p: usize = anims.len();
    let mut found: Option<usize> = None;
    while p > 0
        invariant
            v == anims_view(anims@),
            p <= anims@.len(),
            match found {
                Some(k) => find_anim_from(v, name@, p as int) == k as int,
                None => find_anim_from(v, name@, p as int) == -1,
            },
        decreases p,
    {
        p = p - 1;
        if bytes_equal(&anims[p].name, name) {
            found = Some(p);
        }
    }
    found
}

/// Files a bone track under the animation named `anim`.
fn add_track(anims: &mut Vec<S3DAnimation>, anim: Vec<u8>, bt: BoneTrack)
    ensures
        anims_view(final(anims)@) == add_entry(
            anims_view(old(anims)@),
            Entry { anim: anim@, track: bt@ },
        ),
{
    let ghost old_v = anims_view(anims@);
    let fc = bt.frame_count as u128;
    let ms = bt.ms_per_frame as u128;
    assert(fc * ms <= 0x1_0000_0000_0000_0000u128 * 0x1_0000_0000u128) by (nonlinear_arith)
        requires
            fc <= 0x1_0000_0000_0000_0000u128,
            ms <= 0x1_0000_0000u128,
    ;
    let d: u128 = fc * ms;
    let ghost e = Entry { anim: anim@, track: bt@ };
    match find_animation(anims, &anim) {
        None => {
            let mut tracks: Vec<BoneTrack> = Vec::new();
            tracks.push(bt);
            let a = S3DAnimation { name: anim, tracks, duration_ms: d };
            assert(a@.tracks == seq![e.track]);
            anims.push(a);
            assert(anims_view(anims@) == old_v.push(a@));
        },
        Some(k) => {
            proof {
                lemma_find_anim(old_v, anim@, 0);
            }
            let mut a = anims.remove(k);
            let ghost old_tracks = a@.tracks;
            a.tracks.push(bt);
            assert(a@.tracks == old_tracks.push(e.track));
            if d > a.duration_ms {
                a.duration_ms = d;
            }
            let ghost a_v = a@;
            anims.insert(k, a);
            assert(anims_view(anims@) == old_v.update(k as int, a_v));
        },
    }
}

/// Finds every animation of a skeleton's joints: for each joint, in order,
/// every document track (in file order) whose name ends with the joint's
/// rest track name is filed under the animation that its name prefix names.
fn discover(doc: &Document, infos: &Vec<DagInfo>, tracks: &Vec<usize>, Ghost(iv): Ghost<
    Seq<DagInfoView>,
>) -> (res: Result<Vec<S3DAnimation>, WldError>)
    requires
        indices_fit(*doc, infos@.len() as int),
        tracks@ == doc.indices_of_kind_upto(FragmentKind::Track, doc.count_spec()),
        iv.len() == infos@.len(),
        forall|i: int| 0 <= i < iv.len() ==> iv[i] == (#[trigger] infos@[i])@,
    ensures
        match scan(*doc, iv, tracks@, infos@.len() as int) {
            Ok(entries) => res is Ok && anims_view(res->Ok_0@) == group(entries),
            Err(e) => res == Err::<Vec<S3DAnimation>, WldError>(e),
        },
{
    let n = infos.len();
    let tn = tracks.len();
    let count = doc.fragments.len();
    proof {
        doc.lemma_indices_of_kind(FragmentKind::Track, doc.count_spec());
    }
    let mut anims: Vec<S3DAnimation> = Vec::new();
    let mut i: usize = 0;
    while i < n
        invariant
            n == infos@.len(),
            tn == tracks@.len(),
            count == doc.count_spec(),
            indices_fit(*doc, n as int),
            iv.len() == n,
            forall|k: int| 0 <= k < iv.len() ==> iv[k] == (#[trigger] infos@[k])@,
            forall|k: int|
                0 <= k < tracks@.len() ==> {
                    let t = #[trigger] tracks@[k];
                    &&& 1 <= t <= count
                    &&& doc.frags()[t - 1].spec_kind() == FragmentKind::Track
                },
            i <= n,
            scan(*doc, iv, tracks@, i as int) is Ok,
            anims_view(anims@) == group(scan(*doc, iv, tracks@, i as int)->Ok_0),
        decreases n - i,
    {
        let info = &infos[i];
        let ghost before = scan(*doc, iv, tracks@, i as int)->Ok_0;
        let mut j: usize = 0;
        while j < tn
            invariant
                n == infos@.len(),
                tn == tracks@.len(),
                count == doc.count_spec(),
                indices_fit(*doc, n as int),
                i < n,
                iv.len() == n,
                *info == infos@[i as int],
                iv[i as int] == info@,
                forall|k: int|
                    0 <= k < tracks@.len() ==> {
                        let t = #[trigger] tracks@[k];
                        &&& 1 <= t <= count
                        &&& doc.frags()[t - 1].spec_kind() == FragmentKind::Track
                    },
                j <= tn,
                scan(*doc, iv, tracks@, i as int) == Ok::<Seq<Entry>, WldError>(before),
                scan_dag(*doc, info@, i as int, tracks@, j as int) is Ok,
                anims_view(anims@) == group(
                    before + scan_dag(*doc, info@, i as int, tracks@, j as int)->Ok_0,
                ),
            decreases tn - j,
        {
            let t = tracks[j];
            let ghost found = scan_dag(*doc, info@, i as int, tracks@, j as int)->Ok_0;
            assert(1 <= tracks@[j as int] <= count);
            let track: &Track = match &doc.fragments[t - 1] {
                Fragment::Track(tr) => tr,
                _ => {
                    // `tracks` lists only tracks.
                    assert(false);
                    return Err(WldError::MalformedInput);
                },
            };
            match doc.get_string(track.name_reference) {
                Ok(Some(name)) => {
                    if ends_with(&name, &info.rest_track_name) {
                        let p = match doc.resolve(track.reference, FragmentKind::TrackDef) {
                            Ok(p) => p,
                            Err(_) => {
                                let e = WldError::BrokenReference { via: track.reference };
                                assert(scan_dag(*doc, info@, i as int, tracks@, j as int + 1) == Err::<
                                    Seq<Entry>,
                                    WldError,
                                >(e));
                                proof {
                                    lemma_scan_dag_err_stays(
                                        *doc,
                                        info@,
                                        i as int,
                                        tracks@,
                                        j as int + 1,
                                        tn as int,
                                    );
                                }
                                assert(scan(*doc, iv, tracks@, i as int + 1) == Err::<
                                    Seq<Entry>,
                                    WldError,
                                >(e));
                                proof {
                                    lemma_scan_err_stays(*doc, iv, tracks@, i as int + 1, n as int);
                                }
                                return Err(e);
                            },
                        };
                        let frame_count = match &doc.fragments[p] {
                            Fragment::TrackDef(d) => d.frame_count(),
                            _ => {
                                // `resolve` checked the kind.
                                assert(false);
                                return Err(WldError::MalformedInput);
                            },
                        };
                        let bt = BoneTrack {
                            bone_index: i as u32,
                            bone_name: copy_bytes(&info.bone_name),
                            track_index: t as u32,
                            track_def_index: (p + 1) as u32,
                            ms_per_frame: match track.sleep {
                                Some(s) => s,
                                None => DEFAULT_SLEEP_MS,
                            },
                            frame_count,
                        };
                        let anim = animation_name(&name, &info.rest_track_name);
                        let ghost e = Entry { anim: anim@, track: bt@ };
                        assert(pair_spec(*doc, info@, i as int, t as int) == Ok::<
                            Option<Entry>,
                            WldError,
                        >(Some(e)));
                        add_track(&mut anims, anim, bt);
                        assert(before + found.push(e) == (before + found).push(e));
                        assert((before + found).push(e).drop_last() == before + found);
                    }
                },
                _ => {},
            }
            j = j + 1;
        }
        assert(before + scan_dag(*doc, info@, i as int, tracks@, tn as int)->Ok_0 == scan(
            *doc,
            iv,
            tracks@,
            i as int + 1,
        )->Ok_0);
        i = i + 1;
    }
    Ok(anims)
}

impl S3DHierSprite {
    /// Every animation of this skeleton, discovered by track-name suffix
    /// (see `discover`); the unprefixed one is named `REST`. Fails if a
    /// joint's name or rest track (or that track's name) cannot be resolved,
    /// or a found track's definition cannot be.
    pub fn animations(&self, doc: &Document) -> (res: Result<Vec<S3DAnimation>, WldError>)
        requires
            self.valid_in(*doc),
        ensures
            ({
                let dags = self.def_in(*doc).dags@;
                match self.name_spec(*doc) {
                    Err(e) => res == Err::<Vec<S3DAnimation>, WldError>(e),
                    Ok(name) => {
                        let naming = naming_for_spec(name);
                        let tag = actor_tag_spec(naming, name);
                        match first_info_error(*doc, naming, tag, dags, dags.len() as int) {
                            Some(e) => res == Err::<Vec<S3DAnimation>, WldError>(e),
                            None => if !indices_fit(*doc, dags.len() as int) {
                                res == Err::<Vec<S3DAnimation>, WldError>(WldError::MalformedInput)
                            } else {
                                match scan(
                                    *doc,
                                    infos_spec(*doc, naming, tag, dags),
                                    doc.indices_of_kind_upto(FragmentKind::Track, doc.count_spec()),
                                    dags.len() as int,
                                ) {
                                    Ok(entries) => res is Ok && anims_view(res->Ok_0@) == group(
                                        entries,
                                    ),
                                    Err(e) => res == Err::<Vec<S3DAnimation>, WldError>(e),
                                }
                            },
                        }
                    },
                }
            }),
    {
        let (naming, tag) = self.naming(doc)?;
        let dags = &self.def(doc).dags;
        let infos = dag_infos(doc, naming, &tag, dags)?;
        if doc.fragments.len() as u64 >= 0x1_0000_0000u64 || dags.len() as u64 >= 0x1_0000_0000u64 {
            return Err(WldError::MalformedInput);
        }
        let tracks = doc.indices_of_kind(FragmentKind::Track);
        let ghost iv = infos_spec(*doc, naming, tag@, dags@);
        discover(doc, &infos, &tracks, Ghost(iv))
    }
}

/// One keyframe of a bone track, with its time from the animation's start.
#[derive(Clone, Copy, Debug, PartialEq, Eq, Structural)]
pub struct TimedKeyframe {
    pub time_ms: u128,
    pub frame: Keyframe,
}

impl BoneTrack {
    /// The track's keyframes, frame `i` at `i * ms_per_frame`, read from the
    /// (possibly shared) track definition it points at.
    pub fn keyframes(&self, doc: &Document) -> (res: Result<Vec<TimedKeyframe>, WldError>)
        ensures
            ({
                let r = FragmentRef::Index(self.track_def_index);
                match doc.spec_resolve(r, FragmentKind::TrackDef) {
                    Err(e) => res == Err::<Vec<TimedKeyframe>, WldError>(e),
                    Ok(p) => {
                        let d = track_def_of(doc.frags()[p]);
                        &&& res is Ok
                        &&& res->Ok_0@.len() == frame_count_spec(d)
                        &&& forall|i: int|
                            0 <= i < res->Ok_0@.len() ==> (#[trigger] res->Ok_0@[i]).time_ms == i
                                * self.ms_per_frame && res->Ok_0@[i].frame == frame_spec(d, i)
                    },
                }
            }),
    {
        let d = doc.get_track_def(FragmentRef::Index(self.track_def_index))?;
        let frames = d.keyframes();
        let ms = self.ms_per_frame as u128;
        let mut out: Vec<TimedKeyframe> = Vec::new();
        let mut i: usize = 0;
        while i < frames.len()
            invariant
                i <= frames@.len(),
                ms == self.ms_per_frame,
                frames@.len() == frame_count_spec(*d),
                forall|j: int| 0 <= j < frames@.len() ==> frames@[j] == frame_spec(*d, j),
                out@.len() == i,
                forall|j: int|
                    0 <= j < i ==> (#[trigger] out@[j]).time_ms == j * self.ms_per_frame
                        && out@[j].frame == frame_spec(*d, j),
            decreases frames@.len() - i,
        {
            let iu = i as u128;
            assert(iu * ms <= 0x1_0000_0000_0000_0000u128 * 0x1_0000_0000u128) by (nonlinear_arith)
                requires
                    iu <= 0x1_0000_0000_0000_0000u128,
                    ms <= 0x1_0000_0000u128,
            ;
            out.push(TimedKeyframe { time_ms: iu * ms, frame: frames[i] });
            i = i + 1;
        }
        Ok(out)
    }
}

} // verus!
