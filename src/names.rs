use vstd::prelude::*;

verus! {

/// `s` with every non-overlapping occurrence of `pat`, scanned from the
/// left, removed. An empty pattern removes nothing.
pub open spec fn remove_all_spec(s: Seq<u8>, pat: Seq<u8>) -> Seq<u8>
    decreases s.len(),
{
    if pat.len() == 0 || s.len() < pat.len() {
        s
    } else if s.subrange(0, pat.len() as int) == pat {
        remove_all_spec(s.subrange(pat.len() as int, s.len() as int), pat)
    } else {
        seq![s[0]] + remove_all_spec(s.subrange(1, s.len() as int), pat)
    }
}

/// Whether `s` ends with `suffix`.
pub open spec fn ends_with_spec(s: Seq<u8>, suffix: Seq<u8>) -> bool {
    suffix.len() <= s.len() && s.subrange(s.len() - suffix.len(), s.len() as int) == suffix
}

/// `s` without its last `n` bytes.
pub open spec fn drop_last(s: Seq<u8>, n: int) -> Seq<u8> {
    s.subrange(0, s.len() - n)
}

pub open spec fn root_name() -> Seq<u8> {
    seq![82u8, 79, 79, 84]
}

pub open spec fn rest_name() -> Seq<u8> {
    seq![82u8, 69, 83, 84]
}

pub open spec fn dag_marker() -> Seq<u8> {
    seq![95u8, 68, 65, 71]
}

pub open spec fn sprite_marker() -> Seq<u8> {
    seq![95u8, 72, 83, 95, 68, 69, 70]
}

pub open spec fn actordef_marker() -> Seq<u8> {
    seq![65u8, 67, 84, 79, 82, 68, 69, 70, 95]
}

/// The name given to the root bone, which the data leaves unnamed.
pub fn root_bone_name() -> (r: Vec<u8>)
    ensures
        r@ == root_name(),
{
    let r = vec![82u8, 79, 79, 84];
    assert(r@ == root_name());
    r
}

/// The name given to the rest animation, which the data leaves unnamed.
pub fn rest_animation_name() -> (r: Vec<u8>)
    ensures
        r@ == rest_name(),
{
    let r = vec![82u8, 69, 83, 84];
    assert(r@ == rest_name());
    r
}

fn dag_marker_bytes() -> (r: Vec<u8>)
    ensures
        r@ == dag_marker(),
{
    let r = vec![95u8, 68, 65, 71];
    assert(r@ == dag_marker());
    r
}

fn sprite_marker_bytes() -> (r: Vec<u8>)
    ensures
        r@ == sprite_marker(),
{
    let r = vec![95u8, 72, 83, 95, 68, 69, 70];
    assert(r@ == sprite_marker());
    r
}

fn actordef_marker_bytes() -> (r: Vec<u8>)
    ensures
        r@ == actordef_marker(),
{
    let r = vec![65u8, 67, 84, 79, 82, 68, 69, 70, 95];
    assert(r@ == actordef_marker());
    r
}

/// Whether `pat` occurs in `s` at position `at`.
pub fn matches_at(s: &Vec<u8>, at: usize, pat: &Vec<u8>) -> (b: bool)
    requires
        at + pat@.len() <= s@.len(),
    ensures
        b == (s@.subrange(at as int, at + pat@.len()) == pat@),
{
    let n: usize = s.len();
    let mut k: usize = 0;
    while k < pat.len()
        invariant
            n == s@.len(),
            at + pat@.len() <= s@.len(),
            k <= pat@.len(),
            s@.subrange(at as int, at + k) == pat@.subrange(0, k as int),
        decreases pat@.len() - k,
    {
        if s[at + k] != pat[k] {
            assert(s@.subrange(at as int, at + pat@.len())[k as int] != pat@[k as int]);
            return false;
        }
        k = k + 1;
        assert(s@.subrange(at as int, at + k) == pat@.subrange(0, k as int));
    }
    assert(pat@.subrange(0, k as int) == pat@);
    true
}

/// Whether two byte strings are equal.
pub fn bytes_equal(a: &Vec<u8>, b: &Vec<u8>) -> (r: bool)
    ensures
        r == (a@ == b@),
{
    if a.len() != b.len() {
        return false;
    }
    let mut k: usize = 0;
    while k < a.len()
        invariant
            a@.len() == b@.len(),
            k <= a@.len(),
            a@.subrange(0, k as int) == b@.subrange(0, k as int),
        decreases a@.len() - k,
    {
        if a[k] != b[k] {
            assert(a@[k as int] != b@[k as int]);
            return false;
        }
        k = k + 1;
        assert(a@.subrange(0, k as int) == b@.subrange(0, k as int));
    }
    assert(a@ == a@.subrange(0, k as int));
    assert(b@ == b@.subrange(0, k as int));
    true
}

/// A copy of a byte string.
pub fn copy_bytes(a: &Vec<u8>) -> (r: Vec<u8>)
    ensures
        r@ == a@,
{
    let mut out: Vec<u8> = Vec::new();
    let mut k: usize = 0;
    while k < a.len()
        invariant
            k <= a@.len(),
            out@ == a@.subrange(0, k as int),
        decreases a@.len() - k,
    {
        out.push(a[k]);
        k = k + 1;
        assert(out@ == a@.subrange(0, k as int));
    }
    assert(a@ == a@.subrange(0, k as int));
    out
}

/// Whether `s` starts with `prefix`.
pub open spec fn starts_with_spec(s: Seq<u8>, prefix: Seq<u8>) -> bool {
    prefix.len() <= s.len() && s.subrange(0, prefix.len() as int) == prefix
}

/// Whether `s` starts with `prefix`.
pub fn starts_with(s: &Vec<u8>, prefix: &Vec<u8>) -> (b: bool)
    ensures
        b == starts_with_spec(s@, prefix@),
{
    if prefix.len() > s.len() {
        return false;
    }
    matches_at(s, 0, prefix)
}

/// Whether `s` ends with `suffix`.
pub fn ends_with(s: &Vec<u8>, suffix: &Vec<u8>) -> (b: bool)
    ensures
        b == ends_with_spec(s@, suffix@),
{
    if suffix.len() > s.len() {
        return false;
    }
    matches_at(s, s.len() - suffix.len(), suffix)
}

/// `s` without its last `n` bytes.
pub fn without_last(s: &Vec<u8>, n: usize) -> (r: Vec<u8>)
    requires
        n <= s@.len(),
    ensures
        r@ == drop_last(s@, n as int),
{
    let end = s.len() - n;
    let mut out: Vec<u8> = Vec::new();
    let mut i: usize = 0;
    while i < end
        invariant
            end == s@.len() - n,
            i <= end,
            out@ == s@.subrange(0, i as int),
        decreases end - i,
    {
        out.push(s[i]);
        i = i + 1;
        assert(out@ == s@.subrange(0, i as int));
    }
    out
}

proof fn lemma_remove_all_short(s: Seq<u8>, pat: Seq<u8>)
    requires
        pat.len() == 0 || s.len() < pat.len(),
    ensures
        remove_all_spec(s, pat) == s,
{
}

/// `s` with every non-overlapping occurrence of `pat`, from the left, removed
/// (a string replace with the empty string).
pub fn remove_all(s: &Vec<u8>, pat: &Vec<u8>) -> (r: Vec<u8>)
    ensures
        r@ == remove_all_spec(s@, pat@),
{
    let n = s.len();
    let m = pat.len();
    let mut out: Vec<u8> = Vec::new();
    let mut i: usize = 0;
    assert(s@.subrange(0, n as int) == s@);
    assert(out@ + s@ == s@);
    while i < n
        invariant
            n == s@.len(),
            m == pat@.len(),
            i <= n,
            out@ + remove_all_spec(s@.subrange(i as int, n as int), pat@) == remove_all_spec(
                s@,
                pat@,
            ),
        decreases n - i,
    {
        let ghost t = s@.subrange(i as int, n as int);
        if m > 0 && m <= n - i && matches_at(s, i, pat) {
            assert(t.subrange(0, m as int) == s@.subrange(i as int, i + m));
            assert(t.subrange(m as int, t.len() as int) == s@.subrange(i + m, n as int));
            i = i + m;
        } else {
            let ghost rest = s@.subrange(i + 1, n as int);
            assert(t.subrange(1, t.len() as int) == rest);
            if m == 0 || n - i < m {
                proof {
                    lemma_remove_all_short(t, pat@);
                    lemma_remove_all_short(rest, pat@);
                }
                assert(t == seq![t[0]] + rest);
            } else {
                assert(t.subrange(0, m as int) == s@.subrange(i as int, i + m));
            }
            assert(remove_all_spec(t, pat@) == seq![s@[i as int]] + remove_all_spec(rest, pat@));
            out.push(s[i]);
            i = i + 1;
            assert(out@ + remove_all_spec(rest, pat@) == remove_all_spec(s@, pat@));
        }
    }
    assert(s@.subrange(n as int, n as int) == Seq::<u8>::empty());
    assert(out@ + Seq::<u8>::empty() == out@);
    out
}

/// How generic bone names are derived from joint names; the two revisions
/// of the format disagree.
#[derive(Clone, Copy, Debug, PartialEq, Eq, Structural)]
pub enum BoneNaming {
    /// Skeletons named `<TAG>_HS_DEF`: the tag and the `_DAG` marker are
    /// removed wherever they occur in the joint name.
    Marker,
    /// Skeletons named `ACTORDEF_<TAG>`: `<TAG>_` is removed from the joint name.
    Prefix,
}

/// The naming rule that a skeleton's own name calls for.
pub open spec fn naming_for_spec(skeleton_name: Seq<u8>) -> BoneNaming {
    if ends_with_spec(skeleton_name, sprite_marker()) {
        BoneNaming::Marker
    } else {
        BoneNaming::Prefix
    }
}

/// The actor tag: the skeleton's name without its naming marker.
pub open spec fn actor_tag_spec(naming: BoneNaming, skeleton_name: Seq<u8>) -> Seq<u8> {
    match naming {
        BoneNaming::Marker => remove_all_spec(skeleton_name, sprite_marker()),
        BoneNaming::Prefix => remove_all_spec(skeleton_name, actordef_marker()),
    }
}

/// The generic bone name for a joint name under a naming rule and tag.
pub open spec fn bone_name_spec(naming: BoneNaming, tag: Seq<u8>, dag_name: Seq<u8>) -> Seq<u8> {
    let stripped = match naming {
        BoneNaming::Marker => remove_all_spec(remove_all_spec(dag_name, tag), dag_marker()),
        BoneNaming::Prefix => remove_all_spec(dag_name, tag.push(95u8)),
    };
    if stripped.len() == 0 {
        root_name()
    } else {
        stripped
    }
}

/// The name of the animation that a track belongs to, given the name of the
/// rest track it varies: the track name without that suffix, or `REST`.
pub open spec fn animation_name_spec(track_name: Seq<u8>, rest_track_name: Seq<u8>) -> Seq<u8> {
    let prefix = drop_last(track_name, rest_track_name.len() as int);
    if prefix.len() == 0 {
        rest_name()
    } else {
        prefix
    }
}

impl BoneNaming {
    /// Picks the naming rule from the skeleton's own name.
    pub fn detect(skeleton_name: &Vec<u8>) -> (n: BoneNaming)
        ensures
            n == naming_for_spec(skeleton_name@),
    {
        if ends_with(skeleton_name, &sprite_marker_bytes()) {
            BoneNaming::Marker
        } else {
            BoneNaming::Prefix
        }
    }
}

/// The actor tag shared by a skeleton's joints.
pub fn actor_tag(naming: BoneNaming, skeleton_name: &Vec<u8>) -> (r: Vec<u8>)
    ensures
        r@ == actor_tag_spec(naming, skeleton_name@),
{
    match naming {
        BoneNaming::Marker => remove_all(skeleton_name, &sprite_marker_bytes()),
        BoneNaming::Prefix => remove_all(skeleton_name, &actordef_marker_bytes()),
    }
}

/// The generic (tag-free) name of a bone; the root, whose joint name holds
/// nothing else, is named `ROOT`.
pub fn bone_name_from_dag(naming: BoneNaming, tag: &Vec<u8>, dag_name: &Vec<u8>) -> (r: Vec<u8>)
    ensures
        r@ == bone_name_spec(naming, tag@, dag_name@),
{
    let stripped = match naming {
        BoneNaming::Marker => remove_all(&remove_all(dag_name, tag), &dag_marker_bytes()),
        BoneNaming::Prefix => {
            let mut t = tag.clone();
            t.push(95u8);
            remove_all(dag_name, &t)
        },
    };
    if stripped.len() == 0 {
        root_bone_name()
    } else {
        stripped
    }
}

/// The animation name for a track that ends with the rest track's name.
pub fn animation_name(track_name: &Vec<u8>, rest_track_name: &Vec<u8>) -> (r: Vec<u8>)
    requires
        rest_track_name@.len() <= track_name@.len(),
    ensures
        r@ == animation_name_spec(track_name@, rest_track_name@),
{
    let prefix = without_last(track_name, rest_track_name.len());
    if prefix.len() == 0 {
        rest_animation_name()
    } else {
        prefix
    }
}

} // verus!
