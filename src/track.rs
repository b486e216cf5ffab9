use vstd::prelude::*;

use crate::fragment::{FrameTransform, Frames, LegacyFrameTransform, TrackDef};

verus! {

/// A decoded keyframe translation, in the format's own axis order.
#[derive(Clone, Copy, Debug, PartialEq, Eq, Structural)]
pub enum Translation {
    /// No offset (the encoding's denominator is zero).
    Zero,
    /// `(x, y, z) / denominator`, with a non-zero denominator.
    Quantized { x: i16, y: i16, z: i16, denominator: i16 },
    /// `(x, y, z) / denominator` over single-precision bit patterns, with a
    /// denominator that is not a zero.
    Legacy { x: u32, y: u32, z: u32, denominator: u32 },
}

/// A decoded keyframe rotation quaternion `(x, y, z, w)`, in the format's own
/// axis order and not yet normalized.
#[derive(Clone, Copy, Debug, PartialEq, Eq, Structural)]
pub enum Rotation {
    /// Integer numerators; `w` is the rotation denominator.
    Quantized { x: i16, y: i16, z: i16, w: i16 },
    /// Single-precision bit patterns.
    Legacy { x: u32, y: u32, z: u32, w: u32 },
}

/// One decoded keyframe.
#[derive(Clone, Copy, Debug, PartialEq, Eq, Structural)]
pub struct Keyframe {
    pub translation: Translation,
    pub rotation: Rotation,
}

pub open spec fn translation_spec(t: FrameTransform) -> Translation {
    if t.shift_denominator == 0 {
        Translation::Zero
    } else {
        Translation::Quantized {
            x: t.shift_x_numerator,
            y: t.shift_y_numerator,
            z: t.shift_z_numerator,
            denominator: t.shift_denominator,
        }
    }
}

/// Whether a single-precision bit pattern is +0.0 or -0.0.
pub open spec fn is_float_zero(bits: u32) -> bool {
    bits & 0x7fff_ffff == 0
}

pub open spec fn legacy_translation_spec(t: LegacyFrameTransform) -> Translation {
    if is_float_zero(t.shift_denominator) {
        Translation::Zero
    } else {
        Translation::Legacy {
            x: t.shift_x_numerator,
            y: t.shift_y_numerator,
            z: t.shift_z_numerator,
            denominator: t.shift_denominator,
        }
    }
}

pub open spec fn keyframe_spec(t: FrameTransform) -> Keyframe {
    Keyframe {
        translation: translation_spec(t),
        rotation: Rotation::Quantized {
            x: t.rotate_x_numerator,
            y: t.rotate_y_numerator,
            z: t.rotate_z_numerator,
            w: t.rotate_denominator,
        },
    }
}

pub open spec fn legacy_keyframe_spec(t: LegacyFrameTransform) -> Keyframe {
    Keyframe {
        translation: legacy_translation_spec(t),
        rotation: Rotation::Legacy { x: t.rotate_x, y: t.rotate_y, z: t.rotate_z, w: t.rotate_w },
    }
}

/// The number of keyframes of a track definition.
pub open spec fn frame_count_spec(d: TrackDef) -> nat {
    match d.frames {
        Frames::Quantized(v) => v@.len(),
        Frames::Legacy(v) => v@.len(),
    }
}

/// Keyframe `i` of a track definition, decoded.
pub open spec fn frame_spec(d: TrackDef, i: int) -> Keyframe {
    match d.frames {
        Frames::Quantized(v) => keyframe_spec(v@[i]),
        Frames::Legacy(v) => legacy_keyframe_spec(v@[i]),
    }
}

/// Decodes a quantized translation; a zero denominator means no offset,
/// whatever the numerators hold.
pub fn decode_translation(t: &FrameTransform) -> (r: Translation)
    ensures
        r == translation_spec(*t),
{
    if t.shift_denominator == 0 {
        Translation::Zero
    } else {
        Translation::Quantized {
            x: t.shift_x_numerator,
            y: t.shift_y_numerator,
            z: t.shift_z_numerator,
            denominator: t.shift_denominator,
        }
    }
}

/// Decodes a legacy translation; a zero denominator (of either sign) means
/// no offset.
pub fn decode_legacy_translation(t: &LegacyFrameTransform) -> (r: Translation)
    ensures
        r == legacy_translation_spec(*t),
{
    if t.shift_denominator & 0x7fff_ffff == 0 {
        Translation::Zero
    } else {
        Translation::Legacy {
            x: t.shift_x_numerator,
            y: t.shift_y_numerator,
            z: t.shift_z_numerator,
            denominator: t.shift_denominator,
        }
    }
}

/// Decodes one quantized keyframe.
pub fn decode_keyframe(t: &FrameTransform) -> (r: Keyframe)
    ensures
        r == keyframe_spec(*t),
{
    Keyframe {
        translation: decode_translation(t),
        rotation: Rotation::Quantized {
            x: t.rotate_x_numerator,
            y: t.rotate_y_numerator,
            z: t.rotate_z_numerator,
            w: t.rotate_denominator,
        },
    }
}

/// Decodes one legacy keyframe.
pub fn decode_legacy_keyframe(t: &LegacyFrameTransform) -> (r: Keyframe)
    ensures
        r == legacy_keyframe_spec(*t),
{
    Keyframe {
        translation: decode_legacy_translation(t),
        rotation: Rotation::Legacy { x: t.rotate_x, y: t.rotate_y, z: t.rotate_z, w: t.rotate_w },
    }
}

impl TrackDef {
    /// The number of keyframes.
    pub fn frame_count(&self) -> (n: usize)
        ensures
            n == frame_count_spec(*self),
    {
        match &self.frames {
            Frames::Quantized(v) => v.len(),
            Frames::Legacy(v) => v.len(),
        }
    }

    /// Keyframe `i`, decoded; `None` past the last frame.
    pub fn frame(&self, i: usize) -> (r: Option<Keyframe>)
        ensures
            r is Some <==> i < frame_count_spec(*self),
            r matches Some(k) ==> k == frame_spec(*self, i as int),
    {
        match &self.frames {
            Frames::Quantized(v) => {
                if i < v.len() {
                    Some(decode_keyframe(&v[i]))
                } else {
                    None
                }
            },
            Frames::Legacy(v) => {
                if i < v.len() {
                    Some(decode_legacy_keyframe(&v[i]))
                } else {
                    None
                }
            },
        }
    }

    /// Every keyframe, decoded, in order.
    pub fn keyframes(&self) -> (r: Vec<Keyframe>)
        ensures
            r@.len() == frame_count_spec(*self),
            forall|i: int| 0 <= i < r@.len() ==> r@[i] == frame_spec(*self, i),
    {
        let n = self.frame_count();
        let mut out: Vec<Keyframe> = Vec::new();
        let mut i: usize = 0;
        while i < n
            invariant
                n == frame_count_spec(*self),
                i <= n,
                out@.len() == i,
                forall|j: int| 0 <= j < i ==> out@[j] == frame_spec(*self, j),
            decreases n - i,
        {
            match self.frame(i) {
                Some(k) => out.push(k),
                None => {},
            }
            i = i + 1;
        }
        out
    }
}

} // verus!
