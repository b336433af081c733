//! The humanoid performer contract: semantic joints, camera targets and
//! performance states shared by staging, camera direction and animation.
use vstd::prelude::*;

verus! {

/// Semantic joints every humanoid performer exposes. Camera framing, gaze and
/// prop attachment target these names, never a capsule height.
#[derive(Debug, Clone, Copy, PartialEq, Eq, Hash, Structural)]
pub enum SemanticJoint {
    Root,
    Pelvis,
    Chest,
    UpperChest,
    Neck,
    Head,
    LeftHand,
    RightHand,
    LeftWrist,
    RightWrist,
    Jaw,
    LeftEye,
    RightEye,
    Gaze,
    PropGrip,
    LeftUpperArm,
    RightUpperArm,
    LeftThigh,
    RightThigh,
    LeftShin,
    RightShin,
}

/// The semantic joints in declaration order.
pub open spec fn semantic_joint_order() -> Seq<SemanticJoint> {
    seq![
        SemanticJoint::Root,
        SemanticJoint::Pelvis,
        SemanticJoint::Chest,
        SemanticJoint::UpperChest,
        SemanticJoint::Neck,
        SemanticJoint::Head,
        SemanticJoint::LeftHand,
        SemanticJoint::RightHand,
        SemanticJoint::LeftWrist,
        SemanticJoint::RightWrist,
        SemanticJoint::Jaw,
        SemanticJoint::LeftEye,
        SemanticJoint::RightEye,
        SemanticJoint::Gaze,
        SemanticJoint::PropGrip,
        SemanticJoint::LeftUpperArm,
        SemanticJoint::RightUpperArm,
        SemanticJoint::LeftThigh,
        SemanticJoint::RightThigh,
        SemanticJoint::LeftShin,
        SemanticJoint::RightShin,
    ]
}

impl SemanticJoint {
    /// Every semantic joint, each exactly once, in declaration order.
    pub fn all() -> (r: &'static [SemanticJoint])
        ensures
            r@ == semantic_joint_order(),
            r@.len() == 21,
            r@.no_duplicates(),
            forall|j: SemanticJoint| r@.contains(j),
    {
        let r: &'static [SemanticJoint] = &[
            SemanticJoint::Root,
            SemanticJoint::Pelvis,
            SemanticJoint::Chest,
            SemanticJoint::UpperChest,
            SemanticJoint::Neck,
            SemanticJoint::Head,
            SemanticJoint::LeftHand,
            SemanticJoint::RightHand,
            SemanticJoint::LeftWrist,
            SemanticJoint::RightWrist,
            SemanticJoint::Jaw,
            SemanticJoint::LeftEye,
            SemanticJoint::RightEye,
            SemanticJoint::Gaze,
            SemanticJoint::PropGrip,
            SemanticJoint::LeftUpperArm,
            SemanticJoint::RightUpperArm,
            SemanticJoint::LeftThigh,
            SemanticJoint::RightThigh,
            SemanticJoint::LeftShin,
            SemanticJoint::RightShin,
        ];
        r
    }
}

/// Which semantic point a camera shot should frame.
#[derive(Debug, Clone, Copy, PartialEq, Eq, Structural)]
pub enum CameraTargetRole {
    Head,
    Chest,
    Gaze,
    PropGrip,
}

/// The animation state a performer is in.
#[derive(Debug, Clone, Copy, PartialEq, Eq, Structural)]
pub enum PerformanceState {
    Idle,
    Walk,
    Talk,
    Listen,
    React,
    Gesture,
    Point,
    Look,
}

/// One joint of the stand-in humanoid's skeleton: the joint, the joint it
/// hangs from, and whether it can hold a prop. Offsets, sizes and colours are
/// floating-point and belong to the renderer.
#[derive(Debug, Clone, Copy, PartialEq, Eq, Structural)]
pub struct SkeletonPart {
    pub joint: SemanticJoint,
    pub parent: SemanticJoint,
    pub is_grip: bool,
}

/// Part `i` of the stand-in humanoid's skeleton (the last one for any `i`
/// past the end).
pub open spec fn skeleton_part(i: int) -> SkeletonPart {
    if i == 0 {
        SkeletonPart { joint: SemanticJoint::Pelvis, parent: SemanticJoint::Root, is_grip: false }
    } else if i == 1 {
        SkeletonPart { joint: SemanticJoint::Chest, parent: SemanticJoint::Pelvis, is_grip: false }
    } else if i == 2 {
        SkeletonPart { joint: SemanticJoint::UpperChest, parent: SemanticJoint::Chest, is_grip: false }
    } else if i == 3 {
        SkeletonPart { joint: SemanticJoint::Neck, parent: SemanticJoint::UpperChest, is_grip: false }
    } else if i == 4 {
        SkeletonPart { joint: SemanticJoint::Head, parent: SemanticJoint::Neck, is_grip: false }
    } else if i == 5 {
        SkeletonPart { joint: SemanticJoint::Jaw, parent: SemanticJoint::Head, is_grip: false }
    } else if i == 6 {
        SkeletonPart { joint: SemanticJoint::LeftEye, parent: SemanticJoint::Head, is_grip: false }
    } else if i == 7 {
        SkeletonPart { joint: SemanticJoint::RightEye, parent: SemanticJoint::Head, is_grip: false }
    } else if i == 8 {
        SkeletonPart { joint: SemanticJoint::Gaze, parent: SemanticJoint::Head, is_grip: false }
    } else if i == 9 {
        SkeletonPart { joint: SemanticJoint::LeftUpperArm, parent: SemanticJoint::UpperChest, is_grip: false }
    } else if i == 10 {
        SkeletonPart { joint: SemanticJoint::RightUpperArm, parent: SemanticJoint::UpperChest, is_grip: false }
    } else if i == 11 {
        SkeletonPart { joint: SemanticJoint::LeftHand, parent: SemanticJoint::LeftUpperArm, is_grip: true }
    } else if i == 12 {
        SkeletonPart { joint: SemanticJoint::RightHand, parent: SemanticJoint::RightUpperArm, is_grip: true }
    } else if i == 13 {
        SkeletonPart { joint: SemanticJoint::LeftThigh, parent: SemanticJoint::Pelvis, is_grip: false }
    } else if i == 14 {
        SkeletonPart { joint: SemanticJoint::RightThigh, parent: SemanticJoint::Pelvis, is_grip: false }
    } else if i == 15 {
        SkeletonPart { joint: SemanticJoint::LeftShin, parent: SemanticJoint::LeftThigh, is_grip: false }
    } else if i == 16 {
        SkeletonPart { joint: SemanticJoint::RightShin, parent: SemanticJoint::RightThigh, is_grip: false }
    } else {
        SkeletonPart { joint: SemanticJoint::PropGrip, parent: SemanticJoint::LeftHand, is_grip: true }
    }
}

/// The joint tree of the stand-in humanoid, parents listed before children.
pub open spec fn humanoid_skeleton() -> Seq<SkeletonPart> {
    Seq::new(18, |i: int| skeleton_part(i))
}

/// Parent before child: every part hangs from the root or from a part listed
/// before it.
pub open spec fn parents_first(parts: Seq<SkeletonPart>) -> bool {
    forall|i: int|
        0 <= i < parts.len() ==> (#[trigger] parts[i]).parent == SemanticJoint::Root || exists|k: int|
            0 <= k < i && (#[trigger] parts[k]).joint == parts[i].parent
}

/// No joint is listed twice, and the root is no part of its own.
pub open spec fn joints_once(parts: Seq<SkeletonPart>) -> bool {
    &&& forall|i: int, k: int|
        0 <= i < k < parts.len() ==> (#[trigger] parts[i]).joint != (#[trigger] parts[k]).joint
    &&& forall|i: int| 0 <= i < parts.len() ==> (#[trigger] parts[i]).joint != SemanticJoint::Root
}

/// Where a joint stands in the stand-in humanoid's skeleton (the root, which
/// is no part, and joints the skeleton lacks stand nowhere).
spec fn skeleton_rank(j: SemanticJoint) -> int {
    match j {
        SemanticJoint::Pelvis => 0,
        SemanticJoint::Chest => 1,
        SemanticJoint::UpperChest => 2,
        SemanticJoint::Neck => 3,
        SemanticJoint::Head => 4,
        SemanticJoint::Jaw => 5,
        SemanticJoint::LeftEye => 6,
        SemanticJoint::RightEye => 7,
        SemanticJoint::Gaze => 8,
        SemanticJoint::LeftUpperArm => 9,
        SemanticJoint::RightUpperArm => 10,
        SemanticJoint::LeftHand => 11,
        SemanticJoint::RightHand => 12,
        SemanticJoint::LeftThigh => 13,
        SemanticJoint::RightThigh => 14,
        SemanticJoint::LeftShin => 15,
        SemanticJoint::RightShin => 16,
        SemanticJoint::PropGrip => 17,
        _ => -1,
    }
}

proof fn lemma_skeleton_shape()
    ensures
        parents_first(humanoid_skeleton()),
        joints_once(humanoid_skeleton()),
{
    let s = humanoid_skeleton();
    assert forall|i: int| 0 <= i < s.len() implies skeleton_rank((#[trigger] s[i]).joint) == i
        && s[i].joint != SemanticJoint::Root by {}
    assert forall|i: int|
        0 <= i < s.len() implies (#[trigger] s[i]).parent == SemanticJoint::Root || exists|k: int|
        0 <= k < i && (#[trigger] s[k]).joint == s[i].parent by {
        if i == 1 {
            assert(s[0].joint == s[1].parent);
        }
        if i == 2 {
            assert(s[1].joint == s[2].parent);
        }
        if i == 3 {
            assert(s[2].joint == s[3].parent);
        }
        if i == 4 {
            assert(s[3].joint == s[4].parent);
        }
        if i == 5 {
            assert(s[4].joint == s[5].parent);
        }
        if i == 6 {
            assert(s[4].joint == s[6].parent);
        }
        if i == 7 {
            assert(s[4].joint == s[7].parent);
        }
        if i == 8 {
            assert(s[4].joint == s[8].parent);
        }
        if i == 9 {
            assert(s[2].joint == s[9].parent);
        }
        if i == 10 {
            assert(s[2].joint == s[10].parent);
        }
        if i == 11 {
            assert(s[9].joint == s[11].parent);
        }
        if i == 12 {
            assert(s[10].joint == s[12].parent);
        }
        if i == 13 {
            assert(s[0].joint == s[13].parent);
        }
        if i == 14 {
            assert(s[0].joint == s[14].parent);
        }
        if i == 15 {
            assert(s[13].joint == s[15].parent);
        }
        if i == 16 {
            assert(s[14].joint == s[16].parent);
        }
        if i == 17 {
            assert(s[11].joint == s[17].parent);
        }
    }
}

fn skeleton_part_at(i: usize) -> (r: SkeletonPart)
    ensures
        r == skeleton_part(i as int),
{
    if i == 0 {
        SkeletonPart { joint: SemanticJoint::Pelvis, parent: SemanticJoint::Root, is_grip: false }
    } else if i == 1 {
        SkeletonPart { joint: SemanticJoint::Chest, parent: SemanticJoint::Pelvis, is_grip: false }
    } else if i == 2 {
        SkeletonPart { joint: SemanticJoint::UpperChest, parent: SemanticJoint::Chest, is_grip: false }
    } else if i == 3 {
        SkeletonPart { joint: SemanticJoint::Neck, parent: SemanticJoint::UpperChest, is_grip: false }
    } else if i == 4 {
        SkeletonPart { joint: SemanticJoint::Head, parent: SemanticJoint::Neck, is_grip: false }
    } else if i == 5 {
        SkeletonPart { joint: SemanticJoint::Jaw, parent: SemanticJoint::Head, is_grip: false }
    } else if i == 6 {
        SkeletonPart { joint: SemanticJoint::LeftEye, parent: SemanticJoint::Head, is_grip: false }
    } else if i == 7 {
        SkeletonPart { joint: SemanticJoint::RightEye, parent: SemanticJoint::Head, is_grip: false }
    } else if i == 8 {
        SkeletonPart { joint: SemanticJoint::Gaze, parent: SemanticJoint::Head, is_grip: false }
    } else if i == 9 {
        SkeletonPart { joint: SemanticJoint::LeftUpperArm, parent: SemanticJoint::UpperChest, is_grip: false }
    } else if i == 10 {
        SkeletonPart { joint: SemanticJoint::RightUpperArm, parent: SemanticJoint::UpperChest, is_grip: false }
    } else if i == 11 {
        SkeletonPart { joint: SemanticJoint::LeftHand, parent: SemanticJoint::LeftUpperArm, is_grip: true }
    } else if i == 12 {
        SkeletonPart { joint: SemanticJoint::RightHand, parent: SemanticJoint::RightUpperArm, is_grip: true }
    } else if i == 13 {
        SkeletonPart { joint: SemanticJoint::LeftThigh, parent: SemanticJoint::Pelvis, is_grip: false }
    } else if i == 14 {
        SkeletonPart { joint: SemanticJoint::RightThigh, parent: SemanticJoint::Pelvis, is_grip: false }
    } else if i == 15 {
        SkeletonPart { joint: SemanticJoint::LeftShin, parent: SemanticJoint::LeftThigh, is_grip: false }
    } else if i == 16 {
        SkeletonPart { joint: SemanticJoint::RightShin, parent: SemanticJoint::RightThigh, is_grip: false }
    } else {
        SkeletonPart { joint: SemanticJoint::PropGrip, parent: SemanticJoint::LeftHand, is_grip: true }
    }
}

/// The joint tree of the stand-in humanoid every character is built on: each
/// part's joint and parent, in parent-before-child order; the hands and the
/// prop grip can hold props.
pub fn humanoid_skeleton_parts() -> (r: Vec<SkeletonPart>)
    ensures
        r@ == humanoid_skeleton(),
        parents_first(r@),
        joints_once(r@),
{
    let mut r: Vec<SkeletonPart> = Vec::new();
    let mut i: usize = 0;
    while i < 18
        invariant
            i <= 18,
            r@ == humanoid_skeleton().take(i as int),
        decreases 18 - i,
    {
        r.push(skeleton_part_at(i));
        assert(humanoid_skeleton().take(i + 1) =~= humanoid_skeleton().take(i as int).push(
            skeleton_part(i as int),
        ));
        i += 1;
    }
    assert(humanoid_skeleton().take(18) =~= humanoid_skeleton());
    proof {
        lemma_skeleton_shape();
    }
    r
}

/// A character's stand-in humanoid: the character and voice it is bound to
/// and its joint tree. Body proportions, offsets and colours are
/// floating-point and belong to the renderer.
#[derive(Debug)]
pub struct HumanoidRig {
    pub character_id: String,
    pub voice_id: String,
    pub parts: Vec<SkeletonPart>,
}

impl HumanoidRig {
    /// The stand-in humanoid bound to `character_id`, speaking with
    /// `voice_id`, on the standard joint tree.
    pub fn default_humanoid(character_id: &str, voice_id: &str) -> (r: Self)
        ensures
            r.character_id@ == character_id@,
            r.voice_id@ == voice_id@,
            r.parts@ == humanoid_skeleton(),
            parents_first(r.parts@),
            joints_once(r.parts@),
    {
        HumanoidRig {
            character_id: crate::text::string_of(&crate::text::chars_of(character_id)),
            voice_id: crate::text::string_of(&crate::text::chars_of(voice_id)),
            parts: humanoid_skeleton_parts(),
        }
    }
}

} // verus!
