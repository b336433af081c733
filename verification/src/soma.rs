//! The SOMA 77-joint skeleton that motion sources are authored against, and
//! the alias table that maps common joint names onto it.
use vstd::prelude::*;

use crate::text::{ascii_lower, ascii_lower_seq, ascii_lowercase, ascii_upper, ascii_upper_seq, chars_of, seq_eq};

verus! {

/// One joint of the skeleton, with its parent's name (none for the root).
#[derive(Debug, Clone, Copy, PartialEq, Eq)]
pub struct SomaJoint {
    pub name: &'static str,
    pub parent: Option<&'static str>,
}

/// Every joint that has a parent names a joint listed before it.
pub open spec fn parent_ordered(s: Seq<SomaJoint>) -> bool {
    forall|i: int|
        #![trigger s[i]]
        0 <= i < s.len() && s[i].parent is Some ==> exists|j: int|
            0 <= j < i && #[trigger] s[j].name@ == s[i].parent->0@
}

/// A joint as a name and its parent's name.
pub open spec fn soma_joint_view(j: SomaJoint) -> (Seq<char>, Option<Seq<char>>) {
    (
        j.name@,
        match j.parent {
            Some(p) => Some(p@),
            None => None,
        },
    )
}

/// The joints of a skeleton as names and parents' names.
pub open spec fn soma_views(s: Seq<SomaJoint>) -> Seq<(Seq<char>, Option<Seq<char>>)> {
    Seq::new(s.len(), |i: int| soma_joint_view(s[i]))
}

/// The `somaskel77` hierarchy, joint by joint: its name and its parent's name.
pub open spec fn soma77_table() -> Seq<(Seq<char>, Option<Seq<char>>)> {
    seq![
        ("Hips"@, None),
        ("Spine1"@, Some("Hips"@)),
        ("Spine2"@, Some("Spine1"@)),
        ("Chest"@, Some("Spine2"@)),
        ("Neck1"@, Some("Chest"@)),
        ("Neck2"@, Some("Neck1"@)),
        ("Head"@, Some("Neck2"@)),
        ("HeadEnd"@, Some("Head"@)),
        ("Jaw"@, Some("Head"@)),
        ("LeftEye"@, Some("Head"@)),
        ("RightEye"@, Some("Head"@)),
        ("LeftShoulder"@, Some("Chest"@)),
        ("LeftArm"@, Some("LeftShoulder"@)),
        ("LeftForeArm"@, Some("LeftArm"@)),
        ("LeftHand"@, Some("LeftForeArm"@)),
        ("LeftHandThumb1"@, Some("LeftHand"@)),
        ("LeftHandThumb2"@, Some("LeftHandThumb1"@)),
        ("LeftHandThumb3"@, Some("LeftHandThumb2"@)),
        ("LeftHandThumbEnd"@, Some("LeftHandThumb3"@)),
        ("LeftHandIndex1"@, Some("LeftHand"@)),
        ("LeftHandIndex2"@, Some("LeftHandIndex1"@)),
        ("LeftHandIndex3"@, Some("LeftHandIndex2"@)),
        ("LeftHandIndex4"@, Some("LeftHandIndex3"@)),
        ("LeftHandIndexEnd"@, Some("LeftHandIndex4"@)),
        ("LeftHandMiddle1"@, Some("LeftHand"@)),
        ("LeftHandMiddle2"@, Some("LeftHandMiddle1"@)),
        ("LeftHandMiddle3"@, Some("LeftHandMiddle2"@)),
        ("LeftHandMiddle4"@, Some("LeftHandMiddle3"@)),
        ("LeftHandMiddleEnd"@, Some("LeftHandMiddle4"@)),
        ("LeftHandRing1"@, Some("LeftHand"@)),
        ("LeftHandRing2"@, Some("LeftHandRing1"@)),
        ("LeftHandRing3"@, Some("LeftHandRing2"@)),
        ("LeftHandRing4"@, Some("LeftHandRing3"@)),
        ("LeftHandRingEnd"@, Some("LeftHandRing4"@)),
        ("LeftHandPinky1"@, Some("LeftHand"@)),
        ("LeftHandPinky2"@, Some("LeftHandPinky1"@)),
        ("LeftHandPinky3"@, Some("LeftHandPinky2"@)),
        ("LeftHandPinky4"@, Some("LeftHandPinky3"@)),
        ("LeftHandPinkyEnd"@, Some("LeftHandPinky4"@)),
        ("RightShoulder"@, Some("Chest"@)),
        ("RightArm"@, Some("RightShoulder"@)),
        ("RightForeArm"@, Some("RightArm"@)),
        ("RightHand"@, Some("RightForeArm"@)),
        ("RightHandThumb1"@, Some("RightHand"@)),
        ("RightHandThumb2"@, Some("RightHandThumb1"@)),
        ("RightHandThumb3"@, Some("RightHandThumb2"@)),
        ("RightHandThumbEnd"@, Some("RightHandThumb3"@)),
        ("RightHandIndex1"@, Some("RightHand"@)),
        ("RightHandIndex2"@, Some("RightHandIndex1"@)),
        ("RightHandIndex3"@, Some("RightHandIndex2"@)),
        ("RightHandIndex4"@, Some("RightHandIndex3"@)),
        ("RightHandIndexEnd"@, Some("RightHandIndex4"@)),
        ("RightHandMiddle1"@, Some("RightHand"@)),
        ("RightHandMiddle2"@, Some("RightHandMiddle1"@)),
        ("RightHandMiddle3"@, Some("RightHandMiddle2"@)),
        ("RightHandMiddle4"@, Some("RightHandMiddle3"@)),
        ("RightHandMiddleEnd"@, Some("RightHandMiddle4"@)),
        ("RightHandRing1"@, Some("RightHand"@)),
        ("RightHandRing2"@, Some("RightHandRing1"@)),
        ("RightHandRing3"@, Some("RightHandRing2"@)),
        ("RightHandRing4"@, Some("RightHandRing3"@)),
        ("RightHandRingEnd"@, Some("RightHandRing4"@)),
        ("RightHandPinky1"@, Some("RightHand"@)),
        ("RightHandPinky2"@, Some("RightHandPinky1"@)),
        ("RightHandPinky3"@, Some("RightHandPinky2"@)),
        ("RightHandPinky4"@, Some("RightHandPinky3"@)),
        ("RightHandPinkyEnd"@, Some("RightHandPinky4"@)),
        ("LeftLeg"@, Some("Hips"@)),
        ("LeftShin"@, Some("LeftLeg"@)),
        ("LeftFoot"@, Some("LeftShin"@)),
        ("LeftToeBase"@, Some("LeftFoot"@)),
        ("LeftToeEnd"@, Some("LeftToeBase"@)),
        ("RightLeg"@, Some("Hips"@)),
        ("RightShin"@, Some("RightLeg"@)),
        ("RightFoot"@, Some("RightShin"@)),
        ("RightToeBase"@, Some("RightFoot"@)),
        ("RightToeEnd"@, Some("RightToeBase"@)),
    ]
}

/// The skeleton has a joint of this name.
pub open spec fn soma_has_joint(name: Seq<char>) -> bool {
    exists|i: int| 0 <= i < soma77_table().len() && (#[trigger] soma77_table()[i]).0 == name
}

/// The `somaskel77` hierarchy in source order: 77 joints, the root first and
/// every parent before its children.
pub fn soma77() -> (r: &'static [SomaJoint])
    ensures
        soma_views(r@) == soma77_table(),
        r@.len() == 77,
        r@[0].parent is None,
        parent_ordered(r@),
{
    let r: &'static [SomaJoint] = &[
        SomaJoint { name: "Hips", parent: None },
        SomaJoint { name: "Spine1", parent: Some("Hips") },
        SomaJoint { name: "Spine2", parent: Some("Spine1") },
        SomaJoint { name: "Chest", parent: Some("Spine2") },
        SomaJoint { name: "Neck1", parent: Some("Chest") },
        SomaJoint { name: "Neck2", parent: Some("Neck1") },
        SomaJoint { name: "Head", parent: Some("Neck2") },
        SomaJoint { name: "HeadEnd", parent: Some("Head") },
        SomaJoint { name: "Jaw", parent: Some("Head") },
        SomaJoint { name: "LeftEye", parent: Some("Head") },
        SomaJoint { name: "RightEye", parent: Some("Head") },
        SomaJoint { name: "LeftShoulder", parent: Some("Chest") },
        SomaJoint { name: "LeftArm", parent: Some("LeftShoulder") },
        SomaJoint { name: "LeftForeArm", parent: Some("LeftArm") },
        SomaJoint { name: "LeftHand", parent: Some("LeftForeArm") },
        SomaJoint { name: "LeftHandThumb1", parent: Some("LeftHand") },
        SomaJoint { name: "LeftHandThumb2", parent: Some("LeftHandThumb1") },
        SomaJoint { name: "LeftHandThumb3", parent: Some("LeftHandThumb2") },
        SomaJoint { name: "LeftHandThumbEnd", parent: Some("LeftHandThumb3") },
        SomaJoint { name: "LeftHandIndex1", parent: Some("LeftHand") },
        SomaJoint { name: "LeftHandIndex2", parent: Some("LeftHandIndex1") },
        SomaJoint { name: "LeftHandIndex3", parent: Some("LeftHandIndex2") },
        SomaJoint { name: "LeftHandIndex4", parent: Some("LeftHandIndex3") },
        SomaJoint { name: "LeftHandIndexEnd", parent: Some("LeftHandIndex4") },
        SomaJoint { name: "LeftHandMiddle1", parent: Some("LeftHand") },
        SomaJoint { name: "LeftHandMiddle2", parent: Some("LeftHandMiddle1") },
        SomaJoint { name: "LeftHandMiddle3", parent: Some("LeftHandMiddle2") },
        SomaJoint { name: "LeftHandMiddle4", parent: Some("LeftHandMiddle3") },
        SomaJoint { name: "LeftHandMiddleEnd", parent: Some("LeftHandMiddle4") },
        SomaJoint { name: "LeftHandRing1", parent: Some("LeftHand") },
        SomaJoint { name: "LeftHandRing2", parent: Some("LeftHandRing1") },
        SomaJoint { name: "LeftHandRing3", parent: Some("LeftHandRing2") },
        SomaJoint { name: "LeftHandRing4", parent: Some("LeftHandRing3") },
        SomaJoint { name: "LeftHandRingEnd", parent: Some("LeftHandRing4") },
        SomaJoint { name: "LeftHandPinky1", parent: Some("LeftHand") },
        SomaJoint { name: "LeftHandPinky2", parent: Some("LeftHandPinky1") },
        SomaJoint { name: "LeftHandPinky3", parent: Some("LeftHandPinky2") },
        SomaJoint { name: "LeftHandPinky4", parent: Some("LeftHandPinky3") },
        SomaJoint { name: "LeftHandPinkyEnd", parent: Some("LeftHandPinky4") },
        SomaJoint { name: "RightShoulder", parent: Some("Chest") },
        SomaJoint { name: "RightArm", parent: Some("RightShoulder") },
        SomaJoint { name: "RightForeArm", parent: Some("RightArm") },
        SomaJoint { name: "RightHand", parent: Some("RightForeArm") },
        SomaJoint { name: "RightHandThumb1", parent: Some("RightHand") },
        SomaJoint { name: "RightHandThumb2", parent: Some("RightHandThumb1") },
        SomaJoint { name: "RightHandThumb3", parent: Some("RightHandThumb2") },
        SomaJoint { name: "RightHandThumbEnd", parent: Some("RightHandThumb3") },
        SomaJoint { name: "RightHandIndex1", parent: Some("RightHand") },
        SomaJoint { name: "RightHandIndex2", parent: Some("RightHandIndex1") },
        SomaJoint { name: "RightHandIndex3", parent: Some("RightHandIndex2") },
        SomaJoint { name: "RightHandIndex4", parent: Some("RightHandIndex3") },
        SomaJoint { name: "RightHandIndexEnd", parent: Some("RightHandIndex4") },
        SomaJoint { name: "RightHandMiddle1", parent: Some("RightHand") },
        SomaJoint { name: "RightHandMiddle2", parent: Some("RightHandMiddle1") },
        SomaJoint { name: "RightHandMiddle3", parent: Some("RightHandMiddle2") },
        SomaJoint { name: "RightHandMiddle4", parent: Some("RightHandMiddle3") },
        SomaJoint { name: "RightHandMiddleEnd", parent: Some("RightHandMiddle4") },
        SomaJoint { name: "RightHandRing1", parent: Some("RightHand") },
        SomaJoint { name: "RightHandRing2", parent: Some("RightHandRing1") },
        SomaJoint { name: "RightHandRing3", parent: Some("RightHandRing2") },
        SomaJoint { name: "RightHandRing4", parent: Some("RightHandRing3") },
        SomaJoint { name: "RightHandRingEnd", parent: Some("RightHandRing4") },
        SomaJoint { name: "RightHandPinky1", parent: Some("RightHand") },
        SomaJoint { name: "RightHandPinky2", parent: Some("RightHandPinky1") },
        SomaJoint { name: "RightHandPinky3", parent: Some("RightHandPinky2") },
        SomaJoint { name: "RightHandPinky4", parent: Some("RightHandPinky3") },
        SomaJoint { name: "RightHandPinkyEnd", parent: Some("RightHandPinky4") },
        SomaJoint { name: "LeftLeg", parent: Some("Hips") },
        SomaJoint { name: "LeftShin", parent: Some("LeftLeg") },
        SomaJoint { name: "LeftFoot", parent: Some("LeftShin") },
        SomaJoint { name: "LeftToeBase", parent: Some("LeftFoot") },
        SomaJoint { name: "LeftToeEnd", parent: Some("LeftToeBase") },
        SomaJoint { name: "RightLeg", parent: Some("Hips") },
        SomaJoint { name: "RightShin", parent: Some("RightLeg") },
        SomaJoint { name: "RightFoot", parent: Some("RightShin") },
        SomaJoint { name: "RightToeBase", parent: Some("RightFoot") },
        SomaJoint { name: "RightToeEnd", parent: Some("RightToeBase") },
    ];
    proof {
        let s = r@;
        assert(s.len() == 77);
        assert forall|i: int| 0 <= i < 77 implies #[trigger] soma_views(s)[i] == soma77_table()[i] by {
        }
        assert(soma_views(s) =~= soma77_table());
    }
    r
}

/// The skeleton joint a common joint name stands for, compared without ASCII
/// case.
pub open spec fn alias_of(lower: Seq<char>) -> Option<Seq<char>> {
    if lower == "root"@ || lower == "pelvis"@ || lower == "hips"@ {
        Some("Hips"@)
    } else if lower == "spine"@ || lower == "spine1"@ {
        Some("Spine1"@)
    } else if lower == "spine2"@ {
        Some("Spine2"@)
    } else if lower == "chest"@ || lower == "upperchest"@ {
        Some("Chest"@)
    } else if lower == "neck"@ || lower == "neck1"@ {
        Some("Neck1"@)
    } else if lower == "neck2"@ {
        Some("Neck2"@)
    } else if lower == "head"@ {
        Some("Head"@)
    } else if lower == "jaw"@ {
        Some("Jaw"@)
    } else if lower == "lefteye"@ {
        Some("LeftEye"@)
    } else if lower == "righteye"@ {
        Some("RightEye"@)
    } else if lower == "leftupperarm"@ || lower == "leftarm"@ {
        Some("LeftArm"@)
    } else if lower == "leftforearm"@ {
        Some("LeftForeArm"@)
    } else if lower == "lefthand"@ {
        Some("LeftHand"@)
    } else if lower == "rightupperarm"@ || lower == "rightarm"@ {
        Some("RightArm"@)
    } else if lower == "rightforearm"@ {
        Some("RightForeArm"@)
    } else if lower == "righthand"@ {
        Some("RightHand"@)
    } else if lower == "leftthigh"@ || lower == "leftleg"@ {
        Some("LeftLeg"@)
    } else if lower == "leftshin"@ {
        Some("LeftShin"@)
    } else if lower == "leftfoot"@ {
        Some("LeftFoot"@)
    } else if lower == "rightthigh"@ || lower == "rightleg"@ {
        Some("RightLeg"@)
    } else if lower == "rightshin"@ {
        Some("RightShin"@)
    } else if lower == "rightfoot"@ {
        Some("RightFoot"@)
    } else {
        None
    }
}

/// Every alias names a joint of the skeleton.
pub proof fn aliases_name_skeleton_joints(lower: Seq<char>)
    ensures
        alias_of(lower) matches Some(j) ==> soma_has_joint(j),
{
        if alias_of(lower) == Some("Hips"@) {
            assert(soma77_table()[0].0 == "Hips"@);
        }
        if alias_of(lower) == Some("Spine1"@) {
            assert(soma77_table()[1].0 == "Spine1"@);
        }
        if alias_of(lower) == Some("Spine2"@) {
            assert(soma77_table()[2].0 == "Spine2"@);
        }
        if alias_of(lower) == Some("Chest"@) {
            assert(soma77_table()[3].0 == "Chest"@);
        }
        if alias_of(lower) == Some("Neck1"@) {
            assert(soma77_table()[4].0 == "Neck1"@);
        }
        if alias_of(lower) == Some("Neck2"@) {
            assert(soma77_table()[5].0 == "Neck2"@);
        }
        if alias_of(lower) == Some("Head"@) {
            assert(soma77_table()[6].0 == "Head"@);
        }
        if alias_of(lower) == Some("Jaw"@) {
            assert(soma77_table()[8].0 == "Jaw"@);
        }
        if alias_of(lower) == Some("LeftEye"@) {
            assert(soma77_table()[9].0 == "LeftEye"@);
        }
        if alias_of(lower) == Some("RightEye"@) {
            assert(soma77_table()[10].0 == "RightEye"@);
        }
        if alias_of(lower) == Some("LeftArm"@) {
            assert(soma77_table()[12].0 == "LeftArm"@);
        }
        if alias_of(lower) == Some("LeftForeArm"@) {
            assert(soma77_table()[13].0 == "LeftForeArm"@);
        }
        if alias_of(lower) == Some("LeftHand"@) {
            assert(soma77_table()[14].0 == "LeftHand"@);
        }
        if alias_of(lower) == Some("RightArm"@) {
            assert(soma77_table()[40].0 == "RightArm"@);
        }
        if alias_of(lower) == Some("RightForeArm"@) {
            assert(soma77_table()[41].0 == "RightForeArm"@);
        }
        if alias_of(lower) == Some("RightHand"@) {
            assert(soma77_table()[42].0 == "RightHand"@);
        }
        if alias_of(lower) == Some("LeftLeg"@) {
            assert(soma77_table()[67].0 == "LeftLeg"@);
        }
        if alias_of(lower) == Some("LeftShin"@) {
            assert(soma77_table()[68].0 == "LeftShin"@);
        }
        if alias_of(lower) == Some("LeftFoot"@) {
            assert(soma77_table()[69].0 == "LeftFoot"@);
        }
        if alias_of(lower) == Some("RightLeg"@) {
            assert(soma77_table()[72].0 == "RightLeg"@);
        }
        if alias_of(lower) == Some("RightShin"@) {
            assert(soma77_table()[73].0 == "RightShin"@);
        }
        if alias_of(lower) == Some("RightFoot"@) {
            assert(soma77_table()[74].0 == "RightFoot"@);
        }
}

/// Aliases ignore ASCII case: a name and its ASCII uppercase stand for the
/// same joint.
pub proof fn alias_ignores_ascii_case(name: Seq<char>)
    ensures
        alias_of(ascii_lower_seq(ascii_upper_seq(name))) == alias_of(ascii_lower_seq(name)),
{
    assert forall|i: int| 0 <= i < name.len() implies ascii_lower(ascii_upper(name[i])) == ascii_lower(
        name[i],
    ) by {
        let c = name[i];
        if 'a' <= c <= 'z' {
            assert(('A' as u32) <= (c as u32) - 32 <= ('Z' as u32));
        }
    }
    assert(ascii_lower_seq(ascii_upper_seq(name)) =~= ascii_lower_seq(name));
}

fn is(s: &Vec<char>, lit: &str) -> (r: bool)
    ensures
        r == (s@ == lit@),
{
    let l = chars_of(lit);
    seq_eq(s, &l)
}

/// The skeleton joint that a common joint name (`pelvis`, `LeftThigh`, ...)
/// stands for; the name is compared without ASCII case.
pub fn semantic_alias(name: &str) -> (r: Option<&'static str>)
    ensures
        match r {
            Some(j) => alias_of(ascii_lower_seq(name@)) == Some(j@),
            None => alias_of(ascii_lower_seq(name@)) is None,
        },
        r matches Some(j) ==> soma_has_joint(j@),
{
    proof {
        aliases_name_skeleton_joints(ascii_lower_seq(name@));
    }
    let lower = ascii_lowercase(&chars_of(name));
    if is(&lower, "root") || is(&lower, "pelvis") || is(&lower, "hips") {
        Some("Hips")
    } else if is(&lower, "spine") || is(&lower, "spine1") {
        Some("Spine1")
    } else if is(&lower, "spine2") {
        Some("Spine2")
    } else if is(&lower, "chest") || is(&lower, "upperchest") {
        Some("Chest")
    } else if is(&lower, "neck") || is(&lower, "neck1") {
        Some("Neck1")
    } else if is(&lower, "neck2") {
        Some("Neck2")
    } else if is(&lower, "head") {
        Some("Head")
    } else if is(&lower, "jaw") {
        Some("Jaw")
    } else if is(&lower, "lefteye") {
        Some("LeftEye")
    } else if is(&lower, "righteye") {
        Some("RightEye")
    } else if is(&lower, "leftupperarm") || is(&lower, "leftarm") {
        Some("LeftArm")
    } else if is(&lower, "leftforearm") {
        Some("LeftForeArm")
    } else if is(&lower, "lefthand") {
        Some("LeftHand")
    } else if is(&lower, "rightupperarm") || is(&lower, "rightarm") {
        Some("RightArm")
    } else if is(&lower, "rightforearm") {
        Some("RightForeArm")
    } else if is(&lower, "righthand") {
        Some("RightHand")
    } else if is(&lower, "leftthigh") || is(&lower, "leftleg") {
        Some("LeftLeg")
    } else if is(&lower, "leftshin") {
        Some("LeftShin")
    } else if is(&lower, "leftfoot") {
        Some("LeftFoot")
    } else if is(&lower, "rightthigh") || is(&lower, "rightleg") {
        Some("RightLeg")
    } else if is(&lower, "rightshin") {
        Some("RightShin")
    } else if is(&lower, "rightfoot") {
        Some("RightFoot")
    } else {
        None
    }
}

} // verus!
