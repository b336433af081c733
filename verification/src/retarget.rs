//! Joint retargeting maps: which cast joint each source-skeleton joint
//! drives. The rest-pose corrections and the scale are numbers kept by the
//! caller; the map holds the joint names and whether the scale is usable.
use vstd::prelude::*;

use crate::text::{append_str, chars_of, str_eq, string_of};
use crate::world::{first_index, lemma_first_index};

verus! {

/// One mapped joint: the source-skeleton joint and the cast joint it drives.
#[derive(Debug)]
pub struct RetargetJoint {
    pub source: String,
    pub target: String,
}

/// A retargeting map between two skeletons.
#[derive(Debug)]
pub struct RetargetMap {
    pub source_skeleton: String,
    pub target_skeleton: String,
    /// The scale is finite and positive.
    pub scale_positive: bool,
    pub joints: Vec<RetargetJoint>,
}

/// The source joint names of a map.
pub open spec fn source_names(js: Seq<RetargetJoint>) -> Seq<Seq<char>> {
    Seq::new(js.len(), |i: int| js[i].source@)
}

/// The target joint names of a map.
pub open spec fn target_names(js: Seq<RetargetJoint>) -> Seq<Seq<char>> {
    Seq::new(js.len(), |i: int| js[i].target@)
}

/// The first position from `i` on whose name already occurred before it.
pub open spec fn repeat_from(ts: Seq<Seq<char>>, i: int) -> Option<int>
    decreases ts.len() - i,
{
    if i < 0 || i >= ts.len() {
        None
    } else if ts.take(i).contains(ts[i]) {
        Some(i)
    } else {
        repeat_from(ts, i + 1)
    }
}

/// Why a map cannot be used: a scale that is not positive, or the first
/// target joint driven twice.
pub open spec fn retarget_problem(m: RetargetMap) -> Option<Seq<char>> {
    if !m.scale_positive {
        Some("retarget scale must be positive"@)
    } else {
        match repeat_from(target_names(m.joints@), 0) {
            Some(i) => Some("duplicate target joint "@ + target_names(m.joints@)[i]),
            None => None,
        }
    }
}

/// The fixed map from the SOMA skeleton onto the cast rigs, as name pairs.
pub open spec fn kaykit_pairs() -> Seq<(Seq<char>, Seq<char>)> {
    seq![
        ("Hips"@, "hips"@),
        ("Spine1"@, "spine"@),
        ("Chest"@, "chest"@),
        ("Neck2"@, "neck"@),
        ("Head"@, "head"@),
        ("LeftArm"@, "upperarm.l"@),
        ("LeftForeArm"@, "lowerarm.l"@),
        ("LeftHand"@, "hand.l"@),
        ("RightArm"@, "upperarm.r"@),
        ("RightForeArm"@, "lowerarm.r"@),
        ("RightHand"@, "hand.r"@),
        ("LeftLeg"@, "upperleg.l"@),
        ("LeftShin"@, "lowerleg.l"@),
        ("LeftFoot"@, "foot.l"@),
        ("LeftToeBase"@, "toes.l"@),
        ("RightLeg"@, "upperleg.r"@),
        ("RightShin"@, "lowerleg.r"@),
        ("RightFoot"@, "foot.r"@),
        ("RightToeBase"@, "toes.r"@),
    ]
}

/// The name pairs of a map.
pub open spec fn name_pairs(js: Seq<RetargetJoint>) -> Seq<(Seq<char>, Seq<char>)> {
    Seq::new(js.len(), |i: int| (js[i].source@, js[i].target@))
}

impl RetargetMap {
    /// The mapping of a source joint: the first entry for it, if any.
    pub fn target_for(&self, source: &str) -> (r: Option<&RetargetJoint>)
        ensures
            match first_index(source_names(self.joints@), source@) {
                Some(i) => r matches Some(j) && *j == self.joints@[i],
                None => r is None,
            },
    {
        let js = &self.joints;
        let mut i: usize = 0;
        while i < js.len()
            invariant
                js@ == self.joints@,
                i <= js@.len(),
                forall|k: int| 0 <= k < i ==> #[trigger] source_names(js@)[k] != source@,
            decreases js@.len() - i,
        {
            if str_eq(js[i].source.as_str(), source) {
                proof {
                    assert(source_names(js@)[i as int] == source@);
                    lemma_first_index(source_names(js@), source@);
                }
                return Some(&js[i]);
            }
            i += 1;
        }
        proof {
            lemma_first_index(source_names(js@), source@);
        }
        None
    }

    /// Check that the map can be used: a positive scale, and no cast joint
    /// driven by two source joints. The first problem is reported.
    pub fn validate(&self) -> (r: Result<(), String>)
        ensures
            match retarget_problem(*self) {
                Some(msg) => r matches Err(e) && e@ == msg,
                None => r is Ok,
            },
    {
        if !self.scale_positive {
            return Err(string_of(&chars_of("retarget scale must be positive")));
        }
        let js = &self.joints;
        let ghost ts = target_names(js@);
        let mut i: usize = 0;
        assert(repeat_from(ts, 0) == repeat_from(ts, i as int));
        while i < js.len()
            invariant
                js@ == self.joints@,
                self.scale_positive,
                ts == target_names(js@),
                i <= js@.len(),
                repeat_from(ts, 0) == repeat_from(ts, i as int),
            decreases js@.len() - i,
        {
            let mut k: usize = 0;
            let mut seen = false;
            while k < i
                invariant
                    js@ == self.joints@,
                    ts == target_names(js@),
                    k <= i < js@.len(),
                    seen == ts.take(i as int).take(k as int).contains(ts[i as int]),
                decreases i - k,
            {
                let ghost before = ts.take(i as int).take(k as int);
                assert(ts.take(i as int).take(k + 1) =~= before.push(ts[k as int]));
                if str_eq(js[k].target.as_str(), js[i].target.as_str()) {
                    assert(ts.take(i as int).take(k + 1)[k as int] == ts[i as int]);
                    seen = true;
                } else if seen {
                } else {
                    assert(!before.push(ts[k as int]).contains(ts[i as int])) by {
                        if before.push(ts[k as int]).contains(ts[i as int]) {
                            let m = choose|m: int|
                                0 <= m < before.push(ts[k as int]).len() && before.push(
                                    ts[k as int],
                                )[m] == ts[i as int];
                            if m < before.len() {
                                assert(before[m] == ts[i as int]);
                            }
                        }
                    }
                }
                if seen {
                    assert(before.push(ts[k as int]).contains(ts[i as int])) by {
                        if before.contains(ts[i as int]) {
                            let m = choose|m: int| 0 <= m < before.len() && before[m] == ts[i as int];
                            assert(before.push(ts[k as int])[m] == ts[i as int]);
                        } else {
                            assert(before.push(ts[k as int])[k as int] == ts[i as int]);
                        }
                    }
                }
                k += 1;
            }
            assert(ts.take(i as int).take(i as int) =~= ts.take(i as int));
            if seen {
                assert(ts[i as int] == js@[i as int].target@);
                assert(repeat_from(ts, i as int) == Some(i as int));
                let mut msg = chars_of("duplicate target joint ");
                append_str(&mut msg, js[i].target.as_str());
                return Err(string_of(&msg));
            }
            i += 1;
        }
        Ok(())
    }
}

/// The fixed map from the SOMA skeleton onto the two approved cast rigs.
pub fn soma77_to_kaykit() -> (r: RetargetMap)
    ensures
        r.source_skeleton@ == "somaskel77"@,
        r.target_skeleton@ == "kaykit_backlot_cast"@,
        r.scale_positive,
        name_pairs(r.joints@) == kaykit_pairs(),
{
    let pairs: [(&'static str, &'static str); 19] = [
        ("Hips", "hips"),
        ("Spine1", "spine"),
        ("Chest", "chest"),
        ("Neck2", "neck"),
        ("Head", "head"),
        ("LeftArm", "upperarm.l"),
        ("LeftForeArm", "lowerarm.l"),
        ("LeftHand", "hand.l"),
        ("RightArm", "upperarm.r"),
        ("RightForeArm", "lowerarm.r"),
        ("RightHand", "hand.r"),
        ("LeftLeg", "upperleg.l"),
        ("LeftShin", "lowerleg.l"),
        ("LeftFoot", "foot.l"),
        ("LeftToeBase", "toes.l"),
        ("RightLeg", "upperleg.r"),
        ("RightShin", "lowerleg.r"),
        ("RightFoot", "foot.r"),
        ("RightToeBase", "toes.r"),
    ];
    let ghost expected = kaykit_pairs();
    assert(pairs@.len() == 19);
    assert forall|i: int| 0 <= i < 19 implies (#[trigger] pairs@[i]).0@ == expected[i].0
        && pairs@[i].1@ == expected[i].1 by {}
    let mut joints: Vec<RetargetJoint> = Vec::new();
    let mut i: usize = 0;
    while i < 19
        invariant
            i <= 19,
            pairs@.len() == 19,
            expected == kaykit_pairs(),
            forall|k: int| 0 <= k < 19 ==> (#[trigger] pairs@[k]).0@ == expected[k].0 && pairs@[k].1@
                == expected[k].1,
            name_pairs(joints@) == expected.take(i as int),
        decreases 19 - i,
    {
        let (source, target) = pairs[i];
        let ghost before = name_pairs(joints@);
        joints.push(RetargetJoint { source: string_of(&chars_of(source)), target: string_of(&chars_of(target)) });
        assert(name_pairs(joints@) =~= before.push((source@, target@)));
        assert(expected.take(i + 1) =~= expected.take(i as int).push(expected[i as int]));
        i += 1;
    }
    assert(expected.take(19) =~= expected);
    RetargetMap {
        source_skeleton: string_of(&chars_of("somaskel77")),
        target_skeleton: string_of(&chars_of("kaykit_backlot_cast")),
        scale_positive: true,
        joints,
    }
}

proof fn lemma_kaykit_targets_distinct()
    ensures
        forall|i: int, j: int|
            0 <= i < j < 19 ==> #[trigger] kaykit_pairs()[i].1 != #[trigger] kaykit_pairs()[j].1,
{
    reveal_strlit("hips");
    reveal_strlit("spine");
    reveal_strlit("chest");
    reveal_strlit("neck");
    reveal_strlit("head");
    reveal_strlit("upperarm.l");
    reveal_strlit("lowerarm.l");
    reveal_strlit("hand.l");
    reveal_strlit("upperarm.r");
    reveal_strlit("lowerarm.r");
    reveal_strlit("hand.r");
    reveal_strlit("upperleg.l");
    reveal_strlit("lowerleg.l");
    reveal_strlit("foot.l");
    reveal_strlit("toes.l");
    reveal_strlit("upperleg.r");
    reveal_strlit("lowerleg.r");
    reveal_strlit("foot.r");
    reveal_strlit("toes.r");
    let p = kaykit_pairs();
    assert forall|i: int, j: int| 0 <= i < j < 19 implies #[trigger] p[i].1 != #[trigger] p[j].1 by {
        let a = p[i].1;
        let b = p[j].1;
        if a == b {
            assert(a.len() == b.len());
            assert(a[0] == b[0]);
            assert(a[a.len() - 1] == b[b.len() - 1]);
            assert(a.len() > 5 ==> a[5] == b[5]);
        }
    }
}

/// The built-in map from the SOMA skeleton onto the cast rigs can always be
/// used: its scale is positive and no cast joint is driven twice.
pub proof fn kaykit_map_is_valid(m: RetargetMap)
    requires
        m.scale_positive,
        name_pairs(m.joints@) == kaykit_pairs(),
    ensures
        retarget_problem(m) is None,
{
    lemma_kaykit_targets_distinct();
    let ts = target_names(m.joints@);
    let p = kaykit_pairs();
    assert(m.joints@.len() == 19) by {
        assert(name_pairs(m.joints@).len() == m.joints@.len());
    }
    assert forall|i: int| 0 <= i < 19 implies #[trigger] ts[i] == p[i].1 by {
        assert(name_pairs(m.joints@)[i] == (m.joints@[i].source@, m.joints@[i].target@));
    }
    lemma_no_repeat_from(ts, 0);
}

proof fn lemma_no_repeat_from(ts: Seq<Seq<char>>, i: int)
    requires
        0 <= i <= ts.len(),
        forall|a: int, b: int| 0 <= a < b < ts.len() ==> #[trigger] ts[a] != #[trigger] ts[b],
    ensures
        repeat_from(ts, i) is None,
    decreases ts.len() - i,
{
    if i < ts.len() {
        assert(!ts.take(i).contains(ts[i])) by {
            if ts.take(i).contains(ts[i]) {
                let k = choose|k: int| 0 <= k < ts.take(i).len() && ts.take(i)[k] == ts[i];
                assert(ts[k] == ts[i]);
            }
        }
        lemma_no_repeat_from(ts, i + 1);
    }
}

} // verus!
