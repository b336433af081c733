//! Staging vocabulary of the production set: the named slots an actor can be
//! placed on, where each actor starts, and which slots a move request
//! prefers. Slot positions and clearances are floating-point and checked by
//! the runtime.
use vstd::prelude::*;

use crate::text::{
    append_chars, ascii_lower_seq, ascii_lowercase, chars_of, contains_chars, contains_seq, str_eq,
};

verus! {

/// How an actor moves to a staging slot.
#[derive(Debug, Clone, Copy, PartialEq, Eq, Structural)]
pub enum MovementKind {
    Move,
    Approach,
    Enter,
    Exit,
    Interact,
}

/// The named staging slots of the set, in order.
pub open spec fn slot_ids() -> Seq<Seq<char>> {
    seq![
        "apt_3b_entry"@,
        "hallway_entry"@,
        "service_area"@,
        "hallway_two_shot_a"@,
        "hallway_two_shot_b"@,
        "hallway_group_c"@,
        "elevator_observer"@,
        "elevator_right"@,
        "elevator_left"@,
        "elevator_blocker"@,
        "panel_operator"@,
        "elevator_threshold"@,
        "side_corridor"@,
    ]
}

/// The slot an actor starts an episode on.
pub open spec fn opening_slot(actor: Seq<char>) -> Seq<char> {
    if actor == "voss"@ {
        "elevator_left"@
    } else if actor == "mara"@ {
        "panel_operator"@
    } else if actor == "ellis"@ {
        "apt_3b_entry"@
    } else {
        "side_corridor"@
    }
}

/// The slots a move request prefers, best first, when the destination is
/// not another actor: a slot named exactly; else by the words of the request
/// (compared without ASCII case) and the kind of move.
pub open spec fn slot_preferences(actor: Seq<char>, requested: Seq<char>, kind: MovementKind) -> Seq<
    Seq<char>,
> {
    let t = ascii_lower_seq(requested);
    if slot_ids().contains(requested) {
        seq![requested]
    } else if contains_seq(t, "panel"@) || kind == MovementKind::Interact {
        seq!["panel_operator"@, "elevator_right"@, "elevator_observer"@]
    } else if contains_seq(t, "elevator"@) {
        if actor == "voss"@ {
            seq!["elevator_left"@, "elevator_observer"@, "hallway_two_shot_a"@]
        } else if actor == "ellis"@ {
            seq!["elevator_right"@, "elevator_observer"@, "hallway_two_shot_b"@]
        } else if actor == "mara"@ {
            seq!["elevator_blocker"@, "panel_operator"@, "elevator_observer"@]
        } else {
            seq!["elevator_observer"@, "elevator_right"@, "elevator_left"@]
        }
    } else if contains_seq(t, "3b"@) {
        seq!["apt_3b_entry"@, "hallway_entry"@, "service_area"@]
    } else if contains_seq(t, "entry"@) || kind == MovementKind::Enter {
        seq!["hallway_entry"@, "service_area"@, "hallway_two_shot_b"@]
    } else {
        seq!["hallway_two_shot_a"@, "hallway_two_shot_b"@, "hallway_group_c"@, "service_area"@]
    }
}

/// Views of a list of slot names.
pub open spec fn slot_views(v: Seq<&'static str>) -> Seq<Seq<char>> {
    Seq::new(v.len(), |i: int| v[i]@)
}

/// The named staging slots of the set, in order.
pub fn stage_slot_ids() -> (r: Vec<&'static str>)
    ensures
        slot_views(r@) == slot_ids(),
{
    let r: Vec<&'static str> = vec![
        "apt_3b_entry",
        "hallway_entry",
        "service_area",
        "hallway_two_shot_a",
        "hallway_two_shot_b",
        "hallway_group_c",
        "elevator_observer",
        "elevator_right",
        "elevator_left",
        "elevator_blocker",
        "panel_operator",
        "elevator_threshold",
        "side_corridor",
    ];
    assert(slot_views(r@) =~= slot_ids());
    r
}

/// The slot an actor starts an episode on.
pub fn opening_slot_for(actor: &str) -> (r: &'static str)
    ensures
        r@ == opening_slot(actor@),
{
    if str_eq(actor, "voss") {
        "elevator_left"
    } else if str_eq(actor, "mara") {
        "panel_operator"
    } else if str_eq(actor, "ellis") {
        "apt_3b_entry"
    } else {
        "side_corridor"
    }
}

/// Whether `requested` names a slot exactly; the slot's name when it does.
fn named_slot(requested: &str) -> (r: Option<&'static str>)
    ensures
        match r {
            Some(s) => slot_ids().contains(requested@) && s@ == requested@,
            None => !slot_ids().contains(requested@),
        },
{
    let ids = stage_slot_ids();
    let mut i: usize = 0;
    while i < ids.len()
        invariant
            i <= ids.len(),
            slot_views(ids@) == slot_ids(),
            forall|k: int| 0 <= k < i ==> #[trigger] slot_ids()[k] != requested@,
        decreases ids.len() - i,
    {
        if str_eq(ids[i], requested) {
            assert(slot_views(ids@)[i as int] == ids@[i as int]@);
            assert(slot_ids()[i as int] == requested@);
            return Some(ids[i]);
        }
        assert(slot_views(ids@)[i as int] == ids@[i as int]@);
        i += 1;
    }
    None
}

/// The slots a move request prefers, best first, when the destination is not
/// another actor: a slot named exactly; else by the words of the request,
/// compared without ASCII case (`panel`, `elevator`, `3b`, `entry`), and the
/// kind of move.
pub fn slot_candidates(actor: &str, requested: &str, kind: MovementKind) -> (r: Vec<&'static str>)
    ensures
        slot_views(r@) == slot_preferences(actor@, requested@, kind),
{
    let r: Vec<&'static str> = match named_slot(requested) {
        Some(s) => vec![s],
        None => {
            let t = ascii_lowercase(&chars_of(requested));
            if contains_chars(&t, &chars_of("panel")) || kind == MovementKind::Interact {
                vec!["panel_operator", "elevator_right", "elevator_observer"]
            } else if contains_chars(&t, &chars_of("elevator")) {
                if str_eq(actor, "voss") {
                    vec!["elevator_left", "elevator_observer", "hallway_two_shot_a"]
                } else if str_eq(actor, "ellis") {
                    vec!["elevator_right", "elevator_observer", "hallway_two_shot_b"]
                } else if str_eq(actor, "mara") {
                    vec!["elevator_blocker", "panel_operator", "elevator_observer"]
                } else {
                    vec!["elevator_observer", "elevator_right", "elevator_left"]
                }
            } else if contains_chars(&t, &chars_of("3b")) {
                vec!["apt_3b_entry", "hallway_entry", "service_area"]
            } else if contains_chars(&t, &chars_of("entry")) || kind == MovementKind::Enter {
                vec!["hallway_entry", "service_area", "hallway_two_shot_b"]
            } else {
                vec!["hallway_two_shot_a", "hallway_two_shot_b", "hallway_group_c", "service_area"]
            }
        },
    };
    assert(slot_views(r@) =~= slot_preferences(actor@, requested@, kind));
    r
}

/// A beat's direction text: its description, dramatic purpose, visible action
/// and intended reaction (empty where absent), joined by single spaces and
/// ASCII-lowercased.
pub open spec fn direction_text(
    description: Seq<char>,
    purpose: Seq<char>,
    visible: Seq<char>,
    reaction: Seq<char>,
) -> Seq<char> {
    ascii_lower_seq(description + seq![' '] + purpose + seq![' '] + visible + seq![' '] + reaction)
}

/// The direction opens the elevator doors: it says the doors open or slide
/// open, and does not have them slam shut.
pub open spec fn opens_doors(text: Seq<char>) -> bool {
    (contains_seq(text, "doors open"@) || contains_seq(text, "doors slide open"@)) && !contains_seq(
        text,
        "slam shut"@,
    )
}

/// The direction closes the elevator doors: they close, close violently or
/// slam shut.
pub open spec fn closes_doors(text: Seq<char>) -> bool {
    contains_seq(text, "doors close"@) || contains_seq(text, "close violently"@) || contains_seq(
        text,
        "slam shut"@,
    )
}

/// The elevator-door cues a beat's direction calls for.
#[derive(Debug, Clone, Copy, PartialEq, Eq, Structural)]
pub struct DoorCues {
    pub opens: bool,
    pub closes: bool,
}

fn opt_chars(s: Option<&str>) -> (r: Vec<char>)
    ensures
        r@ == match s {
            Some(t) => t@,
            None => Seq::<char>::empty(),
        },
{
    match s {
        Some(t) => chars_of(t),
        None => Vec::new(),
    }
}

/// Which elevator-door cues a beat's direction calls for, read from its
/// description, dramatic purpose, visible action and intended reaction.
pub fn door_cues(
    description: &str,
    purpose: &str,
    visible_action: Option<&str>,
    intended_reaction: Option<&str>,
) -> (r: DoorCues)
    ensures
        ({
            let text = direction_text(
                description@,
                purpose@,
                match visible_action {
                    Some(t) => t@,
                    None => Seq::<char>::empty(),
                },
                match intended_reaction {
                    Some(t) => t@,
                    None => Seq::<char>::empty(),
                },
            );
            r.opens == opens_doors(text) && r.closes == closes_doors(text)
        }),
{
    let mut raw = chars_of(description);
    append_chars(&mut raw, &chars_of(" "));
    append_chars(&mut raw, &chars_of(purpose));
    append_chars(&mut raw, &chars_of(" "));
    append_chars(&mut raw, &opt_chars(visible_action));
    append_chars(&mut raw, &chars_of(" "));
    append_chars(&mut raw, &opt_chars(intended_reaction));
    proof {
        reveal_strlit(" ");
        let vis = match visible_action {
            Some(t) => t@,
            None => Seq::<char>::empty(),
        };
        let rea = match intended_reaction {
            Some(t) => t@,
            None => Seq::<char>::empty(),
        };
        assert(raw@ =~= description@ + seq![' '] + purpose@ + seq![' '] + vis + seq![' '] + rea);
    }
    let text = ascii_lowercase(&raw);
    let slam = contains_chars(&text, &chars_of("slam shut"));
    let opens = (contains_chars(&text, &chars_of("doors open")) || contains_chars(
        &text,
        &chars_of("doors slide open"),
    )) && !slam;
    let closes = contains_chars(&text, &chars_of("doors close")) || contains_chars(
        &text,
        &chars_of("close violently"),
    ) || slam;
    DoorCues { opens, closes }
}

} // verus!
