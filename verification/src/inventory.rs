//! The backpack: which slot a picked-up item goes in, and what picking up,
//! dropping and using items does and tells.

use crate::combat::is_text;
use crate::gui::{index_to_letter, slot_letter};
use crate::langgen::output_queue::OutputQueue;
use crate::langgen::{Fragment, FragmentEntry, QueueAdapter};
use crate::map::GameMap;
use crate::positions::MapPosition;
use crate::text::{format_hp, format_slot, hp_text, slot_text};
use vstd::prelude::*;

verus! {

/// The number of slots in a backpack.
pub const BACKPACK_SLOTS: u8 = 52;

/// The color the slot of a picked-up item is told in.
pub const YELLOW: (u8, u8, u8) = (255, 255, 0);

/// Whether slot `c` exists and no item uses it.
pub open spec fn slot_free(used: Seq<u8>, c: int) -> bool {
    0 <= c < 52 && !used.contains(c as u8)
}

/// The first free slot from `c` on.
pub open spec fn first_free(used: Seq<u8>, c: int) -> Option<u8>
    decreases 52 - c,
{
    if c >= 52 || c < 0 {
        None
    } else if slot_free(used, c) {
        Some(c as u8)
    } else {
        first_free(used, c + 1)
    }
}

/// The slot a picked-up item goes in, given the slots in use: the slot it
/// had, when it had one and that is free; else the first free slot; none
/// when the backpack is full.
pub open spec fn spec_backpack_slot(used: Seq<u8>, current: Option<u8>) -> Option<u8> {
    match current {
        Some(c) if slot_free(used, c as int) => Some(c),
        _ => first_free(used, 0),
    }
}

/// The first free slot from `c` on is free, and no slot between `c` and it
/// is; there is none only when no slot from `c` on is free.
pub proof fn lemma_first_free(used: Seq<u8>, c: int)
    requires
        0 <= c,
    ensures
        first_free(used, c) matches Some(s) ==> c <= s && slot_free(used, s as int) && forall|
            d: int,
        | c <= d < s ==> !slot_free(used, d),
        first_free(used, c) is None ==> forall|d: int| c <= d < 52 ==> !slot_free(used, d),
    decreases 52 - c,
{
    if c < 52 && !slot_free(used, c) {
        lemma_first_free(used, c + 1);
    }
}

/// Backpack slots stay distinct: when the slots in use are distinct and
/// below 52, the slot a picked-up item gets is free and below 52, so the
/// slots in use with it added are still distinct and below 52.
pub proof fn lemma_slots_stay_distinct(used: Seq<u8>, current: Option<u8>)
    requires
        forall|i: int, j: int| 0 <= i < j < used.len() ==> used[i] != used[j],
        forall|i: int| 0 <= i < used.len() ==> used[i] < 52,
    ensures
        spec_backpack_slot(used, current) matches Some(s) ==> {
            let more = used.push(s);
            &&& s < 52
            &&& !used.contains(s)
            &&& forall|i: int, j: int| 0 <= i < j < more.len() ==> more[i] != more[j]
            &&& forall|i: int| 0 <= i < more.len() ==> more[i] < 52
        },
{
    lemma_first_free(used, 0);
    if let Some(s) = spec_backpack_slot(used, current) {
        let more = used.push(s);
        assert(slot_free(used, s as int));
        assert forall|i: int, j: int| 0 <= i < j < more.len() implies more[i] != more[j] by {
            if j == used.len() {
                assert(more[i] == used[i]);
                assert(used.contains(used[i]));
            }
        }
    }
}

/// The slot a picked-up item goes in; see `spec_backpack_slot`.
pub fn backpack_slot(used: &Vec<u8>, current: Option<u8>) -> (slot: Option<u8>)
    ensures
        slot == spec_backpack_slot(used@, current),
{
    if let Some(c) = current {
        if c < BACKPACK_SLOTS && !slot_used(used, c) {
            return Some(c);
        }
    }
    let mut c: u8 = 0;
    while c < BACKPACK_SLOTS
        invariant
            c <= 52,
            spec_backpack_slot(used@, current) == first_free(used@, 0),
            first_free(used@, 0) == first_free(used@, c as int),
        decreases 52 - c,
    {
        if !slot_used(used, c) {
            return Some(c);
        }
        c = c + 1;
    }
    None
}

/// Whether some item uses slot `c`.
fn slot_used(used: &Vec<u8>, c: u8) -> (r: bool)
    ensures
        r == used@.contains(c),
{
    for k in 0..used.len()
        invariant
            forall|j: int| 0 <= j < k ==> used@[j] != c,
    {
        if used[k] == c {
            assert(used@[k as int] == c);
            return true;
        }
    }
    false
}

/// What became of a pick-up.
#[derive(Copy, Clone, Debug, PartialEq, Eq, Structural)]
pub enum Pickup {
    /// The backpack is full; the item stays where it is.
    Full,
    /// The item is in the backpack, and gets this slot anew (`None` when it
    /// keeps the slot it had, or is not the player's).
    Taken(Option<u8>),
}

/// `who` picks up `item`. The player's item goes into a slot (see
/// `spec_backpack_slot`), given the slots in use and the slot the item had:
/// "You pick up a X (s)" with the slot's letter in yellow, or "Your
/// backpack is full." Anyone else just picks it up: "The Y picks up a X".
pub fn pickup<Entity: Copy, QA: QueueAdapter<Entity>>(
    output: &mut OutputQueue<Entity, QA>,
    who: Entity,
    item: Entity,
    is_player: bool,
    used: &Vec<u8>,
    current: Option<u8>,
) -> (r: Pickup)
    ensures
        final(output).viewer() == old(output).viewer(),
        final(output).text_state() == old(output).text_state(),
        final(output).dot_supressed() == old(output).dot_supressed(),
        !is_player ==> r == Pickup::Taken(None) && final(output).pending() == old(
            output,
        ).pending() + seq![
            FragmentEntry(Fragment::The(who)),
            FragmentEntry(Fragment::VerbRef(who, "pick")),
            FragmentEntry(Fragment::TextRef("up")),
            FragmentEntry(Fragment::A(item)),
            FragmentEntry(Fragment::EndOfLine),
        ],
        is_player ==> match spec_backpack_slot(used@, current) {
            None => r == Pickup::Full && final(output).pending() == old(output).pending() + seq![
                FragmentEntry(Fragment::TextRef("Your backpack is full.")),
                FragmentEntry(Fragment::EndOfLine),
            ],
            Some(s) => {
                let n = old(output).pending().len() as int;
                &&& r == Pickup::Taken(
                    if current == Some(s) {
                        None
                    } else {
                        Some(s)
                    },
                )
                &&& final(output).pending() == old(output).pending() + seq![
                    FragmentEntry(Fragment::The(who)),
                    FragmentEntry(Fragment::VerbRef(who, "pick")),
                    FragmentEntry(Fragment::TextRef("up")),
                    FragmentEntry(Fragment::A(item)),
                    FragmentEntry(Fragment::Color(YELLOW)),
                    final(output).pending()[n + 5],
                    FragmentEntry(Fragment::EndOfLine),
                ]
                &&& is_text(final(output).pending()[n + 5], slot_text(slot_letter(s as int)))
            },
        },
{
    if is_player {
        let slot = backpack_slot(used, current);
        proof {
            lemma_first_free(used@, 0);
        }
        match slot {
            None => {
                output.s("Your backpack is full.");
                proof {
                    output.lemma_pending();
                    assert(output.pending() =~= old(output).pending() + seq![
                        FragmentEntry(Fragment::TextRef("Your backpack is full.")),
                        FragmentEntry(Fragment::EndOfLine),
                    ]);
                }
                Pickup::Full
            },
            Some(s) => {
                let text = format_slot(index_to_letter(s));
                let ghost t = text;
                output.the(who).v(who, "pick").s("up").a(item).color(YELLOW).string(text);
                proof {
                    output.lemma_pending();
                    let n = old(output).pending().len() as int;
                    assert(output.pending() =~= old(output).pending() + seq![
                        FragmentEntry(Fragment::The(who)),
                        FragmentEntry(Fragment::VerbRef(who, "pick")),
                        FragmentEntry(Fragment::TextRef("up")),
                        FragmentEntry(Fragment::A(item)),
                        FragmentEntry(Fragment::Color(YELLOW)),
                        FragmentEntry(Fragment::Text(t)),
                        FragmentEntry(Fragment::EndOfLine),
                    ]);
                    assert(output.pending()[n + 5] == FragmentEntry(Fragment::<Entity>::Text(t)));
                }
                if current == Some(s) {
                    Pickup::Taken(None)
                } else {
                    Pickup::Taken(Some(s))
                }
            },
        }
    } else {
        output.the(who).v(who, "pick").s("up").a(item);
        proof {
            output.lemma_pending();
            assert(output.pending() =~= old(output).pending() + seq![
                FragmentEntry(Fragment::The(who)),
                FragmentEntry(Fragment::VerbRef(who, "pick")),
                FragmentEntry(Fragment::TextRef("up")),
                FragmentEntry(Fragment::A(item)),
                FragmentEntry(Fragment::EndOfLine),
            ]);
        }
        Pickup::Taken(None)
    }
}

/// Tells of a drop: "You drop the X" when the player drops it; nothing is
/// told of others.
pub fn announce_drop<Entity: Copy, QA: QueueAdapter<Entity>>(
    output: &mut OutputQueue<Entity, QA>,
    dropper: Entity,
    item: Entity,
    is_player: bool,
)
    ensures
        final(output).viewer() == old(output).viewer(),
        final(output).text_state() == old(output).text_state(),
        final(output).dot_supressed() == old(output).dot_supressed(),
        !is_player ==> *final(output) == *old(output),
        is_player ==> final(output).pending() == old(output).pending() + seq![
            FragmentEntry(Fragment::The(dropper)),
            FragmentEntry(Fragment::VerbRef(dropper, "drop")),
            FragmentEntry(Fragment::The(item)),
            FragmentEntry(Fragment::EndOfLine),
        ],
{
    if is_player {
        output.the(dropper).v(dropper, "drop").the(item);
        proof {
            output.lemma_pending();
            assert(output.pending() =~= old(output).pending() + seq![
                FragmentEntry(Fragment::The(dropper)),
                FragmentEntry(Fragment::VerbRef(dropper, "drop")),
                FragmentEntry(Fragment::The(item)),
                FragmentEntry(Fragment::EndOfLine),
            ]);
        }
    }
}

/// What stands on the tiles, tile after tile, in the order listed.
pub open spec fn contents_at<Entity>(map: GameMap<Entity>, tiles: Seq<MapPosition>) -> Seq<Entity>
    decreases tiles.len(),
{
    if tiles.len() == 0 {
        Seq::empty()
    } else {
        contents_at(map, tiles.drop_last()) + map.tile_content@[map.spec_idx(
            tiles.last().x as int,
            tiles.last().y as int,
        )]@
    }
}

/// Everything that stands on the given tiles: the targets of an item used
/// on them.
pub fn targets_at<Entity: Copy>(map: &GameMap<Entity>, tiles: &Vec<MapPosition>) -> (r: Vec<Entity>)
    requires
        map.wf(),
        forall|k: int|
            0 <= k < tiles@.len() ==> map.spec_in_bounds(
                #[trigger] tiles@[k].x as int,
                tiles@[k].y as int,
            ),
    ensures
        r@ == contents_at(*map, tiles@),
{
    let mut r: Vec<Entity> = Vec::new();
    for k in 0..tiles.len()
        invariant
            map.wf(),
            forall|j: int|
                0 <= j < tiles@.len() ==> map.spec_in_bounds(
                    #[trigger] tiles@[j].x as int,
                    tiles@[j].y as int,
                ),
            r@ == contents_at(*map, tiles@.take(k as int)),
    {
        assert(tiles@.take(k as int + 1).drop_last() == tiles@.take(k as int));
        let t = tiles[k];
        let idx = map.idx_of(t.x, t.y);
        let content = &map.tile_content[idx];
        let ghost before = r@;
        for j in 0..content.len()
            invariant
                r@ == before + content@.take(j as int),
        {
            r.push(content[j]);
            assert(content@.take(j as int + 1) == content@.take(j as int).push(content@[j as int]));
        }
        assert(content@.take(content@.len() as int) == content@);
    }
    assert(tiles@.take(tiles@.len() as int) == tiles@);
    r
}

/// What using an item does to its targets.
#[derive(Copy, Clone, Debug, PartialEq, Eq, Structural)]
pub enum ItemEffect {
    /// Each target receives this much health.
    Heal(i32),
    /// Each target suffers this much damage.
    Damage(i32),
    /// Nothing.
    Nothing,
}

/// The sentences that tell of healing the targets, one per target: "You
/// feel better." for the player, "The X feels better" for others.
pub open spec fn heal_told<Entity>(targets: Seq<Entity>, is_player: Seq<bool>) -> Seq<FragmentEntry<Entity>>
    decreases targets.len(),
{
    if targets.len() == 0 {
        Seq::empty()
    } else {
        let t = targets.last();
        let rest = heal_told(targets.drop_last(), is_player.drop_last());
        if is_player.last() {
            rest + seq![
                FragmentEntry(Fragment::TextRef("You feel better.")),
                FragmentEntry(Fragment::EndOfLine),
            ]
        } else {
            rest + seq![
                FragmentEntry(Fragment::The(t)),
                FragmentEntry(Fragment::VerbRef(t, "feel")),
                FragmentEntry(Fragment::TextRef("better")),
                FragmentEntry(Fragment::EndOfLine),
            ]
        }
    }
}

/// Whether `told` tells of damage to the targets, one sentence each: "The X
/// loses N hp".
pub open spec fn damage_told<Entity>(told: Seq<FragmentEntry<Entity>>, targets: Seq<Entity>, amount: int) -> bool {
    &&& told.len() == 4 * targets.len()
    &&& forall|k: int|
        0 <= k < targets.len() ==> {
            &&& #[trigger] told[4 * k] == FragmentEntry(Fragment::The(targets[k]))
            &&& told[4 * k + 1] == FragmentEntry(Fragment::VerbRef(targets[k], "lose"))
            &&& is_text(told[4 * k + 2], hp_text(amount))
            &&& told[4 * k + 3] == FragmentEntry(Fragment::<Entity>::EndOfLine)
        }
}

/// `user` uses `item` with the given effect on the targets (`is_player`
/// tells which target is the player). Tells "The user consumes the item",
/// then what happens to each target, and returns the health each target
/// receives or the damage it suffers, target by target.
pub fn use_item<Entity: Copy, QA: QueueAdapter<Entity>>(
    output: &mut OutputQueue<Entity, QA>,
    user: Entity,
    item: Entity,
    targets: &Vec<Entity>,
    is_player: &Vec<bool>,
    effect: ItemEffect,
) -> (r: Vec<(Entity, i32)>)
    requires
        is_player@.len() == targets@.len(),
    ensures
        final(output).viewer() == old(output).viewer(),
        final(output).text_state() == old(output).text_state(),
        final(output).dot_supressed() == old(output).dot_supressed(),
        ({
            let told = old(output).pending() + seq![
                FragmentEntry(Fragment::The(user)),
                FragmentEntry(Fragment::VerbRef(user, "consume")),
                FragmentEntry(Fragment::The(item)),
                FragmentEntry(Fragment::EndOfLine),
            ];
            match effect {
                ItemEffect::Heal(amount) => {
                    &&& final(output).pending() == told + heal_told(targets@, is_player@)
                    &&& r@.len() == targets@.len()
                    &&& forall|k: int| 0 <= k < r@.len() ==> #[trigger] r@[k] == (targets@[k], amount)
                },
                ItemEffect::Damage(amount) => {
                    &&& final(output).pending().subrange(0, told.len() as int) == told
                    &&& damage_told(
                        final(output).pending().subrange(
                            told.len() as int,
                            final(output).pending().len() as int,
                        ),
                        targets@,
                        amount as int,
                    )
                    &&& r@.len() == targets@.len()
                    &&& forall|k: int| 0 <= k < r@.len() ==> #[trigger] r@[k] == (targets@[k], amount)
                },
                ItemEffect::Nothing => {
                    &&& final(output).pending() == told
                    &&& r@.len() == 0
                },
            }
        }),
{
    output.the(user).v(user, "consume").the(item);
    proof {
        output.lemma_pending();
    }
    let ghost told = output.pending();
    let mut r: Vec<(Entity, i32)> = Vec::new();
    match effect {
        ItemEffect::Heal(amount) => {
            for k in 0..targets.len()
                invariant
                    is_player@.len() == targets@.len(),
                    output.pending() == told + heal_told(
                        targets@.take(k as int),
                        is_player@.take(k as int),
                    ),
                    output.viewer() == old(output).viewer(),
                    output.text_state() == old(output).text_state(),
                    output.dot_supressed() == old(output).dot_supressed(),
                    r@.len() == k,
                    forall|j: int| 0 <= j < k ==> #[trigger] r@[j] == (targets@[j], amount),
            {
                let target = targets[k];
                let ghost before = output.pending();
                assert(targets@.take(k as int + 1).drop_last() == targets@.take(k as int));
                assert(is_player@.take(k as int + 1).drop_last() == is_player@.take(k as int));
                if is_player[k] {
                    output.s("You feel better.");
                    proof {
                        output.lemma_pending();
                        assert(output.pending() =~= before + seq![
                            FragmentEntry(Fragment::TextRef("You feel better.")),
                            FragmentEntry(Fragment::EndOfLine),
                        ]);
                    }
                } else {
                    output.the(target).v(target, "feel").s("better");
                    proof {
                        output.lemma_pending();
                        assert(output.pending() =~= before + seq![
                            FragmentEntry(Fragment::The(target)),
                            FragmentEntry(Fragment::VerbRef(target, "feel")),
                            FragmentEntry(Fragment::TextRef("better")),
                            FragmentEntry(Fragment::EndOfLine),
                        ]);
                    }
                }
                r.push((target, amount));
            }
            assert(targets@.take(targets@.len() as int) == targets@);
            assert(is_player@.take(is_player@.len() as int) == is_player@);
        },
        ItemEffect::Damage(amount) => {
            for k in 0..targets.len()
                invariant
                    told.len() <= output.pending().len(),
                    output.pending().subrange(0, told.len() as int) == told,
                    damage_told(
                        output.pending().subrange(
                            told.len() as int,
                            output.pending().len() as int,
                        ),
                        targets@.take(k as int),
                        amount as int,
                    ),
                    output.viewer() == old(output).viewer(),
                    output.text_state() == old(output).text_state(),
                    output.dot_supressed() == old(output).dot_supressed(),
                    r@.len() == k,
                    forall|j: int| 0 <= j < k ==> #[trigger] r@[j] == (targets@[j], amount),
            {
                let target = targets[k];
                let ghost before = output.pending();
                let text = format_hp(amount);
                let ghost t = text;
                output.the(target).v(target, "lose").string(text);
                proof {
                    output.lemma_pending();
                    let after = output.pending();
                    assert(after =~= before + seq![
                        FragmentEntry(Fragment::The(target)),
                        FragmentEntry(Fragment::VerbRef(target, "lose")),
                        FragmentEntry(Fragment::Text(t)),
                        FragmentEntry(Fragment::EndOfLine),
                    ]);
                    let m = told.len() as int;
                    let old_tail = before.subrange(m, before.len() as int);
                    let tail = after.subrange(m, after.len() as int);
                    let ts = targets@.take(k as int + 1);
                    assert(after.subrange(0, m) =~= told);
                    assert forall|j: int| 0 <= j < ts.len() implies {
                        &&& #[trigger] tail[4 * j] == FragmentEntry(Fragment::The(ts[j]))
                        &&& tail[4 * j + 1] == FragmentEntry(Fragment::VerbRef(ts[j], "lose"))
                        &&& is_text(tail[4 * j + 2], hp_text(amount as int))
                        &&& tail[4 * j + 3] == FragmentEntry(Fragment::<Entity>::EndOfLine)
                    } by {
                        if j < k {
                            assert(ts[j] == targets@.take(k as int)[j]);
                            assert(tail[4 * j] == old_tail[4 * j]);
                            assert(tail[4 * j + 1] == old_tail[4 * j + 1]);
                            assert(tail[4 * j + 2] == old_tail[4 * j + 2]);
                            assert(tail[4 * j + 3] == old_tail[4 * j + 3]);
                        } else {
                            assert(tail[4 * j + 2] == FragmentEntry(Fragment::<Entity>::Text(t)));
                        }
                    }
                }
                r.push((target, amount));
            }
            assert(targets@.take(targets@.len() as int) == targets@);
        },
        ItemEffect::Nothing => {},
    }
    r
}

} // verus!
