//! Fighting: how hard a blow lands, what damage and healing do to a
//! fighter, and how it is told.

use crate::langgen::output_queue::OutputQueue;
use crate::langgen::{Fragment, FragmentEntry, QueueAdapter};
use crate::text::{format_hit, hit_text};
use vstd::prelude::*;

verus! {

/// A fighter's health and strength.
#[derive(Copy, Clone, Debug, PartialEq, Eq, Structural)]
pub struct CombatStats {
    pub max_hp: i32,
    pub hp: i32,
    pub defense: i32,
    pub power: i32,
}

/// The energy an attacker is left with after an attack.
pub const ATTACK_ENERGY: i32 = -120;

/// Whether the fragment is a text whose characters are `t`.
pub open spec fn is_text<Entity>(f: FragmentEntry<Entity>, t: Seq<char>) -> bool {
    f.0 matches Fragment::Text(s) && s@ == t
}

/// A blow does as much damage as the attacker's power exceeds the target's
/// defense, and none when it does not exceed it; so one more power does one
/// more damage once the power exceeds the defense, and damage never falls as
/// power grows.
pub proof fn lemma_damage_is_power_over_defense(power: int, defense: int, more: int)
    requires
        more >= 0,
    ensures
        power > defense ==> spec_melee_damage(power, defense) == power - defense,
        power <= defense ==> spec_melee_damage(power, defense) == 0,
        spec_melee_damage(power, defense) >= 0,
        spec_melee_damage(power, defense) <= spec_melee_damage(power + more, defense),
        power >= defense ==> spec_melee_damage(power + more, defense) == spec_melee_damage(
            power,
            defense,
        ) + more,
{
}

/// The damage of a blow: the attacker's power less the target's defense,
/// never below zero.
pub open spec fn spec_melee_damage(power: int, defense: int) -> int {
    if power - defense > 0 {
        power - defense
    } else {
        0
    }
}

/// The damage of a blow: the attacker's power less the target's defense,
/// never below zero.
pub fn melee_damage(power: i32, defense: i32) -> (d: i32)
    requires
        i32::MIN <= power - defense <= i32::MAX,
    ensures
        d == spec_melee_damage(power as int, defense as int),
{
    let d = power - defense;
    if d > 0 {
        d
    } else {
        0
    }
}

/// One melee attack of `attacker` on `target`, whose stats are `None` when
/// it is gone. Tells what happened and returns the damage the target
/// suffers, if any:
/// - a target that is gone: "The attacker wants to attak a ghost?";
/// - a target with no health left: nothing happens;
/// - a blow that does no damage: "The attacker is unable to hurt the
///   target";
/// - else "The attacker hits the target, for N hp", and the damage is
///   returned.
///
/// Whatever the outcome, the attack takes the attacker's turn: its energy
/// becomes `ATTACK_ENERGY`.
pub fn melee<Entity: Copy, QA: QueueAdapter<Entity>>(
    output: &mut OutputQueue<Entity, QA>,
    attacker: Entity,
    target: Entity,
    attacker_power: i32,
    target_stats: Option<CombatStats>,
    attacker_energy: &mut i32,
) -> (damage: Option<i32>)
    requires
        target_stats matches Some(stats) ==> i32::MIN <= attacker_power - stats.defense
            <= i32::MAX,
    ensures
        *final(attacker_energy) == ATTACK_ENERGY,
        final(output).viewer() == old(output).viewer(),
        final(output).text_state() == old(output).text_state(),
        final(output).dot_supressed() == old(output).dot_supressed(),
        match target_stats {
            None => {
                &&& damage is None
                &&& final(output).pending() == old(output).pending() + seq![
                    FragmentEntry(Fragment::The(attacker)),
                    FragmentEntry(Fragment::VerbRef(attacker, "want")),
                    FragmentEntry(Fragment::TextRef("to attak a ghost?")),
                    FragmentEntry(Fragment::EndOfLine),
                ]
            },
            Some(stats) => {
                let d = spec_melee_damage(attacker_power as int, stats.defense as int);
                let n = old(output).pending().len() as int;
                if stats.hp <= 0 {
                    &&& damage is None
                    &&& *final(output) == *old(output)
                } else if d == 0 {
                    &&& damage is None
                    &&& final(output).pending() == old(output).pending() + seq![
                        FragmentEntry(Fragment::The(attacker)),
                        FragmentEntry(Fragment::Is(attacker)),
                        FragmentEntry(Fragment::TextRef("unable to hurt")),
                        FragmentEntry(Fragment::The(target)),
                        FragmentEntry(Fragment::EndOfLine),
                    ]
                } else {
                    &&& damage == Some(d as i32)
                    &&& final(output).pending() == old(output).pending() + seq![
                        FragmentEntry(Fragment::The(attacker)),
                        FragmentEntry(Fragment::VerbRef(attacker, "hit")),
                        FragmentEntry(Fragment::The(target)),
                        final(output).pending()[n + 3],
                        FragmentEntry(Fragment::EndOfLine),
                    ]
                    &&& is_text(final(output).pending()[n + 3], hit_text(d))
                }
            },
        },
{
    *attacker_energy = ATTACK_ENERGY;
    match target_stats {
        None => {
            output.the(attacker).v(attacker, "want").s("to attak a ghost?");
            proof {
                output.lemma_pending();
                assert(output.pending() =~= old(output).pending() + seq![
                    FragmentEntry(Fragment::The(attacker)),
                    FragmentEntry(Fragment::VerbRef(attacker, "want")),
                    FragmentEntry(Fragment::TextRef("to attak a ghost?")),
                    FragmentEntry(Fragment::EndOfLine),
                ]);
            }
            None
        },
        Some(stats) => {
            if stats.hp > 0 {
                let damage = melee_damage(attacker_power, stats.defense);
                if damage == 0 {
                    output.the(attacker).is(attacker).s("unable to hurt").the(target);
                    proof {
                        output.lemma_pending();
                        assert(output.pending() =~= old(output).pending() + seq![
                            FragmentEntry(Fragment::The(attacker)),
                            FragmentEntry(Fragment::Is(attacker)),
                            FragmentEntry(Fragment::TextRef("unable to hurt")),
                            FragmentEntry(Fragment::The(target)),
                            FragmentEntry(Fragment::EndOfLine),
                        ]);
                    }
                    None
                } else {
                    let text = format_hit(damage);
                    let ghost t = text;
                    output.the(attacker).v(attacker, "hit").the(target).string(text);
                    proof {
                        output.lemma_pending();
                        let n = old(output).pending().len() as int;
                        assert(output.pending() =~= old(output).pending() + seq![
                            FragmentEntry(Fragment::The(attacker)),
                            FragmentEntry(Fragment::VerbRef(attacker, "hit")),
                            FragmentEntry(Fragment::The(target)),
                            FragmentEntry(Fragment::Text(t)),
                            FragmentEntry(Fragment::EndOfLine),
                        ]);
                        assert(output.pending()[n + 3] == FragmentEntry(Fragment::<Entity>::Text(t)));
                    }
                    Some(damage)
                }
            } else {
                None
            }
        },
    }
}

/// Integer division rounding toward zero, as Rust's `/` does.
pub open spec fn div_toward_zero(a: int, b: int) -> int {
    if a >= 0 {
        a / b
    } else {
        -((-a) / b)
    }
}

/// The stats after suffering `amount` damage: the health drops by it.
pub open spec fn damaged(stats: CombatStats, amount: int) -> CombatStats {
    CombatStats { hp: (stats.hp - amount) as i32, ..stats }
}

/// The stats after receiving `amount` health: at full health the maximum
/// grows by `1 + amount / 8` and the health fills it; below it the health
/// rises by the amount, up to the maximum.
pub open spec fn healed(stats: CombatStats, amount: int) -> CombatStats {
    if stats.max_hp == stats.hp {
        let max_hp = stats.max_hp + 1 + div_toward_zero(amount, 8);
        CombatStats { max_hp: max_hp as i32, hp: max_hp as i32, ..stats }
    } else {
        let hp = stats.hp + amount;
        CombatStats { hp: (if stats.max_hp < hp { stats.max_hp as int } else { hp }) as i32, ..stats }
    }
}

/// Suffering damage: the health drops by the amount.
pub fn suffer_damage(stats: &mut CombatStats, amount: i32)
    requires
        i32::MIN <= old(stats).hp - amount <= i32::MAX,
    ensures
        *final(stats) == damaged(*old(stats), amount as int),
{
    stats.hp = stats.hp - amount;
}

/// Receiving health; see `healed`.
pub fn receive_health(stats: &mut CombatStats, amount: i32)
    requires
        old(stats).max_hp == old(stats).hp ==> old(stats).max_hp < i32::MAX && i32::MIN
            <= old(stats).max_hp + 1 + div_toward_zero(amount as int, 8) <= i32::MAX,
        old(stats).max_hp != old(stats).hp ==> i32::MIN <= old(stats).hp + amount <= i32::MAX,
    ensures
        *final(stats) == healed(*old(stats), amount as int),
{
    if stats.max_hp == stats.hp {
        stats.max_hp = stats.max_hp + 1 + amount / 8;
        stats.hp = stats.max_hp;
    } else {
        let hp = stats.hp + amount;
        stats.hp = if stats.max_hp < hp {
            stats.max_hp
        } else {
            hp
        };
    }
}

/// Healing keeps the health within the maximum, and a fighter at full
/// health is at full health after it.
pub proof fn lemma_healing_within_max(stats: CombatStats, amount: int)
    requires
        stats.hp <= stats.max_hp,
        stats.max_hp == stats.hp ==> i32::MIN <= stats.max_hp + 1 + div_toward_zero(amount, 8)
            <= i32::MAX,
        stats.max_hp != stats.hp ==> i32::MIN <= stats.hp + amount <= i32::MAX,
    ensures
        healed(stats, amount).hp <= healed(stats, amount).max_hp,
        stats.hp == stats.max_hp ==> healed(stats, amount).hp == healed(stats, amount).max_hp,
        healed(stats, amount).defense == stats.defense,
        healed(stats, amount).power == stats.power,
{
}

/// Tells of a death: "You are dead" for the player, "The X dies" for
/// anyone else. Nothing is told while the health is above zero.
pub fn announce_death<Entity: Copy, QA: QueueAdapter<Entity>>(
    output: &mut OutputQueue<Entity, QA>,
    entity: Entity,
    is_player: bool,
    hp: i32,
)
    ensures
        final(output).viewer() == old(output).viewer(),
        final(output).text_state() == old(output).text_state(),
        final(output).dot_supressed() == old(output).dot_supressed(),
        hp >= 1 ==> *final(output) == *old(output),
        hp < 1 && is_player ==> final(output).pending() == old(output).pending() + seq![
            FragmentEntry(Fragment::TextRef("You are dead")),
            FragmentEntry(Fragment::EndOfLine),
        ],
        hp < 1 && !is_player ==> final(output).pending() == old(output).pending() + seq![
            FragmentEntry(Fragment::The(entity)),
            FragmentEntry(Fragment::VerbRef(entity, "die")),
            FragmentEntry(Fragment::EndOfLine),
        ],
{
    if hp < 1 {
        if is_player {
            output.s("You are dead");
            proof {
                output.lemma_pending();
                assert(output.pending() =~= old(output).pending() + seq![
                    FragmentEntry(Fragment::TextRef("You are dead")),
                    FragmentEntry(Fragment::EndOfLine),
                ]);
            }
        } else {
            output.the(entity).v(entity, "die");
            proof {
                output.lemma_pending();
                assert(output.pending() =~= old(output).pending() + seq![
                    FragmentEntry(Fragment::The(entity)),
                    FragmentEntry(Fragment::VerbRef(entity, "die")),
                    FragmentEntry(Fragment::EndOfLine),
                ]);
            }
        }
    }
}

} // verus!
