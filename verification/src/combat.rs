use vstd::prelude::*;

use crate::components::{
    comps_in_range, AttackProfile, AttackStats, CombatProfile, Components, EntityId, Health, Mana,
    Position,
};
use crate::constants::{
    LEFT_BOARD_END, MAX_DT, RIGHT_BOARD_END, RIGHT_BOARD_START, SPEED, TOTAL_HEIGHT,
};
use crate::math::{clamp_spec, muldiv, sqrt_floor};
use crate::messages::CombatEvent;
use crate::shape::DamageType;
use crate::world::{live, world_in_range, Slot, World};

verus! {

/// Which board an x coordinate lies on: the left board, the right
/// board, or neither (the strip in between and everything outside).
pub open spec fn board_spec(x: int) -> Option<u8> {
    if x < LEFT_BOARD_END {
        Some(0u8)
    } else if RIGHT_BOARD_START <= x < RIGHT_BOARD_END {
        Some(1u8)
    } else {
        None
    }
}

pub fn get_board(x: i64) -> (b: Option<u8>)
    ensures
        b == board_spec(x as int),
{
    if x < LEFT_BOARD_END {
        Some(0)
    } else if RIGHT_BOARD_START <= x && x < RIGHT_BOARD_END {
        Some(1)
    } else {
        None
    }
}

/// Mana after one tick of regeneration: `regen` is per second, `dt`
/// in milliseconds, and the result caps at `max`.
pub open spec fn mana_after_regen(m: Mana, dt: int) -> Mana {
    let c = m.current + m.regen * dt / 1000;
    if c <= m.max {
        Mana { current: c as i64, max: m.max, regen: m.regen }
    } else {
        Mana { current: m.max, max: m.max, regen: m.regen }
    }
}

/// What `update_mana` does to one slot.
pub open spec fn mana_slot_after(s: Slot, dt: int) -> Slot {
    if s.alive && s.comps.mana is Some {
        let m = s.comps.mana->Some_0;
        Slot { alive: s.alive, comps: Components { mana: Some(mana_after_regen(m, dt)), ..s.comps } }
    } else {
        s
    }
}

/// Regenerates every live entity's mana by `regen * dt`, capped at its
/// maximum; nothing else changes.
#[verifier::loop_isolation(false)]
pub fn update_mana(world: &mut World, tick_delta: i64)
    requires
        world_in_range(old(world).slots@),
        0 <= tick_delta <= MAX_DT,
    ensures
        final(world).slots@.len() == old(world).slots@.len(),
        forall|i: int|
            0 <= i < old(world).slots@.len() ==> final(world).slots@[i] == mana_slot_after(
                #[trigger] old(world).slots@[i],
                tick_delta as int,
            ),
        world_in_range(final(world).slots@),
{
    let n = world.slots.len();
    let mut i: usize = 0;
    while i < n
        invariant
            world.slots@.len() == n,
            forall|j: int|
                0 <= j < i ==> world.slots@[j] == mana_slot_after(
                    #[trigger] old(world).slots@[j],
                    tick_delta as int,
                ),
            forall|j: int| i <= j < n ==> world.slots@[j] == old(world).slots@[j],
        decreases n - i,
    {
        let s = world.slots[i];
        if s.alive {
            if let Some(m) = s.comps.mana {
                proof {
                    assert(world.slots@[i as int] == old(world).slots@[i as int]);
                    assert(comps_in_range(old(world).slots@[i as int].comps));
                    assert(m.regen * tick_delta <= 10_000_000_000_000) by (nonlinear_arith)
                        requires
                            0 <= m.regen <= 1_000_000_000,
                            0 <= tick_delta <= 10_000,
                    ;
                    assert(m.regen * tick_delta / 1000 >= 0) by (nonlinear_arith)
                        requires
                            m.regen >= 0,
                            tick_delta >= 0,
                    ;
                }
                let gained: i64 = ((m.regen as u64 * tick_delta as u64) / 1000) as i64;
                let c = m.current + gained;
                let current = if c <= m.max {
                    c
                } else {
                    m.max
                };
                world.slots[i].comps.mana = Some(
                    Mana { current, max: m.max, regen: m.regen },
                );
            }
        }
        i = i + 1;
    }
    proof {
        assert forall|k: int|
            0 <= k < world.slots@.len() && (#[trigger] world.slots@[k]).alive implies comps_in_range(
            world.slots@[k].comps,
        ) by {
            let os = old(world).slots@[k];
            assert(os.alive ==> comps_in_range(os.comps));
            if os.alive && os.comps.mana is Some {
                let m = os.comps.mana->Some_0;
                assert(m.regen * tick_delta / 1000 >= 0) by (nonlinear_arith)
                    requires
                        m.regen >= 0,
                        tick_delta >= 0,
                ;
            }
        }
    }
}

/// Whether this slot holds a live entity that has run out of health.
pub open spec fn slot_dead(s: Slot) -> bool {
    s.alive && s.comps.health is Some && s.comps.health->Some_0.current <= 0
}

/// Despawns every entity whose health has reached zero or below;
/// everything else is untouched.
#[verifier::loop_isolation(false)]
pub fn cleanup_dead_entities(world: &mut World)
    requires
        world_in_range(old(world).slots@),
    ensures
        final(world).slots@.len() == old(world).slots@.len(),
        forall|i: int|
            0 <= i < old(world).slots@.len() ==> final(world).slots@[i] == (if slot_dead(
                #[trigger] old(world).slots@[i],
            ) {
                Slot { alive: false, comps: old(world).slots@[i].comps }
            } else {
                old(world).slots@[i]
            }),
        world_in_range(final(world).slots@),
{
    let n = world.slots.len();
    let mut i: usize = 0;
    while i < n
        invariant
            world.slots@.len() == n,
            forall|j: int|
                0 <= j < i ==> world.slots@[j] == (if slot_dead(#[trigger] old(world).slots@[j]) {
                    Slot { alive: false, comps: old(world).slots@[j].comps }
                } else {
                    old(world).slots@[j]
                }),
            forall|j: int| i <= j < n ==> world.slots@[j] == old(world).slots@[j],
        decreases n - i,
    {
        let s = world.slots[i];
        if s.alive {
            if let Some(h) = s.comps.health {
                if h.current <= 0 {
                    world.slots[i] = Slot { alive: false, comps: s.comps };
                }
            }
        }
        i = i + 1;
    }
    proof {
        assert forall|k: int|
            0 <= k < world.slots@.len() && (#[trigger] world.slots@[k]).alive implies comps_in_range(
            world.slots@[k].comps,
        ) by {
            let os = old(world).slots@[k];
            assert(os.alive ==> comps_in_range(os.comps));
        }
    }
}

/// Whether some live enemy stands on board `b`.
pub open spec fn board_has_enemy(slots: Seq<Slot>, b: u8) -> bool {
    exists|i: int|
        0 <= i < slots.len() && (#[trigger] slots[i]).alive && slots[i].comps.enemy
            && slots[i].comps.pos is Some && board_spec(slots[i].comps.pos->Some_0.x as int)
            == Some(b)
}

/// What `update_combat_reset` does to one slot, given which boards are
/// clear of enemies.
pub open spec fn reset_slot_after(s: Slot, reset0: bool, reset1: bool) -> Slot {
    if s.alive && s.comps.pos is Some && s.comps.home is Some && {
        let hb = board_spec(s.comps.home->Some_0.x as int);
        (hb == Some(0u8) && reset0) || (hb == Some(1u8) && reset1)
    } {
        Slot {
            alive: s.alive,
            comps: Components {
                pos: s.comps.home,
                health: match s.comps.health {
                    Some(h) => Some(Health { current: h.max, max: h.max }),
                    None => None,
                },
                mana: match s.comps.mana {
                    Some(m) => Some(Mana { current: m.max, max: m.max, regen: m.regen }),
                    None => None,
                },
                ..s.comps
            },
        }
    } else {
        s
    }
}

/// On every board with no live enemy, sends each entity homed there
/// back to its home position with full health and mana.
#[verifier::loop_isolation(false)]
pub fn update_combat_reset(world: &mut World)
    requires
        world_in_range(old(world).slots@),
    ensures
        final(world).slots@.len() == old(world).slots@.len(),
        forall|i: int|
            0 <= i < old(world).slots@.len() ==> final(world).slots@[i] == reset_slot_after(
                #[trigger] old(world).slots@[i],
                !board_has_enemy(old(world).slots@, 0),
                !board_has_enemy(old(world).slots@, 1),
            ),
        // Every entity homed on an enemy-free board stands at home
        // again with full health and mana.
        forall|i: int|
            0 <= i < final(world).slots@.len() && (#[trigger] final(world).slots@[i]).alive && final(world).slots@[i].comps.pos is Some && final(world).slots@[i].comps.home is Some && {
                let hb = board_spec(final(world).slots@[i].comps.home->Some_0.x as int);
                (hb == Some(0u8) && !board_has_enemy(old(world).slots@, 0)) || (hb == Some(1u8)
                    && !board_has_enemy(old(world).slots@, 1))
            } ==> {
                &&& final(world).slots@[i].comps.pos == final(world).slots@[i].comps.home
                &&& (final(world).slots@[i].comps.health matches Some(h) ==> h.current == h.max)
                &&& (final(world).slots@[i].comps.mana matches Some(m) ==> m.current == m.max)
            },
        world_in_range(final(world).slots@),
{
    let n = world.slots.len();

    // First pass: find which boards still hold a live enemy.
    let mut has0: bool = false;
    let mut has1: bool = false;
    let mut i: usize = 0;
    while i < n
        invariant
            i <= n,
            world.slots@ == old(world).slots@,
            has0 == exists|j: int|
                0 <= j < i && (#[trigger] old(world).slots@[j]).alive
                    && old(world).slots@[j].comps.enemy && old(world).slots@[j].comps.pos is Some
                    && board_spec(old(world).slots@[j].comps.pos->Some_0.x as int) == Some(0u8),
            has1 == exists|j: int|
                0 <= j < i && (#[trigger] old(world).slots@[j]).alive
                    && old(world).slots@[j].comps.enemy && old(world).slots@[j].comps.pos is Some
                    && board_spec(old(world).slots@[j].comps.pos->Some_0.x as int) == Some(1u8),
        decreases n - i,
    {
        let s = world.slots[i];
        proof {
            assert(world.slots@[i as int] == old(world).slots@[i as int]);
        }
        if s.alive && s.comps.enemy {
            if let Some(p) = s.comps.pos {
                match get_board(p.x) {
                    Some(0) => has0 = true,
                    Some(1) => has1 = true,
                    _ => (),
                }
            }
        }
        i = i + 1;
    }
    let reset0 = !has0;
    let reset1 = !has1;
    assert(has0 == board_has_enemy(old(world).slots@, 0));
    assert(has1 == board_has_enemy(old(world).slots@, 1));

    if reset0 || reset1 {
        // Second pass: restore every entity homed on a cleared board.
        let mut i: usize = 0;
        while i < n
            invariant
                world.slots@.len() == n,
                forall|j: int|
                    0 <= j < i ==> world.slots@[j] == reset_slot_after(
                        #[trigger] old(world).slots@[j],
                        reset0,
                        reset1,
                    ),
                forall|j: int| i <= j < n ==> world.slots@[j] == old(world).slots@[j],
            decreases n - i,
        {
            let s = world.slots[i];
            if s.alive && s.comps.pos.is_some() {
                if let Some(h) = s.comps.home {
                    let hb = get_board(h.x);
                    let do_reset = match hb {
                        Some(0) => reset0,
                        Some(1) => reset1,
                        _ => false,
                    };
                    if do_reset {
                        world.slots[i].comps.pos = Some(h);
                        if let Some(hh) = s.comps.health {
                            world.slots[i].comps.health = Some(
                                Health { current: hh.max, max: hh.max },
                            );
                        }
                        if let Some(m) = s.comps.mana {
                            world.slots[i].comps.mana = Some(
                                Mana { current: m.max, max: m.max, regen: m.regen },
                            );
                        }
                    }
                }
            }
            i = i + 1;
        }
    }
    proof {
        assert forall|k: int|
            0 <= k < world.slots@.len() && (#[trigger] world.slots@[k]).alive implies comps_in_range(
            world.slots@[k].comps,
        ) by {
            let os = old(world).slots@[k];
            assert(os.alive ==> comps_in_range(os.comps));
        }
        assert forall|k: int| 0 <= k < world.slots@.len() implies #[trigger] world.slots@[k]
            == reset_slot_after(
            old(world).slots@[k],
            !board_has_enemy(old(world).slots@, 0),
            !board_has_enemy(old(world).slots@, 1),
        ) by {
            assert(world.slots@[k] == reset_slot_after(
                old(world).slots@[k],
                reset0,
                reset1,
            ));
        }
    }
}

/// Which attack profile an entity should be using: the primary when it
/// is free or affordable, otherwise the secondary fallback.
pub open spec fn selected_profile(cp: CombatProfile, mana: Option<Mana>) -> AttackProfile {
    let use_primary = if cp.mana_cost > 0 {
        mana is Some && mana->Some_0.current >= cp.mana_cost
    } else {
        true
    };
    if use_primary {
        cp.primary
    } else {
        match cp.secondary {
            Some(s) => s,
            None => cp.primary,
        }
    }
}

/// What `update_active_combat_stats` does to one slot.
pub open spec fn stats_slot_after(s: Slot) -> Slot {
    if s.alive && s.comps.combat_profile is Some && s.comps.attack_stats is Some
        && s.comps.attack_range is Some {
        let sel = selected_profile(s.comps.combat_profile->Some_0, s.comps.mana);
        Slot {
            alive: s.alive,
            comps: Components {
                attack_stats: Some(
                    AttackStats { damage: sel.damage, rate: sel.rate, damage_type: sel.damage_type },
                ),
                attack_range: Some(sel.range),
                ..s.comps
            },
        }
    } else {
        s
    }
}

/// Writes each unit's selected attack profile into its active stats
/// and range: the primary exactly when it is free or its mana cost is
/// covered, else the secondary when there is one.
#[verifier::loop_isolation(false)]
pub fn update_active_combat_stats(world: &mut World)
    requires
        world_in_range(old(world).slots@),
    ensures
        final(world).slots@.len() == old(world).slots@.len(),
        forall|i: int|
            0 <= i < old(world).slots@.len() ==> final(world).slots@[i] == stats_slot_after(
                #[trigger] old(world).slots@[i],
            ),
        world_in_range(final(world).slots@),
{
    let n = world.slots.len();
    let mut i: usize = 0;
    while i < n
        invariant
            world.slots@.len() == n,
            forall|j: int|
                0 <= j < i ==> world.slots@[j] == stats_slot_after(#[trigger] old(world).slots@[j]),
            forall|j: int| i <= j < n ==> world.slots@[j] == old(world).slots@[j],
        decreases n - i,
    {
        let s = world.slots[i];
        if s.alive && s.comps.attack_stats.is_some() && s.comps.attack_range.is_some() {
            if let Some(cp) = s.comps.combat_profile {
                let use_primary = if cp.mana_cost > 0 {
                    match s.comps.mana {
                        Some(m) => m.current >= cp.mana_cost,
                        None => false,
                    }
                } else {
                    true
                };
                let sel = if use_primary {
                    cp.primary
                } else {
                    match cp.secondary {
                        Some(sec) => sec,
                        None => cp.primary,
                    }
                };
                world.slots[i].comps.attack_stats = Some(
                    AttackStats { damage: sel.damage, rate: sel.rate, damage_type: sel.damage_type },
                );
                world.slots[i].comps.attack_range = Some(sel.range);
            }
        }
        i = i + 1;
    }
    proof {
        assert forall|k: int|
            0 <= k < world.slots@.len() && (#[trigger] world.slots@[k]).alive implies comps_in_range(
            world.slots@[k].comps,
        ) by {
            let os = old(world).slots@[k];
            assert(os.alive ==> comps_in_range(os.comps));
        }
    }
}

/// One attack resolved this tick: who fired, at whom, for how much.
#[derive(Clone, Copy, Debug, PartialEq, Eq, Structural)]
pub struct Attack {
    pub attacker: u32,
    pub target: EntityId,
    pub damage: i64,
    pub damage_type: DamageType,
}

/// An attack timer wound down by `dt`, stopping at zero.
pub open spec fn timer_after(t: int, dt: int) -> int {
    if t - dt >= 0 {
        t - dt
    } else {
        0
    }
}

/// Whether this entity fires this tick: it has attack stats and a
/// timer that has run out, its target is in range, and it has one.
pub open spec fn slot_fires(s: Slot, dt: int) -> bool {
    &&& s.alive
    &&& s.comps.attack_stats is Some
    &&& s.comps.attack_timer is Some
    &&& s.comps.in_attack_range
    &&& timer_after(s.comps.attack_timer->Some_0 as int, dt) <= 0
    &&& s.comps.target is Some
}

/// The attack entity `i` fires.
pub open spec fn attack_of(s: Slot, i: int) -> Attack {
    Attack {
        attacker: i as u32,
        target: s.comps.target->Some_0,
        damage: s.comps.attack_stats->Some_0.damage,
        damage_type: s.comps.attack_stats->Some_0.damage_type,
    }
}

/// The attacks fired by the first `n` entities, in slot order.
pub open spec fn attacks_fired(slots: Seq<Slot>, dt: int, n: int) -> Seq<Attack>
    decreases n,
{
    if n <= 0 {
        Seq::empty()
    } else {
        attacks_fired(slots, dt, n - 1) + if slot_fires(slots[n - 1], dt) {
            seq![attack_of(slots[n - 1], n - 1)]
        } else {
            Seq::<Attack>::empty()
        }
    }
}

/// Whether a firing entity pays mana for the shot: it has a profile
/// with a positive cost and enough mana to cover it.
pub open spec fn deducts_mana(s: Slot) -> bool {
    &&& s.comps.combat_profile is Some
    &&& s.comps.mana is Some
    &&& s.comps.combat_profile->Some_0.mana_cost > 0
    &&& s.comps.mana->Some_0.current >= s.comps.combat_profile->Some_0.mana_cost
}

/// What the timer-and-mana pass does to one slot: every armed entity's
/// timer winds down; one that fires pays any mana cost and resets its
/// timer to one full attack period.
pub open spec fn combat_pass_slot(s: Slot, dt: int) -> Slot {
    if s.alive && s.comps.attack_stats is Some && s.comps.attack_timer is Some {
        let st = s.comps.attack_stats->Some_0;
        let t = s.comps.attack_timer->Some_0;
        if slot_fires(s, dt) {
            let mana = if deducts_mana(s) {
                let m = s.comps.mana->Some_0;
                Some(
                    Mana {
                        current: (m.current - s.comps.combat_profile->Some_0.mana_cost) as i64,
                        max: m.max,
                        regen: m.regen,
                    },
                )
            } else {
                s.comps.mana
            };
            Slot {
                alive: s.alive,
                comps: Components {
                    attack_timer: Some((1_000_000 as int / st.rate as int) as i64),
                    mana,
                    ..s.comps
                },
            }
        } else {
            Slot {
                alive: s.alive,
                comps: Components {
                    attack_timer: Some(timer_after(t as int, dt) as i64),
                    ..s.comps
                },
            }
        }
    } else {
        s
    }
}

/// `c - d`, stopping at the smallest `i64` instead of wrapping.
pub open spec fn sat_sub(c: int, d: int) -> int {
    if c - d >= i64::MIN {
        c - d
    } else {
        i64::MIN as int
    }
}

/// The damage entity `i` takes from this tick's attacks.
pub open spec fn total_damage(attacks: Seq<Attack>, i: int) -> int
    decreases attacks.len(),
{
    if attacks.len() == 0 {
        0
    } else {
        total_damage(attacks.drop_last(), i) + if attacks.last().target.idx == i {
            attacks.last().damage as int
        } else {
            0
        }
    }
}

/// A slot after taking `d` damage, if it is a live entity with health.
pub open spec fn damage_adjusted(s: Slot, d: int) -> Slot {
    if s.alive && s.comps.health is Some {
        let h = s.comps.health->Some_0;
        Slot {
            alive: s.alive,
            comps: Components {
                health: Some(Health { current: sat_sub(h.current as int, d) as i64, max: h.max }),
                ..s.comps
            },
        }
    } else {
        s
    }
}

/// One attack landing on its target, if the target is still a live
/// entity with health.
pub open spec fn apply_one_attack(slots: Seq<Slot>, a: Attack) -> Seq<Slot> {
    let i = a.target.idx as int;
    if 0 <= i < slots.len() && slots[i].alive && slots[i].comps.health is Some {
        let h = slots[i].comps.health->Some_0;
        slots.update(
            i,
            Slot {
                alive: true,
                comps: Components {
                    health: Some(
                        Health { current: sat_sub(h.current as int, a.damage as int) as i64, max: h.max },
                    ),
                    ..slots[i].comps
                },
            },
        )
    } else {
        slots
    }
}

/// All of this tick's attacks landing, in order.
pub open spec fn apply_attacks(slots: Seq<Slot>, attacks: Seq<Attack>) -> Seq<Slot>
    decreases attacks.len(),
{
    if attacks.len() == 0 {
        slots
    } else {
        apply_one_attack(apply_attacks(slots, attacks.drop_last()), attacks.last())
    }
}

/// Where an entity stands, or the origin when it is gone or placeless;
/// events carry these.
pub open spec fn pos_or_zero(slots: Seq<Slot>, idx: int) -> Position {
    if 0 <= idx < slots.len() && slots[idx].alive && slots[idx].comps.pos is Some {
        slots[idx].comps.pos->Some_0
    } else {
        Position { x: 0, y: 0 }
    }
}

/// The event published for one attack.
pub open spec fn event_of(slots: Seq<Slot>, a: Attack) -> CombatEvent {
    CombatEvent {
        attacker_id: a.attacker,
        target_id: a.target.idx,
        attack_type: a.damage_type,
        start_pos: pos_or_zero(slots, a.attacker as int),
        end_pos: pos_or_zero(slots, a.target.idx as int),
    }
}

/// Landing attacks one by one is the same as charging each entity its
/// damage total, because damage only accumulates downward.
proof fn lemma_apply_attacks_pointwise(slots: Seq<Slot>, attacks: Seq<Attack>)
    requires
        forall|k: int| 0 <= k < attacks.len() ==> (#[trigger] attacks[k]).damage >= 0,
    ensures
        apply_attacks(slots, attacks).len() == slots.len(),
        forall|i: int|
            0 <= i < slots.len() ==> apply_attacks(slots, attacks)[i] == damage_adjusted(
                #[trigger] slots[i],
                total_damage(attacks, i),
            ),
    decreases attacks.len(),
{
    if attacks.len() == 0 {
    } else {
        let prefix = attacks.drop_last();
        let a = attacks.last();
        lemma_apply_attacks_pointwise(slots, prefix);
        let mid = apply_attacks(slots, prefix);
        assert forall|i: int| 0 <= i < slots.len() implies apply_attacks(slots, attacks)[i]
            == damage_adjusted(#[trigger] slots[i], total_damage(attacks, i)) by {
            lemma_total_damage_nonneg(prefix, i);
            if i == a.target.idx {
                assert(mid[i] == damage_adjusted(slots[i], total_damage(prefix, i)));
            }
        }
    }
}

/// Damage totals are never negative.
proof fn lemma_total_damage_nonneg(attacks: Seq<Attack>, i: int)
    requires
        forall|k: int| 0 <= k < attacks.len() ==> (#[trigger] attacks[k]).damage >= 0,
    ensures
        total_damage(attacks, i) >= 0,
    decreases attacks.len(),
{
    if attacks.len() > 0 {
        lemma_total_damage_nonneg(attacks.drop_last(), i);
    }
}

/// Resolves this tick's attacks. Every armed entity's timer winds
/// down; each entity whose target is marked in range and whose timer
/// has run out fires: it pays any covered mana cost, resets its timer
/// to one attack period, and its target loses the attack's damage.
/// The returned events describe each attack in slot order.
#[verifier::loop_isolation(false)]
#[verifier::rlimit(100)]
pub fn process_combat(world: &mut World, tick_delta: i64) -> (events: Vec<CombatEvent>)
    requires
        world_in_range(old(world).slots@),
        0 <= tick_delta <= MAX_DT,
    ensures
        final(world).slots@.len() == old(world).slots@.len(),
        forall|i: int|
            0 <= i < old(world).slots@.len() ==> final(world).slots@[i] == damage_adjusted(
                combat_pass_slot(#[trigger] old(world).slots@[i], tick_delta as int),
                total_damage(
                    attacks_fired(
                        old(world).slots@,
                        tick_delta as int,
                        old(world).slots@.len() as int,
                    ),
                    i,
                ),
            ),
        events@.len() == attacks_fired(
            old(world).slots@,
            tick_delta as int,
            old(world).slots@.len() as int,
        ).len(),
        forall|k: int|
            0 <= k < events@.len() ==> events@[k] == event_of(
                old(world).slots@,
                #[trigger] attacks_fired(
                    old(world).slots@,
                    tick_delta as int,
                    old(world).slots@.len() as int,
                )[k],
            ),
        world_in_range(final(world).slots@),
{
    let n = world.slots.len();
    let mut attacks: Vec<Attack> = Vec::new();

    // Timer-and-mana pass; it also records who fires at whom.
    let mut i: usize = 0;
    while i < n
        invariant
            i <= n,
            world.slots@.len() == n,
            forall|j: int|
                0 <= j < i ==> world.slots@[j] == combat_pass_slot(
                    #[trigger] old(world).slots@[j],
                    tick_delta as int,
                ),
            forall|j: int| i <= j < n ==> world.slots@[j] == old(world).slots@[j],
            attacks@ == attacks_fired(old(world).slots@, tick_delta as int, i as int),
            forall|k: int|
                0 <= k < attacks@.len() ==> 0 <= (#[trigger] attacks@[k]).damage
                    && (attacks@[k].attacker as int) < i,
        decreases n - i,
    {
        let s = world.slots[i];
        proof {
            assert(world.slots@[i as int] == old(world).slots@[i as int]);
            assert(old(world).slots@[i as int].alive ==> comps_in_range(
                old(world).slots@[i as int].comps,
            ));
        }
        if s.alive && s.comps.attack_stats.is_some() && s.comps.attack_timer.is_some() {
            let st = s.comps.attack_stats.unwrap();
            let t = s.comps.attack_timer.unwrap();
            let new_timer: i64 = if t - tick_delta >= 0 {
                t - tick_delta
            } else {
                0
            };
            let mut fired = false;
            if s.comps.in_attack_range && new_timer <= 0 {
                if let Some(tgt) = s.comps.target {
                    fired = true;
                    // Pay the mana cost when the unit has one covered.
                    if let Some(cp) = s.comps.combat_profile {
                        if let Some(m) = s.comps.mana {
                            if cp.mana_cost > 0 && m.current >= cp.mana_cost {
                                world.slots[i].comps.mana = Some(
                                    Mana {
                                        current: m.current - cp.mana_cost,
                                        max: m.max,
                                        regen: m.regen,
                                    },
                                );
                            }
                        }
                    }
                    attacks.push(
                        Attack {
                            attacker: i as u32,
                            target: tgt,
                            damage: st.damage,
                            damage_type: st.damage_type,
                        },
                    );
                    world.slots[i].comps.attack_timer = Some((1_000_000u64 / st.rate as u64) as i64);
                }
            }
            if !fired {
                world.slots[i].comps.attack_timer = Some(new_timer);
            }
            proof {
                assert(attacks_fired(old(world).slots@, tick_delta as int, i as int + 1)
                    =~= attacks_fired(old(world).slots@, tick_delta as int, i as int) + if slot_fires(
                    old(world).slots@[i as int],
                    tick_delta as int,
                ) {
                    seq![attack_of(old(world).slots@[i as int], i as int)]
                } else {
                    Seq::<Attack>::empty()
                });
            }
        } else {
            proof {
                assert(attacks_fired(old(world).slots@, tick_delta as int, i as int + 1)
                    =~= attacks_fired(old(world).slots@, tick_delta as int, i as int));
            }
        }
        i = i + 1;
    }

    let ghost after_pass = world.slots@;
    let ghost all_attacks = attacks_fired(old(world).slots@, tick_delta as int, n as int);

    // Damage-and-events pass, in firing order.
    let mut events: Vec<CombatEvent> = Vec::new();
    let mut k: usize = 0;
    let na = attacks.len();
    while k < na
        invariant
            k <= na,
            na == all_attacks.len(),
            attacks@ == all_attacks,
            world.slots@ == apply_attacks(after_pass, all_attacks.take(k as int)),
            world.slots@.len() == n,
            events@.len() == k,
            forall|k2: int|
                0 <= k2 < k ==> events@[k2] == event_of(old(world).slots@, #[trigger] all_attacks[k2]),
        decreases na - k,
    {
        let a = attacks[k];
        proof {
            lemma_apply_attacks_pointwise(after_pass, all_attacks.take(k as int));
        }
        // Capture the endpoint positions for the effect event.
        let start_pos = {
            let si = a.attacker as usize;
            let s = world.slots[si];
            if s.alive && s.comps.pos.is_some() {
                s.comps.pos.unwrap()
            } else {
                Position { x: 0, y: 0 }
            }
        };
        let end_pos = {
            let ti = a.target.idx as usize;
            if ti < n {
                let s = world.slots[ti];
                if s.alive && s.comps.pos.is_some() {
                    s.comps.pos.unwrap()
                } else {
                    Position { x: 0, y: 0 }
                }
            } else {
                Position { x: 0, y: 0 }
            }
        };
        events.push(
            CombatEvent {
                attacker_id: a.attacker,
                target_id: a.target.idx,
                attack_type: a.damage_type,
                start_pos,
                end_pos,
            },
        );
        // Land the damage.
        let ti = a.target.idx as usize;
        if ti < n {
            let s = world.slots[ti];
            if s.alive {
                if let Some(h) = s.comps.health {
                    let current: i64 = if h.current >= i64::MIN + a.damage {
                        h.current - a.damage
                    } else {
                        i64::MIN
                    };
                    world.slots[ti].comps.health = Some(Health { current, max: h.max });
                }
            }
        }
        proof {
            assert(all_attacks.take(k as int + 1).drop_last() =~= all_attacks.take(k as int));
            assert(all_attacks.take(k as int + 1).last() == all_attacks[k as int]);
            assert(world.slots@ =~= apply_one_attack(
                apply_attacks(after_pass, all_attacks.take(k as int)),
                all_attacks[k as int],
            ));
        }
        k = k + 1;
    }

    proof {
        assert(all_attacks.take(na as int) =~= all_attacks);
        lemma_apply_attacks_pointwise(after_pass, all_attacks);
        assert forall|k2: int|
            0 <= k2 < world.slots@.len() && (#[trigger] world.slots@[k2]).alive
            implies comps_in_range(world.slots@[k2].comps) by {
            let os = old(world).slots@[k2];
            assert(os.alive ==> comps_in_range(os.comps));
            if os.alive && os.comps.attack_stats is Some {
                let st = os.comps.attack_stats->Some_0;
                assert(1_000_000 as int / st.rate as int >= 0 && 1_000_000 as int / st.rate as int
                    <= 1_000_000) by (nonlinear_arith)
                    requires
                        1 <= st.rate,
                ;
            }
        }
    }
    events
}

/// Squared Euclidean distance between two positions.
pub open spec fn dist_sq(p: Position, q: Position) -> int {
    (p.x - q.x) * (p.x - q.x) + (p.y - q.y) * (p.y - q.y)
}

/// Whether slot `s` can be acquired as a target by the given side:
/// enemies hunt live non-enemy non-workers, everyone else hunts live
/// enemies, and the candidate must stand on board `b`.
pub open spec fn target_candidate(s: Slot, enemy_side: bool, b: u8) -> bool {
    &&& s.alive
    &&& if enemy_side {
        s.comps.enemy
    } else {
        !s.comps.enemy && !s.comps.worker
    }
    &&& s.comps.pos is Some
    &&& board_spec(s.comps.pos->Some_0.x as int) == Some(b)
}

/// The first-seen nearest candidate among the first `n` slots, by
/// squared distance from `from`; earlier slots win ties.
pub open spec fn nearest_upto(
    slots: Seq<Slot>,
    enemy_side: bool,
    b: u8,
    from: Position,
    n: int,
) -> Option<int>
    decreases n,
{
    if n <= 0 {
        None
    } else {
        let prev = nearest_upto(slots, enemy_side, b, from, n - 1);
        if target_candidate(slots[n - 1], enemy_side, b) {
            match prev {
                None => Some(n - 1),
                Some(j) => if dist_sq(slots[n - 1].comps.pos->Some_0, from) < dist_sq(
                    slots[j].comps.pos->Some_0,
                    from,
                ) {
                    Some(n - 1)
                } else {
                    Some(j)
                },
            }
        } else {
            prev
        }
    }
}

/// The nearest candidate in the whole world.
pub open spec fn nearest_candidate(
    slots: Seq<Slot>,
    enemy_side: bool,
    b: u8,
    from: Position,
) -> Option<int> {
    nearest_upto(slots, enemy_side, b, from, slots.len() as int)
}

proof fn lemma_nearest_props(slots: Seq<Slot>, enemy_side: bool, b: u8, from: Position, n: int)
    requires
        n <= slots.len(),
    ensures
        match nearest_upto(slots, enemy_side, b, from, n) {
            Some(j) => 0 <= j < n && target_candidate(slots[j], enemy_side, b),
            None => forall|j: int| 0 <= j < n ==> !target_candidate(#[trigger] slots[j], enemy_side, b),
        },
    decreases n,
{
    if n > 0 {
        lemma_nearest_props(slots, enemy_side, b, from, n - 1);
    }
}

/// What the validation step leaves of a live holder's target: gone if
/// the target no longer exists, gone if both have positions on
/// different boards, otherwise kept.
pub open spec fn validated_target(slots: Seq<Slot>, s: Slot) -> Option<EntityId> {
    match s.comps.target {
        None => None,
        Some(t) => {
            if s.alive && s.comps.pos is Some {
                if !live(slots, t) {
                    None
                } else if slots[t.idx as int].comps.pos is Some && board_spec(
                    s.comps.pos->Some_0.x as int,
                ) != board_spec(slots[t.idx as int].comps.pos->Some_0.x as int) {
                    None
                } else {
                    Some(t)
                }
            } else {
                Some(t)
            }
        },
    }
}

/// Entity `i`'s target once the whole targeting pass has run:
/// validation first, then acquisition of the nearest opposing entity
/// on the same board for live, placed, targetless non-workers.
pub open spec fn target_after(slots: Seq<Slot>, i: int) -> Option<EntityId> {
    let s = slots[i];
    let t1 = validated_target(slots, s);
    if s.alive && t1 is None && !s.comps.worker && s.comps.pos is Some {
        let p = s.comps.pos->Some_0;
        match board_spec(p.x as int) {
            Some(b) => match nearest_candidate(slots, !s.comps.enemy, b, p) {
                Some(j) => Some(EntityId { idx: j as u32 }),
                None => None,
            },
            None => None,
        }
    } else {
        t1
    }
}

/// A slot with only its target replaced.
pub open spec fn with_target(s: Slot, t: Option<EntityId>) -> Slot {
    Slot { alive: s.alive, comps: Components { target: t, ..s.comps } }
}

/// Drops every stale or cross-board target, then lets each live,
/// placed, targetless non-worker acquire the nearest opposing entity
/// on its own board (earliest slot wins ties); enemies acquire units,
/// units acquire enemies, and workers take no part on either side.
#[verifier::loop_isolation(false)]
#[verifier::rlimit(100)]
pub fn update_targeting(world: &mut World)
    requires
        world_in_range(old(world).slots@),
    ensures
        final(world).slots@.len() == old(world).slots@.len(),
        forall|i: int|
            0 <= i < old(world).slots@.len() ==> final(world).slots@[i] == with_target(
                #[trigger] old(world).slots@[i],
                target_after(old(world).slots@, i),
            ),
        world_in_range(final(world).slots@),
        // Every remaining target of a placed holder is live, and on
        // the holder's board whenever it has a position of its own.
        forall|i: int|
            0 <= i < final(world).slots@.len() && (#[trigger] final(world).slots@[i]).alive
                && final(world).slots@[i].comps.pos is Some && final(world).slots@[i].comps.target is Some ==> {
                let t = final(world).slots@[i].comps.target->Some_0;
                &&& live(final(world).slots@, t)
                &&& (final(world).slots@[t.idx as int].comps.pos is Some ==> board_spec(
                    final(world).slots@[i].comps.pos->Some_0.x as int,
                ) == board_spec(final(world).slots@[t.idx as int].comps.pos->Some_0.x as int))
            },
        // Workers acquire nothing: a worker with no target stays bare.
        forall|i: int|
            0 <= i < final(world).slots@.len() && (#[trigger] final(world).slots@[i]).comps.worker
                && old(world).slots@[i].comps.target is None ==> final(world).slots@[i].comps.target is None,
        // Nothing newly acquires a worker, as long as no entity is
        // marked both enemy and worker (the game never builds one).
        (forall|k: int|
            0 <= k < old(world).slots@.len() ==> !((#[trigger] old(world).slots@[k]).comps.worker
                && old(world).slots@[k].comps.enemy)) ==> forall|i: int|
            0 <= i < final(world).slots@.len() && (#[trigger] final(world).slots@[i]).comps.target
                is Some && final(world).slots@[i].comps.target != old(world).slots@[i].comps.target
                ==> !final(world).slots@[final(world).slots@[i].comps.target->Some_0.idx as int].comps.worker,
{
    let n = world.slots.len();

    // Validation pass: drop targets that no longer resolve.
    let mut i: usize = 0;
    while i < n
        invariant
            i <= n,
            world.slots@.len() == n,
            forall|j: int|
                0 <= j < i ==> world.slots@[j] == with_target(
                    #[trigger] old(world).slots@[j],
                    validated_target(old(world).slots@, old(world).slots@[j]),
                ),
            forall|j: int| i <= j < n ==> world.slots@[j] == old(world).slots@[j],
        decreases n - i,
    {
        let s = world.slots[i];
        proof {
            assert(world.slots@[i as int] == old(world).slots@[i as int]);
        }
        if s.alive && s.comps.pos.is_some() {
            if let Some(t) = s.comps.target {
                let ti = t.idx as usize;
                let target_live = ti < n && world.slots[ti].alive;
                proof {
                    if ti < n {
                        if (ti as int) < (i as int) {
                            assert(world.slots@[ti as int] == with_target(
                                old(world).slots@[ti as int],
                                validated_target(old(world).slots@, old(world).slots@[ti as int]),
                            ));
                        }
                        assert(world.slots@[ti as int].alive == old(world).slots@[ti as int].alive);
                        assert(world.slots@[ti as int].comps.pos == old(world).slots@[ti as int].comps.pos);
                    }
                }
                if !target_live {
                    world.slots[i].comps.target = None;
                } else {
                    if let Some(q) = world.slots[ti].comps.pos {
                        let p = s.comps.pos.unwrap();
                        let b1 = get_board(p.x);
                        let b2 = get_board(q.x);
                        let mismatch = match (b1, b2) {
                            (Some(x), Some(y)) => x != y,
                            (None, None) => false,
                            _ => true,
                        };
                        if mismatch {
                            world.slots[i].comps.target = None;
                        }
                    }
                }
            }
        }
        i = i + 1;
    }

    let ghost slots0 = old(world).slots@;

    // Acquisition pass: targetless fighters pick the nearest opposing
    // entity on their own board.
    let mut i: usize = 0;
    while i < n
        invariant
            i <= n,
            world.slots@.len() == n,
            forall|j: int|
                0 <= j < i ==> world.slots@[j] == with_target(
                    #[trigger] slots0[j],
                    target_after(slots0, j),
                ),
            forall|j: int|
                i <= j < n ==> world.slots@[j] == with_target(
                    #[trigger] slots0[j],
                    validated_target(slots0, slots0[j]),
                ),
        decreases n - i,
    {
        let s = world.slots[i];
        proof {
            assert(world.slots@[i as int] == with_target(
                slots0[i as int],
                validated_target(slots0, slots0[i as int]),
            ));
            assert(old(world).slots@[i as int].alive ==> comps_in_range(
                old(world).slots@[i as int].comps,
            ));
        }
        if s.alive && s.comps.target.is_none() && !s.comps.worker && s.comps.pos.is_some() {
            let p = s.comps.pos.unwrap();
            if let Some(b) = get_board(p.x) {
                let enemy_side = !s.comps.enemy;
                let mut best: Option<u32> = None;
                let mut best_d: i64 = 0;
                let mut j: usize = 0;
                while j < n
                    invariant
                        j <= n,
                        match best {
                            Some(bi) => {
                                &&& nearest_upto(slots0, enemy_side, b, p, j as int) == Some(
                                    bi as int,
                                )
                                &&& target_candidate(slots0[bi as int], enemy_side, b)
                                &&& best_d == dist_sq(slots0[bi as int].comps.pos->Some_0, p)
                            },
                            None => nearest_upto(slots0, enemy_side, b, p, j as int) is None,
                        },
                    decreases n - j,
                {
                    let c = world.slots[j];
                    proof {
                        assert(world.slots@[j as int] == with_target(
                            slots0[j as int],
                            if (j as int) < (i as int) {
                                target_after(slots0, j as int)
                            } else {
                                validated_target(slots0, slots0[j as int])
                            },
                        ));
                        assert(slots0[j as int].alive ==> comps_in_range(slots0[j as int].comps));
                    }
                    let is_cand = c.alive && (if enemy_side {
                        c.comps.enemy
                    } else {
                        !c.comps.enemy && !c.comps.worker
                    }) && c.comps.pos.is_some();
                    if is_cand {
                        let q = c.comps.pos.unwrap();
                        let cb = get_board(q.x);
                        let on_board = match cb {
                            Some(x) => x == b,
                            None => false,
                        };
                        if on_board {
                            proof {
                                assert((p.x - q.x) * (p.x - q.x) + (p.y - q.y) * (p.y - q.y)
                                    <= 8_000_000_000_000_000_000) by (nonlinear_arith)
                                    requires
                                        -2_000_000_000 <= p.x - q.x <= 2_000_000_000,
                                        -2_000_000_000 <= p.y - q.y <= 2_000_000_000,
                                ;
                                assert((p.x - q.x) * (p.x - q.x) + (p.y - q.y) * (p.y - q.y) >= 0)
                                    by (nonlinear_arith);
                            }
                            let dx = q.x - p.x;
                            let dy = q.y - p.y;
                            proof {
                                assert(dx * dx == (p.x - q.x) * (p.x - q.x) && dy * dy == (p.y
                                    - q.y) * (p.y - q.y)) by (nonlinear_arith)
                                    requires
                                        dx == q.x - p.x,
                                        dy == q.y - p.y,
                                ;
                            }
                            let d = dx * dx + dy * dy;
                            let take = match best {
                                None => true,
                                Some(_) => d < best_d,
                            };
                            if take {
                                best = Some(j as u32);
                                best_d = d;
                            }
                        }
                    }
                    j = j + 1;
                }
                if let Some(bi) = best {
                    world.slots[i].comps.target = Some(EntityId { idx: bi });
                }
                proof {
                    assert(world.slots@[i as int] == with_target(
                        slots0[i as int],
                        target_after(slots0, i as int),
                    ));
                }
            }
        }
        i = i + 1;
    }

    // The published guarantees follow from the per-slot description.
    proof {
        let fs = world.slots@;
        assert forall|k: int|
            0 <= k < fs.len() && (#[trigger] fs[k]).alive implies comps_in_range(fs[k].comps) by {
            assert(slots0[k].alive ==> comps_in_range(slots0[k].comps));
        }
        assert forall|i2: int|
            0 <= i2 < fs.len() && (#[trigger] fs[i2]).alive && fs[i2].comps.pos is Some
                && fs[i2].comps.target is Some implies {
            let t = fs[i2].comps.target->Some_0;
            &&& live(fs, t)
            &&& (fs[t.idx as int].comps.pos is Some ==> board_spec(fs[i2].comps.pos->Some_0.x as int)
                == board_spec(fs[t.idx as int].comps.pos->Some_0.x as int))
        } by {
            let t = fs[i2].comps.target->Some_0;
            let s = slots0[i2];
            let t1 = validated_target(slots0, s);
            if s.alive && t1 is None && !s.comps.worker && s.comps.pos is Some {
                let p = s.comps.pos->Some_0;
                if board_spec(p.x as int) is Some {
                    let b = board_spec(p.x as int)->Some_0;
                    lemma_nearest_props(slots0, !s.comps.enemy, b, p, slots0.len() as int);
                }
            }
            if t.idx < fs.len() {
                assert(fs[t.idx as int] == with_target(
                    slots0[t.idx as int],
                    target_after(slots0, t.idx as int),
                ));
            }
            assert(live(fs, t) == live(slots0, t));
        }
        if forall|k: int|
            0 <= k < slots0.len() ==> !((#[trigger] slots0[k]).comps.worker
                && slots0[k].comps.enemy) {
            assert forall|i2: int|
                0 <= i2 < fs.len() && (#[trigger] fs[i2]).comps.target is Some
                    && fs[i2].comps.target != slots0[i2].comps.target implies !fs[fs[i2].comps.target->Some_0.idx
                as int].comps.worker by {
                let t = fs[i2].comps.target->Some_0;
                let s = slots0[i2];
                let t1 = validated_target(slots0, s);
                if s.alive && t1 is None && !s.comps.worker && s.comps.pos is Some {
                    let p = s.comps.pos->Some_0;
                    if board_spec(p.x as int) is Some {
                        let b = board_spec(p.x as int)->Some_0;
                        lemma_nearest_props(slots0, !s.comps.enemy, b, p, slots0.len() as int);
                    }
                }
                if t.idx < fs.len() {
                    assert(!(slots0[t.idx as int].comps.worker && slots0[t.idx as int].comps.enemy));
                    assert(fs[t.idx as int] == with_target(
                        slots0[t.idx as int],
                        target_after(slots0, t.idx as int),
                    ));
                }
            }
        }
    }
}

/// Whether this slot takes part in movement and separation: a live
/// non-worker with a position and a collision radius.
pub open spec fn phys(s: Slot) -> bool {
    &&& s.alive
    &&& !s.comps.worker
    &&& s.comps.pos is Some
    &&& s.comps.radius is Some
}

/// The deterministic push used when two entities sit exactly on top of
/// each other: one of eight fixed directions, picked by entity index,
/// already scaled to combat speed.
pub open spec fn pseudo_vel(i: int) -> (int, int) {
    let k = i % 8;
    if k == 0 {
        (80000, 0)
    } else if k == 1 {
        (56560, 56560)
    } else if k == 2 {
        (0, 80000)
    } else if k == 3 {
        (-56560, 56560)
    } else if k == 4 {
        (-80000, 0)
    } else if k == 5 {
        (-56560, -56560)
    } else if k == 6 {
        (0, -80000)
    } else {
        (56560, -56560)
    }
}

/// The seek force on entity `i` and whether its target is in attack
/// range: full speed toward the target while outside the range, no
/// force and the in-range marker once inside it.
pub open spec fn seek_result(slots: Seq<Slot>, i: int) -> (int, int, bool) {
    let s = slots[i];
    let p = s.comps.pos->Some_0;
    let range: int = if s.comps.attack_range is Some {
        s.comps.attack_range->Some_0 as int
    } else {
        0
    };
    match s.comps.target {
        Some(t) => {
            if t.idx < slots.len() && phys(slots[t.idx as int]) {
                let q = slots[t.idx as int].comps.pos->Some_0;
                let dx = q.x - p.x;
                let dy = q.y - p.y;
                let dist = sqrt_floor((dx * dx + dy * dy) as nat) as int;
                if dist > range && dist > 0 {
                    (muldiv(dx, SPEED as int, dist), muldiv(dy, SPEED as int, dist), false)
                } else if dist <= range {
                    (0, 0, true)
                } else {
                    (0, 0, false)
                }
            } else {
                (0, 0, false)
            }
        },
        None => (0, 0, false),
    }
}

/// The separation push on entity `i` from entity `j`: full speed away
/// when their circles overlap, the pseudo direction when they
/// coincide, nothing otherwise.
pub open spec fn sep_term(slots: Seq<Slot>, i: int, j: int) -> (int, int) {
    let s = slots[i];
    let o = slots[j];
    if j != i && phys(o) {
        let p = s.comps.pos->Some_0;
        let q = o.comps.pos->Some_0;
        let dx = p.x - q.x;
        let dy = p.y - q.y;
        let dist = sqrt_floor((dx * dx + dy * dy) as nat) as int;
        let min_dist = s.comps.radius->Some_0 + o.comps.radius->Some_0;
        if dist < min_dist {
            if dist > 0 {
                (muldiv(dx, SPEED as int, dist), muldiv(dy, SPEED as int, dist))
            } else {
                pseudo_vel(i)
            }
        } else {
            (0, 0)
        }
    } else {
        (0, 0)
    }
}

/// The summed separation push on entity `i` from the first `n` slots.
pub open spec fn sep_sum(slots: Seq<Slot>, i: int, n: int) -> (int, int)
    decreases n,
{
    if n <= 0 {
        (0, 0)
    } else {
        let prev = sep_sum(slots, i, n - 1);
        let t = sep_term(slots, i, n - 1);
        (prev.0 + t.0, prev.1 + t.1)
    }
}

/// Entity `i`'s velocity this tick and its in-range marker.
pub open spec fn velocity_of(slots: Seq<Slot>, i: int) -> (int, int, bool) {
    let sk = seek_result(slots, i);
    let sp = sep_sum(slots, i, slots.len() as int);
    (sk.0 + sp.0, sk.1 + sp.1, sk.2)
}

/// Where a moved entity ends up: displaced by `v * dt`, then held
/// inside its own board (chosen by its home position, the left board
/// when it has none) and the world's height.
pub open spec fn moved_pos(s: Slot, vx: int, vy: int, dt: int) -> Position {
    let p = s.comps.pos->Some_0;
    let r = s.comps.radius->Some_0 as int;
    let home_x: int = if s.comps.home is Some {
        s.comps.home->Some_0.x as int
    } else {
        0
    };
    let x1 = p.x + muldiv(vx, dt, 1000);
    let y1 = clamp_spec(p.y + muldiv(vy, dt, 1000), r, TOTAL_HEIGHT - r);
    let x2 = if home_x < LEFT_BOARD_END {
        clamp_spec(x1, r, LEFT_BOARD_END - r)
    } else {
        clamp_spec(x1, RIGHT_BOARD_START + r, RIGHT_BOARD_END - r)
    };
    Position { x: x2 as i64, y: y1 as i64 }
}

/// What `update_combat_movement` does to one slot.
pub open spec fn movement_slot_after(slots: Seq<Slot>, i: int, dt: int) -> Slot {
    let s = slots[i];
    if phys(s) {
        let v = velocity_of(slots, i);
        let pos = if v.0 != 0 || v.1 != 0 {
            Some(moved_pos(s, v.0, v.1, dt))
        } else {
            s.comps.pos
        };
        Slot { alive: s.alive, comps: Components { pos, in_attack_range: v.2, ..s.comps } }
    } else {
        s
    }
}

/// The seek force on one physical entity and its in-range marker.
#[verifier::loop_isolation(false)]
#[verifier::rlimit(60)]
fn entity_seek(world: &World, i: usize) -> (r: (i64, i64, bool))
    requires
        world_in_range(world.slots@),
        i < world.slots@.len(),
        phys(world.slots@[i as int]),
    ensures
        (r.0 as int, r.1 as int, r.2) == seek_result(world.slots@, i as int),
        -80_000 <= r.0 <= 80_000,
        -80_000 <= r.1 <= 80_000,
{
    let s = world.slots[i];
    proof {
        assert(comps_in_range(world.slots@[i as int].comps));
    }
    let p = s.comps.pos.unwrap();
    let n = world.slots.len();
    let mut kx: i64 = 0;
    let mut ky: i64 = 0;
    let mut marker = false;
    if let Some(t) = s.comps.target {
        let ti = t.idx as usize;
        if ti < n {
            let o = world.slots[ti];
            proof {
                assert(world.slots@[ti as int].alive ==> comps_in_range(
                    world.slots@[ti as int].comps,
                ));
            }
            if o.alive && !o.comps.worker && o.comps.pos.is_some() && o.comps.radius.is_some() {
                let q = o.comps.pos.unwrap();
                let dx = q.x - p.x;
                let dy = q.y - p.y;
                proof {
                    assert(0 <= dx * dx <= 4_000_000_000_000_000_000 && 0 <= dy * dy
                        <= 4_000_000_000_000_000_000 && 0 <= dx * dx + dy * dy
                        <= 8_000_000_000_000_000_000) by (nonlinear_arith)
                        requires
                            -2_000_000_000 <= dx <= 2_000_000_000,
                            -2_000_000_000 <= dy <= 2_000_000_000,
                    ;
                }
                let sq = dx * dx + dy * dy;
                let dist64 = crate::math::isqrt(sq as u64);
                proof {
                    assert(dist64 * dist64 <= sq as u64 ==> dist64 <= 3_000_000_000u64)
                        by (nonlinear_arith)
                        requires
                            sq as u64 <= 8_000_000_000_000_000_000u64,
                    ;
                }
                let dist = dist64 as i64;
                let range = match s.comps.attack_range {
                    Some(ar) => ar,
                    None => 0,
                };
                if dist > range && dist > 0 {
                    proof {
                        assert(-0x7FFF_FFFF_FFFF_FFFF <= dx * 80_000 <= 0x7FFF_FFFF_FFFF_FFFF
                            && -0x7FFF_FFFF_FFFF_FFFF <= dy * 80_000 <= 0x7FFF_FFFF_FFFF_FFFF)
                            by (nonlinear_arith)
                            requires
                                -2_000_000_000 <= dx <= 2_000_000_000,
                                -2_000_000_000 <= dy <= 2_000_000_000,
                        ;
                        let adx: int = if dx >= 0 {
                            dx as int
                        } else {
                            -(dx as int)
                        };
                        let ady: int = if dy >= 0 {
                            dy as int
                        } else {
                            -(dy as int)
                        };
                        assert(adx * adx == dx * dx && ady * ady == dy * dy) by (nonlinear_arith)
                            requires
                                (dx >= 0 && adx == dx) || (dx < 0 && adx == -(dx as int)),
                                (dy >= 0 && ady == dy) || (dy < 0 && ady == -(dy as int)),
                        ;
                        crate::math::lemma_sqrt_ge(adx, (sq as u64) as nat);
                        crate::math::lemma_sqrt_ge(ady, (sq as u64) as nat);
                        crate::math::lemma_muldiv_ratio_bound(dx as int, 80_000, dist as int);
                        crate::math::lemma_muldiv_ratio_bound(dy as int, 80_000, dist as int);
                    }
                    kx = crate::math::mul_div(dx, SPEED, dist);
                    ky = crate::math::mul_div(dy, SPEED, dist);
                } else if dist <= range {
                    marker = true;
                }
            }
        }
    }
    (kx, ky, marker)
}

/// The summed separation force on one physical entity.
#[verifier::loop_isolation(false)]
#[verifier::rlimit(60)]
fn entity_separation(world: &World, i: usize) -> (r: (i64, i64))
    requires
        world_in_range(world.slots@),
        i < world.slots@.len(),
        phys(world.slots@[i as int]),
    ensures
        (r.0 as int, r.1 as int) == sep_sum(world.slots@, i as int, world.slots@.len() as int),
        -80_000 * world.slots@.len() <= r.0 <= 80_000 * world.slots@.len(),
        -80_000 * world.slots@.len() <= r.1 <= 80_000 * world.slots@.len(),
{
    let s = world.slots[i];
    proof {
        assert(comps_in_range(world.slots@[i as int].comps));
    }
    let p = s.comps.pos.unwrap();
    let r_i = s.comps.radius.unwrap();
    let n = world.slots.len();
    let mut sx: i64 = 0;
    let mut sy: i64 = 0;
    let mut j: usize = 0;
    while j < n
        invariant
            j <= n,
            (sx as int, sy as int) == sep_sum(world.slots@, i as int, j as int),
            -80_000 * j <= sx <= 80_000 * j,
            -80_000 * j <= sy <= 80_000 * j,
        decreases n - j,
    {
        let o = world.slots[j];
        proof {
            assert(world.slots@[j as int].alive ==> comps_in_range(world.slots@[j as int].comps));
        }
        if j != i && o.alive && !o.comps.worker && o.comps.pos.is_some() && o.comps.radius.is_some()
        {
            let q = o.comps.pos.unwrap();
            let r_j = o.comps.radius.unwrap();
            let dx = p.x - q.x;
            let dy = p.y - q.y;
            proof {
                assert(0 <= dx * dx <= 4_000_000_000_000_000_000 && 0 <= dy * dy
                    <= 4_000_000_000_000_000_000 && 0 <= dx * dx + dy * dy
                    <= 8_000_000_000_000_000_000) by (nonlinear_arith)
                    requires
                        -2_000_000_000 <= dx <= 2_000_000_000,
                        -2_000_000_000 <= dy <= 2_000_000_000,
                ;
            }
            let sq = dx * dx + dy * dy;
            let dist64 = crate::math::isqrt(sq as u64);
            proof {
                assert(dist64 * dist64 <= sq as u64 ==> dist64 <= 3_000_000_000u64)
                    by (nonlinear_arith)
                    requires
                        sq as u64 <= 8_000_000_000_000_000_000u64,
                ;
            }
            let dist = dist64 as i64;
            let min_dist = r_i + r_j;
            if dist < min_dist {
                if dist > 0 {
                    proof {
                        assert(-0x7FFF_FFFF_FFFF_FFFF <= dx * 80_000 <= 0x7FFF_FFFF_FFFF_FFFF
                            && -0x7FFF_FFFF_FFFF_FFFF <= dy * 80_000 <= 0x7FFF_FFFF_FFFF_FFFF)
                            by (nonlinear_arith)
                            requires
                                -2_000_000_000 <= dx <= 2_000_000_000,
                                -2_000_000_000 <= dy <= 2_000_000_000,
                        ;
                        let adx: int = if dx >= 0 {
                            dx as int
                        } else {
                            -(dx as int)
                        };
                        let ady: int = if dy >= 0 {
                            dy as int
                        } else {
                            -(dy as int)
                        };
                        assert(adx * adx == dx * dx && ady * ady == dy * dy) by (nonlinear_arith)
                            requires
                                (dx >= 0 && adx == dx) || (dx < 0 && adx == -(dx as int)),
                                (dy >= 0 && ady == dy) || (dy < 0 && ady == -(dy as int)),
                        ;
                        crate::math::lemma_sqrt_ge(adx, (sq as u64) as nat);
                        crate::math::lemma_sqrt_ge(ady, (sq as u64) as nat);
                        crate::math::lemma_muldiv_ratio_bound(dx as int, 80_000, dist as int);
                        crate::math::lemma_muldiv_ratio_bound(dy as int, 80_000, dist as int);
                    }
                    let tx = crate::math::mul_div(dx, SPEED, dist);
                    let ty = crate::math::mul_div(dy, SPEED, dist);
                    sx = sx + tx;
                    sy = sy + ty;
                } else {
                    let k = i % 8;
                    let (px, py): (i64, i64) = if k == 0 {
                        (80_000, 0)
                    } else if k == 1 {
                        (56_560, 56_560)
                    } else if k == 2 {
                        (0, 80_000)
                    } else if k == 3 {
                        (-56_560, 56_560)
                    } else if k == 4 {
                        (-80_000, 0)
                    } else if k == 5 {
                        (-56_560, -56_560)
                    } else if k == 6 {
                        (0, -80_000)
                    } else {
                        (56_560, -56_560)
                    };
                    sx = sx + px;
                    sy = sy + py;
                }
            }
        }
        j = j + 1;
    }
    (sx, sy)
}

/// Moves every live non-worker with a position and radius by the sum
/// of its seek force (toward its target until in attack range) and its
/// separation forces (away from overlapping neighbours), clamps the
/// result into its board and the world height, and marks exactly the
/// entities whose target is within attack range. Workers and
/// everything else are untouched.
#[verifier::loop_isolation(false)]
#[verifier::rlimit(100)]
pub fn update_combat_movement(world: &mut World, tick_delta: i64)
    requires
        world_in_range(old(world).slots@),
        0 <= tick_delta <= MAX_DT,
    ensures
        final(world).slots@.len() == old(world).slots@.len(),
        forall|i: int|
            0 <= i < old(world).slots@.len() ==> final(world).slots@[i] == movement_slot_after(
                old(world).slots@,
                i,
                tick_delta as int,
            ) && (#[trigger] old(world).slots@[i]) == old(world).slots@[i],
        world_in_range(final(world).slots@),
        // An entity that started inside its board's bounds is still
        // inside them afterwards.
        forall|i: int|
            0 <= i < old(world).slots@.len() && phys(#[trigger] old(world).slots@[i]) ==> {
                let r = old(world).slots@[i].comps.radius->Some_0 as int;
                let po = old(world).slots@[i].comps.pos->Some_0;
                let pn = final(world).slots@[i].comps.pos->Some_0;
                let home_x: int = if old(world).slots@[i].comps.home is Some {
                    old(world).slots@[i].comps.home->Some_0.x as int
                } else {
                    0
                };
                &&& (r <= po.y <= TOTAL_HEIGHT - r ==> r <= pn.y <= TOTAL_HEIGHT - r)
                &&& (home_x < LEFT_BOARD_END && r <= po.x <= LEFT_BOARD_END - r ==> r <= pn.x
                    <= LEFT_BOARD_END - r)
                &&& (home_x >= LEFT_BOARD_END && RIGHT_BOARD_START + r <= po.x <= RIGHT_BOARD_END
                    - r ==> RIGHT_BOARD_START + r <= pn.x <= RIGHT_BOARD_END - r)
            },
{
    let n = world.slots.len();
    let ghost slots0 = old(world).slots@;

    // First pass, read-only: the velocity and in-range marker of every
    // physical entity.
    let mut moves: Vec<Option<(i64, i64, bool)>> = Vec::new();
    let mut i: usize = 0;
    while i < n
        invariant
            i <= n,
            world.slots@ == slots0,
            moves@.len() == i,
            forall|j: int|
                0 <= j < i ==> #[trigger] moves@[j] == (if phys(slots0[j]) {
                    let v = velocity_of(slots0, j);
                    Some((v.0 as i64, v.1 as i64, v.2))
                } else {
                    None::<(i64, i64, bool)>
                }),
            forall|j: int|
                0 <= j < i && moves@[j] is Some ==> {
                    let m = (#[trigger] moves@[j])->Some_0;
                    &&& -80_000 * (n + 1) <= m.0 <= 80_000 * (n + 1)
                    &&& -80_000 * (n + 1) <= m.1 <= 80_000 * (n + 1)
                    &&& m.0 as int == velocity_of(slots0, j).0
                    &&& m.1 as int == velocity_of(slots0, j).1
                },
        decreases n - i,
    {
        let s = world.slots[i];
        if s.alive && !s.comps.worker && s.comps.pos.is_some() && s.comps.radius.is_some() {
            let sk = entity_seek(world, i);
            let sp = entity_separation(world, i);
            let vx = sk.0 + sp.0;
            let vy = sk.1 + sp.1;
            proof {
                assert((vx as int, vy as int, sk.2) == velocity_of(slots0, i as int));
            }
            moves.push(Some((vx, vy, sk.2)));
        } else {
            moves.push(None);
        }
        i = i + 1;
    }

    // Second pass: apply each displacement, clamped to the entity's
    // board, and write the in-range markers.
    let mut i: usize = 0;
    while i < n
        invariant
            i <= n,
            world.slots@.len() == n,
            moves@.len() == n,
            forall|j: int|
                0 <= j < n ==> #[trigger] moves@[j] == (if phys(slots0[j]) {
                    let v = velocity_of(slots0, j);
                    Some((v.0 as i64, v.1 as i64, v.2))
                } else {
                    None::<(i64, i64, bool)>
                }),
            forall|j: int|
                0 <= j < n && moves@[j] is Some ==> {
                    let m = (#[trigger] moves@[j])->Some_0;
                    &&& -80_000 * (n + 1) <= m.0 <= 80_000 * (n + 1)
                    &&& -80_000 * (n + 1) <= m.1 <= 80_000 * (n + 1)
                    &&& m.0 as int == velocity_of(slots0, j).0
                    &&& m.1 as int == velocity_of(slots0, j).1
                },
            forall|j: int|
                0 <= j < i ==> world.slots@[j] == movement_slot_after(
                    slots0,
                    j,
                    tick_delta as int,
                ) && (#[trigger] slots0[j]) == slots0[j],
            forall|j: int| i <= j < n ==> world.slots@[j] == slots0[j],
        decreases n - i,
    {
        if let Some((vx, vy, marker)) = moves[i] {
            let s = world.slots[i];
            proof {
                assert(world.slots@[i as int] == slots0[i as int]);
                assert(slots0[i as int].alive ==> comps_in_range(slots0[i as int].comps));
            }
            if vx != 0 || vy != 0 {
                let p = s.comps.pos.unwrap();
                let r = s.comps.radius.unwrap();
                proof {
                    assert(-810_000_000_000_000 <= vx * tick_delta <= 810_000_000_000_000
                        && -810_000_000_000_000 <= vy * tick_delta <= 810_000_000_000_000)
                        by (nonlinear_arith)
                        requires
                            -80_000 * (n + 1) <= vx <= 80_000 * (n + 1),
                            -80_000 * (n + 1) <= vy <= 80_000 * (n + 1),
                            n <= 1_000_000,
                            0 <= tick_delta <= 10_000,
                    ;
                    crate::math::lemma_muldiv_bound(
                        vx as int,
                        tick_delta as int,
                        1000,
                        810_000_000_000_000,
                    );
                    crate::math::lemma_muldiv_bound(
                        vy as int,
                        tick_delta as int,
                        1000,
                        810_000_000_000_000,
                    );
                }
                let dxd = crate::math::mul_div(vx, tick_delta, 1000);
                let dyd = crate::math::mul_div(vy, tick_delta, 1000);
                let x1 = p.x + dxd;
                let y1 = crate::math::clamp64(p.y + dyd, r, TOTAL_HEIGHT - r);
                let home_x = match s.comps.home {
                    Some(h) => h.x,
                    None => 0,
                };
                let x2 = if home_x < LEFT_BOARD_END {
                    crate::math::clamp64(x1, r, LEFT_BOARD_END - r)
                } else {
                    crate::math::clamp64(x1, RIGHT_BOARD_START + r, RIGHT_BOARD_END - r)
                };
                world.slots[i].comps.pos = Some(Position { x: x2, y: y1 });
            }
            world.slots[i].comps.in_attack_range = marker;
            proof {
                assert(world.slots@[i as int] == movement_slot_after(
                    slots0,
                    i as int,
                    tick_delta as int,
                ));
            }
        }
        i = i + 1;
    }

    proof {
        assert forall|k: int|
            0 <= k < world.slots@.len() && (#[trigger] world.slots@[k]).alive implies comps_in_range(
            world.slots@[k].comps,
        ) by {
            assert(slots0[k].alive ==> comps_in_range(slots0[k].comps));
        }
    }
}

} // verus!
