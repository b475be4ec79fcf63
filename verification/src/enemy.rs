//! Enemy bookkeeping: where each enemy stands, how the wave grows, and
//! which enemies a frame should add.

use crate::dice::gen_range_inclusive;
use rand::rngs::ThreadRng;
use crate::globals::{Hsl, Kulay};
use crate::player::KillCount;
use std::collections::HashMap;
use vstd::prelude::*;

verus! {

broadcast use vstd::std_specs::hash::group_hash_axioms;

/// Up to this enemy count a kill level still grows the wave.
pub const ENEMY_SPAWN_LIMIT: usize = 10;

/// The kill counts at which the wave grows by one enemy.
pub const KILL_LEVELS: [usize; 9] = [5, 10, 50, 100, 150, 250, 300, 350, 400];

/// Leftmost column of the spawn grid.
pub const GRID_X_MIN: i32 = -9;

/// Rightmost column of the spawn grid.
pub const GRID_X_MAX: i32 = 9;

/// Lowest row of the spawn grid.
pub const GRID_Y_MIN: i32 = 3;

/// Highest row of the spawn grid.
pub const GRID_Y_MAX: i32 = 6;

/// How many cells the spawn grid has.
pub const GRID_CELLS: usize = 76;

/// How many cells one frame may draw while it looks for free ones. A frame
/// that runs out takes the cells it still needs from the grid in order.
pub const SPAWN_ATTEMPT_LIMIT: usize = 1_000;

/// A cell of the spawn grid.
#[derive(Debug, Clone, Copy, PartialEq, Eq, Structural)]
pub struct EnemyPos {
    pub x: i32,
    pub y: i32,
}

/// The enemies alive, by entity, and the size the wave should have.
#[derive(Debug)]
pub struct EnemyState {
    /// The cell of each living enemy, keyed by the bits of its entity.
    pub pos: HashMap<u64, EnemyPos>,
    /// How many cells the wave should fill.
    pub enemy_count: usize,
    /// Set once the current kill level has grown the wave, so that it
    /// grows only once per level.
    pub enemy_count_updated: bool,
}

/// An enemy to create: its cell, its colour and its strafing speed.
#[derive(Debug, Clone, Copy, PartialEq, Eq, Structural)]
pub struct EnemySpawn {
    pub pos: EnemyPos,
    pub color: Kulay,
    pub ms: i32,
}

/// An `EnemyState` as plain mathematics.
#[verifier::ext_equal]
pub struct Wave {
    pub pos: Map<u64, EnemyPos>,
    pub enemy_count: usize,
    pub enemy_count_updated: bool,
}

impl View for EnemyState {
    type V = Wave;

    open spec fn view(&self) -> Wave {
        Wave {
            pos: self.pos@,
            enemy_count: self.enemy_count,
            enemy_count_updated: self.enemy_count_updated,
        }
    }
}

/// Whether `cell` lies on the spawn grid.
pub open spec fn in_grid(cell: EnemyPos) -> bool {
    GRID_X_MIN <= cell.x <= GRID_X_MAX && GRID_Y_MIN <= cell.y <= GRID_Y_MAX
}

/// The cells of the spawn grid.
pub open spec fn grid() -> Set<EnemyPos> {
    Set::new(|cell: EnemyPos| in_grid(cell))
}

/// Whether `kills` is one of the kill levels.
pub open spec fn is_kill_level(kills: usize) -> bool {
    KILL_LEVELS@.contains(kills)
}

/// The speed band of a wave of `enemy_count` enemies.
pub open spec fn ms_allowed(enemy_count: usize, ms: i32) -> bool {
    if 5 <= enemy_count <= 8 {
        ms == 10
    } else if 9 <= enemy_count <= 10 {
        10 <= ms <= 12
    } else {
        7 <= ms <= 9
    }
}

/// The cells of a list of spawns, in order.
pub open spec fn spawn_cells(spawns: Seq<EnemySpawn>) -> Seq<EnemyPos> {
    spawns.map_values(|s: EnemySpawn| s.pos)
}

/// Whether a new enemy stands on the grid and moves at a speed that a wave
/// of `target` enemies allows.
pub open spec fn fits_wave(target: usize, spawn: EnemySpawn) -> bool {
    in_grid(spawn.pos) && ms_allowed(target, spawn.ms)
}

/// Whether every cell of the grid is among `taken` or gets one of `spawns`.
pub open spec fn grid_is_full(taken: Set<EnemyPos>, spawns: Seq<EnemySpawn>) -> bool {
    forall|cell: EnemyPos| #[trigger]
        in_grid(cell) ==> taken.contains(cell) || spawn_cells(spawns).contains(cell)
}

/// What holds of the enemies a frame adds, whatever the dice gave.
///
/// They stand on distinct grid cells that no living enemy holds and move
/// at a speed the wave allows. A field that has reached the wave gets
/// none. Otherwise they bring the occupied cells up to `target`: always
/// where the wave is no larger than the grid, and else unless the grid
/// runs out, in which case they take every cell that was left.
pub open spec fn fills_wave(taken: Set<EnemyPos>, target: usize, spawns: Seq<EnemySpawn>) -> bool {
    &&& spawn_cells(spawns).no_duplicates()
    &&& forall|i: int|
        0 <= i < spawns.len() ==> {
            &&& fits_wave(target, #[trigger] spawns[i])
            &&& !taken.contains(spawns[i].pos)
        }
    &&& if taken.len() >= target {
        spawns.len() == 0
    } else {
        ||| taken.len() + spawns.len() == target
        ||| taken.len() + spawns.len() < target && GRID_CELLS < target && grid_is_full(
            taken,
            spawns,
        )
    }
}

/// The entities that get despawned when each of `hits` is eliminated in
/// turn: those that `known` holds, once each, where they first appear.
pub open spec fn despawned(known: Set<u64>, hits: Seq<u64>) -> Seq<u64>
    decreases hits.len(),
{
    if hits.len() == 0 {
        Seq::empty()
    } else {
        let earlier = hits.drop_last();
        let entity = hits.last();
        if known.contains(entity) && !earlier.contains(entity) {
            despawned(known, earlier).push(entity)
        } else {
            despawned(known, earlier)
        }
    }
}

impl Wave {
    /// The state a round starts from: no enemy yet, a wave of one.
    pub open spec fn start() -> Wave {
        Wave { pos: Map::empty(), enemy_count: 1, enemy_count_updated: false }
    }

    /// The cells on which an enemy stands.
    pub open spec fn occupied(self) -> Set<EnemyPos> {
        self.pos.values()
    }

    /// Whether no two enemies stand on the same cell.
    pub open spec fn apart(self) -> bool {
        self.pos.is_injective()
    }

    /// The state after a frame that saw `kills` kills.
    ///
    /// On a kill level the wave grows by one, once, as long as it has not
    /// passed the spawn limit. Off a level the latch is released.
    pub open spec fn grown(self, kills: usize) -> Wave {
        if is_kill_level(kills) {
            if self.enemy_count <= ENEMY_SPAWN_LIMIT && !self.enemy_count_updated {
                Wave {
                    enemy_count: (self.enemy_count + 1) as usize,
                    enemy_count_updated: true,
                    ..self
                }
            } else {
                self
            }
        } else {
            Wave { enemy_count_updated: false, ..self }
        }
    }

    /// The state with `entity` recorded on `cell`.
    pub open spec fn with(self, entity: u64, cell: EnemyPos) -> Wave {
        Wave { pos: self.pos.insert(entity, cell), ..self }
    }

    /// The state with `entity` forgotten.
    pub open spec fn without(self, entity: u64) -> Wave {
        Wave { pos: self.pos.remove(entity), ..self }
    }

    /// The state with all of `entities` forgotten.
    pub open spec fn without_all(self, entities: Set<u64>) -> Wave {
        Wave { pos: self.pos.remove_keys(entities), ..self }
    }

    /// The state once each of `spawns` has been created and recorded under
    /// the entity of the same index in `entities`.
    pub open spec fn recorded(self, entities: Seq<u64>, spawns: Seq<EnemySpawn>) -> Wave
        decreases spawns.len(),
    {
        if spawns.len() == 0 || entities.len() == 0 {
            self
        } else {
            self.recorded(entities.drop_last(), spawns.drop_last()).with(
                entities.last(),
                spawns.last().pos,
            )
        }
    }
}

/// The cells of the grid in the first `n` columns.
spec fn grid_columns(n: int) -> Set<EnemyPos> {
    Set::new(|cell: EnemyPos| in_grid(cell) && cell.x < GRID_X_MIN + n)
}

proof fn lemma_grid_columns(n: int)
    requires
        0 <= n <= GRID_X_MAX - GRID_X_MIN + 1,
    ensures
        grid_columns(n).finite(),
        grid_columns(n).len() == 4 * n,
    decreases n,
{
    if n == 0 {
        assert(grid_columns(0) =~= Set::<EnemyPos>::empty());
    } else {
        lemma_grid_columns(n - 1);
        let x = (GRID_X_MIN + n - 1) as i32;
        let with_one = grid_columns(n - 1).insert(EnemyPos { x, y: 3 });
        let with_two = with_one.insert(EnemyPos { x, y: 4 });
        let with_three = with_two.insert(EnemyPos { x, y: 5 });
        assert(grid_columns(n) =~= with_three.insert(EnemyPos { x, y: 6 }));
    }
}

/// The grid has `GRID_CELLS` cells.
pub proof fn lemma_grid_size()
    ensures
        grid().finite(),
        grid().len() == GRID_CELLS,
{
    lemma_grid_columns(GRID_X_MAX - GRID_X_MIN + 1);
    assert(grid() =~= grid_columns(GRID_X_MAX - GRID_X_MIN + 1));
}

/// A wave grows by at most one enemy per frame, never shrinks, does not
/// grow past one more than the spawn limit, and a second frame on the same
/// kill count leaves it as the first one did. No frame moves an enemy.
pub proof fn lemma_wave_grows_once(wave: Wave, kills: usize)
    ensures
        wave.grown(kills).pos == wave.pos,
        wave.enemy_count <= wave.grown(kills).enemy_count <= wave.enemy_count + 1,
        wave.enemy_count <= ENEMY_SPAWN_LIMIT + 1 ==> wave.grown(kills).enemy_count
            <= ENEMY_SPAWN_LIMIT + 1,
        wave.grown(kills).enemy_count != wave.enemy_count ==> is_kill_level(kills)
            && !wave.enemy_count_updated && wave.grown(kills).enemy_count_updated,
        wave.grown(kills).grown(kills) == wave.grown(kills),
{
}

/// Eliminating a list of entities despawns each known one among them
/// exactly once.
pub proof fn lemma_despawned_once(known: Set<u64>, hits: Seq<u64>)
    ensures
        despawned(known, hits).no_duplicates(),
        despawned(known, hits).to_set() == hits.to_set().intersect(known),
    decreases hits.len(),
{
    broadcast use Seq::lemma_push_to_set_commute;

    if hits.len() == 0 {
        assert(despawned(known, hits).to_set() =~= hits.to_set().intersect(known));
    } else {
        let earlier = hits.drop_last();
        let entity = hits.last();
        lemma_despawned_once(known, earlier);
        assert(hits =~= earlier.push(entity));
        assert(hits.to_set() =~= earlier.to_set().insert(entity));
        let rest = despawned(known, earlier);
        if known.contains(entity) && !earlier.contains(entity) {
            assert(!rest.to_set().contains(entity));
            assert(!rest.contains(entity));
            assert(rest.push(entity).to_set() =~= hits.to_set().intersect(known));
        } else {
            assert(rest.to_set() =~= hits.to_set().intersect(known));
        }
    }
}

/// Where every entity of the list is known and none is listed twice, as
/// in a pass over the living enemies, all of them are despawned, in order.
pub proof fn lemma_despawned_all(known: Set<u64>, hits: Seq<u64>)
    requires
        hits.no_duplicates(),
        forall|i: int| 0 <= i < hits.len() ==> known.contains(#[trigger] hits[i]),
    ensures
        despawned(known, hits) == hits,
    decreases hits.len(),
{
    if hits.len() == 0 {
        assert(hits =~= Seq::<u64>::empty());
    } else {
        let earlier = hits.drop_last();
        lemma_despawned_all(known, earlier);
        assert(!earlier.contains(hits.last()));
        assert(hits =~= earlier.push(hits.last()));
    }
}

proof fn lemma_recorded(wave: Wave, entities: Seq<u64>, spawns: Seq<EnemySpawn>)
    requires
        wave.pos.dom().finite(),
        entities.len() == spawns.len(),
        entities.no_duplicates(),
        forall|i: int| 0 <= i < entities.len() ==> !wave.pos.contains_key(#[trigger] entities[i]),
        spawn_cells(spawns).no_duplicates(),
        forall|i: int|
            0 <= i < spawns.len() ==> !wave.occupied().contains((#[trigger] spawns[i]).pos),
    ensures
        wave.recorded(entities, spawns).enemy_count == wave.enemy_count,
        wave.recorded(entities, spawns).enemy_count_updated == wave.enemy_count_updated,
        wave.recorded(entities, spawns).pos.dom() == wave.pos.dom().union(entities.to_set()),
        wave.recorded(entities, spawns).pos.dom().finite(),
        wave.recorded(entities, spawns).occupied() == wave.occupied().union(
            spawn_cells(spawns).to_set(),
        ),
        wave.recorded(entities, spawns).occupied().finite(),
        wave.recorded(entities, spawns).occupied().len() == wave.occupied().len() + spawns.len(),
        wave.apart() ==> wave.recorded(entities, spawns).apart(),
    decreases spawns.len(),
{
    broadcast use Seq::lemma_push_to_set_commute;

    vstd::map_lib::lemma_values_finite(wave.pos);
    if spawns.len() == 0 {
        assert(entities.to_set() =~= Set::<u64>::empty());
        assert(spawn_cells(spawns).to_set() =~= Set::<EnemyPos>::empty());
        assert(wave.pos.dom().union(entities.to_set()) =~= wave.pos.dom());
        assert(wave.occupied().union(spawn_cells(spawns).to_set()) =~= wave.occupied());
    } else {
        let entity = entities.last();
        let cell = spawns.last().pos;
        let ids = entities.drop_last();
        let fewer = spawns.drop_last();
        let cells = spawn_cells(spawns);
        assert(spawn_cells(fewer) =~= cells.drop_last());
        assert(cells.last() == cell);
        assert forall|i: int| 0 <= i < fewer.len() implies !wave.occupied().contains(
            (#[trigger] fewer[i]).pos,
        ) by {
            assert(fewer[i] == spawns[i]);
        }
        assert forall|i: int| 0 <= i < ids.len() implies !wave.pos.contains_key(
            #[trigger] ids[i],
        ) by {
            assert(ids[i] == entities[i]);
        }
        lemma_recorded(wave, ids, fewer);
        let before = wave.recorded(ids, fewer);
        let after = before.with(entity, cell);
        assert(after == wave.recorded(entities, spawns));
        assert(entities =~= ids.push(entity));
        assert(cells =~= spawn_cells(fewer).push(cell));
        assert(!ids.contains(entity));
        assert(!spawn_cells(fewer).contains(cell));
        assert(!before.pos.contains_key(entity));
        assert(!before.occupied().contains(cell)) by {
            assert(spawns[spawns.len() - 1].pos == cell);
        }
        assert(after.pos.dom() =~= wave.pos.dom().union(entities.to_set()));
        assert(after.occupied() =~= before.occupied().insert(cell)) by {
            assert forall|c: EnemyPos| after.occupied().contains(c) implies before.occupied().insert(
                cell,
            ).contains(c) by {
                let k = choose|k: u64| after.pos.contains_key(k) && after.pos[k] == c;
                if k != entity {
                    assert(before.pos.contains_key(k) && before.pos[k] == c);
                }
            }
            assert forall|c: EnemyPos| before.occupied().insert(cell).contains(
                c,
            ) implies after.occupied().contains(c) by {
                if c == cell {
                    assert(after.pos.contains_key(entity) && after.pos[entity] == c);
                } else {
                    let k = choose|k: u64| before.pos.contains_key(k) && before.pos[k] == c;
                    assert(after.pos.contains_key(k) && after.pos[k] == c);
                }
            }
        }
        assert(after.occupied() =~= wave.occupied().union(cells.to_set()));
        if wave.apart() {
            assert forall|x: u64, y: u64|
                x != y && after.pos.dom().contains(x) && after.pos.dom().contains(
                    y,
                ) implies #[trigger] after.pos[x] != #[trigger] after.pos[y] by {
                if x == entity {
                    assert(before.pos.contains_key(y));
                    assert(before.occupied().contains(before.pos[y]));
                } else if y == entity {
                    assert(before.pos.contains_key(x));
                    assert(before.occupied().contains(before.pos[x]));
                } else {
                    assert(before.pos.contains_key(x) && before.pos.contains_key(y));
                }
            }
        }
    }
}

/// Recording the enemies that a frame adds, each under an entity of its
/// own, keeps all enemies on cells of their own and adds one occupied cell
/// per new enemy. A field that had reached the wave stays as it was. One
/// that had not is brought up to the wave, if the wave is no larger than
/// the grid, and never past it.
pub proof fn lemma_spawns_keep_enemies_apart(
    wave: Wave,
    entities: Seq<u64>,
    spawns: Seq<EnemySpawn>,
)
    requires
        wave.pos.dom().finite(),
        wave.apart(),
        fills_wave(wave.occupied(), wave.enemy_count, spawns),
        entities.len() == spawns.len(),
        entities.no_duplicates(),
        forall|i: int| 0 <= i < entities.len() ==> !wave.pos.contains_key(#[trigger] entities[i]),
    ensures
        wave.recorded(entities, spawns).apart(),
        wave.recorded(entities, spawns).occupied().len() == wave.occupied().len() + spawns.len(),
        wave.occupied().len() >= wave.enemy_count ==> wave.recorded(entities, spawns) == wave,
        wave.occupied().len() <= wave.enemy_count ==> wave.recorded(
            entities,
            spawns,
        ).occupied().len() <= wave.enemy_count,
        wave.occupied().len() <= wave.enemy_count <= GRID_CELLS ==> wave.recorded(
            entities,
            spawns,
        ).occupied().len() == wave.enemy_count,
{
    lemma_recorded(wave, entities, spawns);
}

impl Default for EnemyState {
    /// The state a round starts from: no enemy yet, a wave of one.
    fn default() -> (state: Self)
        ensures
            state@ == Wave::start(),
    {
        EnemyState { pos: HashMap::new(), enemy_count: 1, enemy_count_updated: false }
    }
}

/// Whether the player's kill count stands on a kill level.
pub fn is_kill_count_level(kills: usize) -> (level: bool)
    ensures
        level == is_kill_level(kills),
{
    let mut i: usize = 0;
    while i < 9
        invariant
            i <= 9,
            forall|j: int| 0 <= j < i ==> KILL_LEVELS@[j] != kills,
        decreases 9 - i,
    {
        if KILL_LEVELS[i] == kills {
            return true;
        }
        i += 1;
    }
    false
}

/// Grows the wave when the player reaches a kill level.
pub fn update_enemy_count(enemy_state: &mut EnemyState, kills: usize)
    ensures
        final(enemy_state)@ == old(enemy_state)@.grown(kills),
{
    let is_kill_count_level = is_kill_count_level(kills);
    let can_update_enemy_count = enemy_state.enemy_count <= ENEMY_SPAWN_LIMIT
        && !enemy_state.enemy_count_updated;

    if !is_kill_count_level && enemy_state.enemy_count_updated {
        enemy_state.enemy_count_updated = false;
    }
    if is_kill_count_level && can_update_enemy_count {
        enemy_state.enemy_count += 1;
        enemy_state.enemy_count_updated = true;
    }
}

/// Adds `cell` to `cells` unless it is already there, and says whether it
/// was new.
pub fn claim(cells: &mut Vec<EnemyPos>, cell: EnemyPos) -> (fresh: bool)
    ensures
        fresh == !old(cells)@.contains(cell),
        final(cells)@ == if fresh {
            old(cells)@.push(cell)
        } else {
            old(cells)@
        },
{
    let mut i: usize = 0;
    while i < cells.len()
        invariant
            i <= cells.len(),
            cells@ == old(cells)@,
            forall|j: int| 0 <= j < i ==> cells@[j] != cell,
        decreases cells.len() - i,
    {
        if cells[i] == cell {
            return false;
        }
        i += 1;
    }
    cells.push(cell);
    true
}

/// The cells on which an enemy stands, each listed once.
pub fn occupied_cells(enemy_state: &EnemyState) -> (cells: Vec<EnemyPos>)
    ensures
        cells@.no_duplicates(),
        cells@.to_set() == enemy_state@.occupied(),
        cells@.len() == enemy_state@.occupied().len(),
{
    let mut cells: Vec<EnemyPos> = Vec::new();
    for p in it: enemy_state.pos.values()
        invariant
            cells@.no_duplicates(),
            it.seq().unref().to_set() == enemy_state.pos@.values(),
            cells@.to_set() == it.seq().unref().take(it.index()).to_set(),
            it.index() == it.seq().len() ==> cells@.to_set() == enemy_state.pos@.values(),
    {
        let ghost before = cells@;
        let ghost k = it.index();
        let fresh = claim(&mut cells, *p);
        proof {
            broadcast use Seq::lemma_push_to_set_commute;

            let all = it.seq().unref();
            assert(all[k] == *p);
            assert(all.take(k + 1) =~= all.take(k).push(*p));
            assert(fresh || before.to_set().insert(*p) =~= before.to_set());
            assert(k + 1 == all.len() ==> all.take(k + 1) =~= all);
        }
    }
    proof {
        cells@.unique_seq_to_set();
    }
    cells
}

/// The colour that a roll of the two-sided die stands for.
pub fn color_for_roll(roll: i32) -> (color: Kulay)
    ensures
        color == if roll == 0 {
            Kulay::Pula
        } else {
            Kulay::Asul
        },
{
    if roll == 0 {
        Kulay::Pula
    } else {
        Kulay::Asul
    }
}

/// The colour an enemy is painted in.
pub fn enemy_paint(color: Kulay) -> (paint: Hsl)
    ensures
        paint == match color {
            Kulay::Pula => (Hsl { hue: 0, saturation: 50, lightness: 50 }),
            Kulay::Asul => (Hsl { hue: 240, saturation: 80, lightness: 50 }),
        },
{
    match color {
        Kulay::Pula => Hsl { hue: 0, saturation: 50, lightness: 50 },
        Kulay::Asul => Hsl { hue: 240, saturation: 80, lightness: 50 },
    }
}

/// Picks the strafing speed of a new enemy: faster as the wave grows.
pub fn pick_ms(enemy_count: usize) -> (ms: i32)
    ensures
        ms_allowed(enemy_count, ms),
{
    let mut rng = rand::thread_rng();
    match enemy_count {
        5 | 6 => 10,
        7 | 8 => gen_range_inclusive(&mut rng, 10, 10),
        9 | 10 => gen_range_inclusive(&mut rng, 10, 12),
        _ => gen_range_inclusive(&mut rng, 7, 9),
    }
}

/// Forgets `enemy_entity`, and says whether it was known and so has to
/// be despawned.
pub fn eliminate_enemy(enemy_entity: u64, enemy_state: &mut EnemyState) -> (despawn: bool)
    ensures
        despawn == old(enemy_state)@.pos.contains_key(enemy_entity),
        final(enemy_state)@ == old(enemy_state)@.without(enemy_entity),
{
    enemy_state.pos.remove(&enemy_entity).is_some()
}

/// Records that `entity` was created on `cell`.
pub fn record_enemy(enemy_state: &mut EnemyState, entity: u64, cell: EnemyPos)
    ensures
        final(enemy_state)@ == old(enemy_state)@.with(entity, cell),
{
    enemy_state.pos.insert(entity, cell);
}

/// Eliminates each of `hits` in turn and lists the entities to despawn.
pub fn eliminate_all(hits: &Vec<u64>, enemy_state: &mut EnemyState) -> (despawn: Vec<u64>)
    ensures
        despawn@ == despawned(old(enemy_state)@.pos.dom(), hits@),
        final(enemy_state)@ == old(enemy_state)@.without_all(hits@.to_set()),
{
    let mut despawn: Vec<u64> = Vec::new();
    let mut i: usize = 0;
    while i < hits.len()
        invariant
            i <= hits.len(),
            despawn@ == despawned(old(enemy_state)@.pos.dom(), hits@.take(i as int)),
            enemy_state@ == old(enemy_state)@.without_all(hits@.take(i as int).to_set()),
        decreases hits.len() - i,
    {
        let entity = hits[i];
        proof {
            broadcast use Seq::lemma_push_to_set_commute;

            let earlier = hits@.take(i as int);
            let upto = hits@.take(i + 1);
            assert(upto.drop_last() =~= earlier);
            assert(upto =~= earlier.push(entity));
            assert(old(enemy_state)@.without_all(earlier.to_set()).without(entity) =~= old(
                enemy_state,
            )@.without_all(upto.to_set()));
        }
        if eliminate_enemy(entity, enemy_state) {
            despawn.push(entity);
        }
        i += 1;
    }
    assert(hits@.take(hits.len() as int) =~= hits@);
    despawn
}

/// Makes up the enemy for `cell`: rolls its colour and picks its speed.
fn roll_enemy(rng: &mut ThreadRng, cell: EnemyPos, target: usize) -> (spawn: EnemySpawn)
    ensures
        spawn.pos == cell,
        fits_wave(target, spawn) == in_grid(cell),
{
    // roll the dice
    let color = color_for_roll(gen_range_inclusive(rng, 0, 1));
    EnemySpawn { pos: cell, color, ms: pick_ms(target) }
}

/// Whether the cells found so far are the occupied ones followed by those
/// of the new enemies, all different, with every new enemy fit for the
/// wave.
spec fn wave_in_progress(
    taken: Seq<EnemyPos>,
    target: usize,
    unique_pos: Seq<EnemyPos>,
    spawns: Seq<EnemySpawn>,
) -> bool {
    &&& unique_pos == taken + spawn_cells(spawns)
    &&& unique_pos.no_duplicates()
    &&& spawns.len() == 0 || unique_pos.len() <= target
    &&& forall|i: int| 0 <= i < spawns.len() ==> fits_wave(target, #[trigger] spawns[i])
}

/// Claims `cell` and, if it was free, adds an enemy for it.
fn place_enemy(
    rng: &mut ThreadRng,
    cell: EnemyPos,
    target: usize,
    unique_pos: &mut Vec<EnemyPos>,
    spawns: &mut Vec<EnemySpawn>,
    Ghost(taken): Ghost<Seq<EnemyPos>>,
)
    requires
        in_grid(cell),
        old(unique_pos)@.len() < target,
        wave_in_progress(taken, target, old(unique_pos)@, old(spawns)@),
    ensures
        wave_in_progress(taken, target, final(unique_pos)@, final(spawns)@),
        final(unique_pos)@.contains(cell),
        forall|other: EnemyPos|
            old(unique_pos)@.contains(other) ==> final(unique_pos)@.contains(other),
{
    let ghost cells_before = unique_pos@;
    let ghost before = spawns@;
    if claim(unique_pos, cell) {
        spawns.push(roll_enemy(rng, cell, target));
        proof {
            assert(spawn_cells(spawns@) =~= spawn_cells(before).push(cell));
            assert(unique_pos@ =~= taken + spawn_cells(spawns@));
            assert forall|i: int| 0 <= i < spawns.len() implies fits_wave(
                target,
                #[trigger] spawns[i],
            ) by {
                if i < before.len() {
                    assert(spawns[i] == before[i]);
                }
            }
            assert(unique_pos@[cells_before.len() as int] == cell);
            assert forall|other: EnemyPos| cells_before.contains(other) implies unique_pos@.contains(
                other,
            ) by {
                let k = choose|k: int| 0 <= k < cells_before.len() && cells_before[k] == other;
                assert(unique_pos@[k] == other);
            }
        }
    }
}

/// Decides which enemies this frame adds.
///
/// The wave first grows if the kill count calls for it. Then cells are
/// drawn from the grid, and those already occupied or already drawn are
/// rejected, until the occupied cells and the new ones together make up the
/// wave. Should `SPAWN_ATTEMPT_LIMIT` draws not be enough, the cells still
/// needed are the first free ones of the grid, column by column. Each new
/// cell gets an enemy of a random colour and of a speed fitting the wave.
/// The caller creates the enemies and records each under its entity with
/// `record_enemy`.
pub fn enemy_spawn_system(enemy_state: &mut EnemyState, player_kill_count: &KillCount) -> (spawns:
    Vec<EnemySpawn>)
    ensures
        final(enemy_state)@ == old(enemy_state)@.grown(player_kill_count.0),
        fills_wave(old(enemy_state)@.occupied(), final(enemy_state)@.enemy_count, spawns@),
{
    update_enemy_count(enemy_state, player_kill_count.0);

    let target = enemy_state.enemy_count;
    let mut unique_pos = occupied_cells(enemy_state);
    let ghost taken = unique_pos@;
    let mut spawns: Vec<EnemySpawn> = Vec::new();
    assert(unique_pos@ =~= taken + spawn_cells(spawns@));

    let mut rng = rand::thread_rng();
    let mut attempts: usize = 0;
    while unique_pos.len() < target && attempts < SPAWN_ATTEMPT_LIMIT
        invariant
            attempts <= SPAWN_ATTEMPT_LIMIT,
            wave_in_progress(taken, target, unique_pos@, spawns@),
        decreases SPAWN_ATTEMPT_LIMIT - attempts,
    {
        let x = gen_range_inclusive(&mut rng, GRID_X_MIN, GRID_X_MAX);
        let y = gen_range_inclusive(&mut rng, GRID_Y_MIN, GRID_Y_MAX);
        place_enemy(&mut rng, EnemyPos { x, y }, target, &mut unique_pos, &mut spawns, Ghost(taken));
        attempts += 1;
    }

    let mut x: i32 = GRID_X_MIN;
    while x <= GRID_X_MAX && unique_pos.len() < target
        invariant
            GRID_X_MIN <= x <= GRID_X_MAX + 1,
            wave_in_progress(taken, target, unique_pos@, spawns@),
            unique_pos@.len() >= target || forall|cell: EnemyPos| #[trigger]
                in_grid(cell) && cell.x < x ==> unique_pos@.contains(cell),
        decreases GRID_X_MAX + 1 - x,
    {
        let mut y: i32 = GRID_Y_MIN;
        while y <= GRID_Y_MAX && unique_pos.len() < target
            invariant
                GRID_X_MIN <= x <= GRID_X_MAX,
                GRID_Y_MIN <= y <= GRID_Y_MAX + 1,
                wave_in_progress(taken, target, unique_pos@, spawns@),
                unique_pos@.len() >= target || forall|cell: EnemyPos| #[trigger]
                    in_grid(cell) && (cell.x < x || (cell.x == x && cell.y < y))
                        ==> unique_pos@.contains(cell),
            decreases GRID_Y_MAX + 1 - y,
        {
            place_enemy(
                &mut rng,
                EnemyPos { x, y },
                target,
                &mut unique_pos,
                &mut spawns,
                Ghost(taken),
            );
            y += 1;
        }
        x += 1;
    }
    proof {
        let cells = spawn_cells(spawns@);
        assert forall|i: int, j: int| 0 <= i < j < cells.len() implies cells[i] != cells[j] by {
            assert(unique_pos@[taken.len() + i] == cells[i]);
            assert(unique_pos@[taken.len() + j] == cells[j]);
        }
        assert forall|i: int| 0 <= i < spawns.len() implies !taken.to_set().contains(
            (#[trigger] spawns[i]).pos,
        ) by {
            if taken.contains(spawns[i].pos) {
                let k = choose|k: int| 0 <= k < taken.len() && taken[k] == spawns[i].pos;
                assert(unique_pos@[k] == taken[k]);
                assert(unique_pos@[taken.len() + i] == cells[i]);
            }
        }
        if unique_pos@.len() < target {
            assert forall|cell: EnemyPos| #[trigger] in_grid(cell) implies taken.to_set().contains(
                cell,
            ) || cells.contains(cell) by {
                assert(unique_pos@.contains(cell));
                let k = choose|k: int| 0 <= k < unique_pos@.len() && unique_pos@[k] == cell;
                if k < taken.len() {
                    assert(taken[k] == cell);
                } else {
                    assert(cells[k - taken.len()] == cell);
                }
            }
            assert(GRID_CELLS < target) by {
                lemma_grid_size();
                unique_pos@.unique_seq_to_set();
                assert(grid().subset_of(unique_pos@.to_set()));
                vstd::set_lib::lemma_len_subset(grid(), unique_pos@.to_set());
            }
        }
    }
    spawns
}

} // verus!
