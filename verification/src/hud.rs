//! What the heads-up display shows and which of its entities it keeps.

use crate::globals::{Hsl, Kulay};
use crate::player::PlayerWeapon;
use vstd::prelude::*;

verus! {

/// The player's score. A miss costs points, so it can go below zero.
pub struct Score(pub i32);

/// The entities the display is made of, in the order they were created.
pub struct HudEntities(pub Vec<u64>);

/// The hearts of the health bar that are still full. The last one is the
/// next to go.
pub struct HealthBarState(pub Vec<u64>);

impl View for HudEntities {
    type V = Seq<u64>;

    open spec fn view(&self) -> Seq<u64> {
        self.0@
    }
}

impl View for HealthBarState {
    type V = Seq<u64>;

    open spec fn view(&self) -> Seq<u64> {
        self.0@
    }
}

/// The character of a decimal digit.
pub open spec fn digit_char(d: int) -> char {
    if d == 0 {
        '0'
    } else if d == 1 {
        '1'
    } else if d == 2 {
        '2'
    } else if d == 3 {
        '3'
    } else if d == 4 {
        '4'
    } else if d == 5 {
        '5'
    } else if d == 6 {
        '6'
    } else if d == 7 {
        '7'
    } else if d == 8 {
        '8'
    } else {
        '9'
    }
}

/// The decimal digits of `n`, most significant first, without leading
/// zeros.
pub open spec fn digits(n: nat) -> Seq<char>
    decreases n,
{
    if n < 10 {
        seq![digit_char(n as int)]
    } else {
        digits(n / 10).push(digit_char((n % 10) as int))
    }
}

/// `n` in decimal, with a minus sign if it is negative.
pub open spec fn decimal(n: int) -> Seq<char> {
    if n < 0 {
        seq!['-'] + digits((-n) as nat)
    } else {
        digits(n as nat)
    }
}

/// The line the scoreboard shows for `points`.
pub open spec fn score_line(points: i32) -> Seq<char> {
    "Score: "@ + decimal(points as int)
}

/// The line the game-over screen shows for `points`.
pub open spec fn final_score_line(points: i32) -> Seq<char> {
    "You Scored: "@ + decimal(points as int)
}

/// How many hearts, counted from the end of `bar`, stand in `live` without
/// a gap.
pub open spec fn live_run(live: Seq<u64>, bar: Seq<u64>) -> nat
    decreases bar.len(),
{
    if bar.len() == 0 || !live.contains(bar.last()) {
        0
    } else {
        1 + live_run(live, bar.drop_last())
    }
}

/// How many hearts start to drain when `events` hits arrive: one per hit,
/// until the bar is empty or a heart is no longer there.
pub open spec fn hearts_drained(events: usize, live: Seq<u64>, bar: Seq<u64>) -> nat {
    if events <= live_run(live, bar) {
        events as nat
    } else {
        live_run(live, bar)
    }
}

proof fn lemma_live_run(live: Seq<u64>, bar: Seq<u64>)
    ensures
        live_run(live, bar) <= bar.len(),
        (forall|i: int| 0 <= i < bar.len() ==> live.contains(#[trigger] bar[i])) ==> live_run(
            live,
            bar,
        ) == bar.len(),
    decreases bar.len(),
{
    if bar.len() > 0 {
        lemma_live_run(live, bar.drop_last());
        if forall|i: int| 0 <= i < bar.len() ==> live.contains(#[trigger] bar[i]) {
            assert(live.contains(bar[bar.len() - 1]));
            assert forall|i: int| 0 <= i < bar.drop_last().len() implies live.contains(
                #[trigger] bar.drop_last()[i],
            ) by {
                assert(bar.drop_last()[i] == bar[i]);
            }
        }
    }
}

/// No more hearts drain than there are hits or hearts. While every heart
/// of the bar still exists, each hit drains one until the bar is empty.
pub proof fn lemma_hearts_drained(events: usize, live: Seq<u64>, bar: Seq<u64>)
    ensures
        hearts_drained(events, live, bar) <= events,
        hearts_drained(events, live, bar) <= bar.len(),
        (forall|i: int| 0 <= i < bar.len() ==> live.contains(#[trigger] bar[i]))
            ==> hearts_drained(events, live, bar) == if events <= bar.len() {
            events as nat
        } else {
            bar.len()
        },
{
    lemma_live_run(live, bar);
}

/// The digits of `n` that remain to the left once its last digit is taken
/// off: none if `n` has a single digit.
spec fn leading(n: nat) -> Seq<char> {
    if n == 0 {
        Seq::empty()
    } else {
        digits(n)
    }
}

/// The characters of the digits in `low_first`, last digit first.
spec fn reversed_chars(low_first: Seq<u8>) -> Seq<char> {
    Seq::new(low_first.len(), |i: int| digit_char(low_first[low_first.len() - 1 - i] as int))
}

proof fn lemma_digits_split(n: nat)
    ensures
        digits(n) == leading(n / 10).push(digit_char((n % 10) as int)),
{
    if n < 10 {
        assert(n / 10 == 0);
        assert(n % 10 == n);
        assert(digits(n) =~= Seq::<char>::empty().push(digit_char(n as int)));
    }
}

fn digit_str(d: u8) -> (s: &'static str)
    requires
        d < 10,
    ensures
        s@ == seq![digit_char(d as int)],
{
    proof {
        reveal_strlit("0");
        reveal_strlit("1");
        reveal_strlit("2");
        reveal_strlit("3");
        reveal_strlit("4");
        reveal_strlit("5");
        reveal_strlit("6");
        reveal_strlit("7");
        reveal_strlit("8");
        reveal_strlit("9");
    }
    let s = match d {
        0 => "0",
        1 => "1",
        2 => "2",
        3 => "3",
        4 => "4",
        5 => "5",
        6 => "6",
        7 => "7",
        8 => "8",
        _ => "9",
    };
    assert(s@ =~= seq![digit_char(d as int)]);
    s
}

/// Writes `n` in decimal.
pub fn decimal_text(n: i32) -> (text: String)
    ensures
        text@ == decimal(n as int),
{
    let wide: i64 = n as i64;
    let magnitude: u64 = if wide < 0 {
        (-wide) as u64
    } else {
        wide as u64
    };
    let mut low_first: Vec<u8> = Vec::new();
    low_first.push((magnitude % 10) as u8);
    let mut rest: u64 = magnitude / 10;
    proof {
        lemma_digits_split(magnitude as nat);
        assert(reversed_chars(low_first@) =~= seq![digit_char((magnitude % 10) as int)]);
        assert(digits(magnitude as nat) =~= leading(rest as nat) + reversed_chars(low_first@));
    }
    while rest > 0
        invariant
            low_first@.len() > 0,
            forall|i: int| 0 <= i < low_first@.len() ==> low_first@[i] < 10,
            digits(magnitude as nat) == leading(rest as nat) + reversed_chars(low_first@),
        decreases rest,
    {
        let ghost before = low_first@;
        let d = (rest % 10) as u8;
        low_first.push(d);
        proof {
            lemma_digits_split(rest as nat);
            assert(reversed_chars(low_first@) =~= seq![digit_char(d as int)] + reversed_chars(
                before,
            ));
            assert(leading(rest as nat) + reversed_chars(before) =~= leading((rest / 10) as nat)
                + reversed_chars(low_first@));
        }
        rest = rest / 10;
    }
    let mut text = if wide < 0 {
        String::from_str("-")
    } else {
        String::new()
    };
    proof {
        reveal_strlit("-");
    }
    let ghost sign = text@;
    let mut left: usize = low_first.len();
    while left > 0
        invariant
            left <= low_first@.len(),
            forall|i: int| 0 <= i < low_first@.len() ==> low_first@[i] < 10,
            text@ == sign + reversed_chars(low_first@).take(low_first@.len() - left),
        decreases left,
    {
        left -= 1;
        text.append(digit_str(low_first[left]));
        proof {
            let all = reversed_chars(low_first@);
            let done = low_first@.len() - left - 1;
            assert(all[done] == digit_char(low_first@[left as int] as int));
            assert(all.take(done + 1) =~= all.take(done).push(all[done]));
            assert(text@ =~= sign + all.take(done + 1));
        }
    }
    proof {
        let all = reversed_chars(low_first@);
        assert(all.take(low_first@.len() as int) =~= all);
        assert(sign =~= if n < 0 {
            seq!['-']
        } else {
            Seq::<char>::empty()
        });
        assert(Seq::<char>::empty() + all =~= all);
    }
    text
}

/// The text of the scoreboard for `points`.
pub fn score_text(points: i32) -> (text: String)
    ensures
        text@ == score_line(points),
{
    let mut text = String::from_str("Score: ");
    text.append(decimal_text(points).as_str());
    text
}

/// The line the scoreboard shows.
pub fn refresh_scoreboard_system(scoreboard_points: &Score) -> (text: String)
    ensures
        text@ == score_line(scoreboard_points.0),
{
    score_text(scoreboard_points.0)
}

/// The text of the game-over screen for the score reached.
pub fn final_score_text(score: &Score) -> (text: String)
    ensures
        text@ == final_score_line(score.0),
{
    let mut text = String::from_str("You Scored: ");
    text.append(decimal_text(score.0).as_str());
    text
}

/// The colour of the crosshair: that of the weapon in hand.
pub fn refresh_crosshair_color_system(player_weapon: &PlayerWeapon) -> (paint: Hsl)
    ensures
        paint == match player_weapon.0 {
            Kulay::Asul => (Hsl { hue: 240, saturation: 100, lightness: 50 }),
            Kulay::Pula => (Hsl { hue: 0, saturation: 50, lightness: 50 }),
        },
{
    match player_weapon.0 {
        Kulay::Asul => Hsl { hue: 240, saturation: 100, lightness: 50 },
        Kulay::Pula => Hsl { hue: 0, saturation: 50, lightness: 50 },
    }
}

/// Empties the display's list of entities and hands them back for
/// despawning, the newest first.
pub fn clean_hud_system(hud_entities: &mut HudEntities) -> (despawn: Vec<u64>)
    ensures
        final(hud_entities)@ == Seq::<u64>::empty(),
        despawn@ == old(hud_entities)@.reverse(),
{
    let mut despawn: Vec<u64> = Vec::new();
    let count = hud_entities.0.len();
    let mut done: usize = 0;
    while done < count
        invariant
            done <= count == old(hud_entities).0@.len(),
            hud_entities.0@ == old(hud_entities).0@.take(count - done),
            despawn@ == old(hud_entities).0@.reverse().take(done as int),
        decreases count - done,
    {
        if let Some(entity) = hud_entities.0.pop() {
            despawn.push(entity);
        }
        done += 1;
        proof {
            let all = old(hud_entities).0@;
            assert(all.reverse()[done - 1] == all[count - done]);
            assert(all.reverse().take(done as int) =~= all.reverse().take(done - 1).push(
                all[count - done],
            ));
            assert(hud_entities.0@ =~= all.take(count - done));
        }
    }
    assert(old(hud_entities).0@.reverse().take(count as int) =~= old(hud_entities).0@.reverse());
    assert(hud_entities.0@ =~= Seq::<u64>::empty());
    despawn
}

/// Whether `entity` is listed in `entities`.
pub fn lists(entities: &Vec<u64>, entity: u64) -> (found: bool)
    ensures
        found == entities@.contains(entity),
{
    let mut i: usize = 0;
    while i < entities.len()
        invariant
            i <= entities.len(),
            forall|j: int| 0 <= j < i ==> entities@[j] != entity,
        decreases entities.len() - i,
    {
        if entities[i] == entity {
            return true;
        }
        i += 1;
    }
    false
}

/// What a frame's hits did to the health bar.
#[derive(Debug, Clone, Copy, PartialEq, Eq, Structural)]
pub struct Drain {
    /// Whether every hit found its heart. Only then does the frame go on
    /// to animate the queue.
    pub served: bool,
    /// How many of the hits were looked at: all of them, or those up to
    /// the one that stopped the frame.
    pub events_read: usize,
}

/// Takes one heart off the bar for each hit and queues it for draining.
///
/// `live_hearts` lists the heart entities that still exist. The hearts
/// leave the bar from its end. The system stops at the first hit that
/// finds the bar empty or its heart gone; such a heart leaves the bar
/// without being queued, and the hits after it are left for the next
/// frame.
pub fn animate_health_deplete_system(
    damage_events: usize,
    live_hearts: &Vec<u64>,
    health_bar_state: &mut HealthBarState,
    hearts_to_animate: &mut Vec<u64>,
) -> (drain: Drain)
    ensures
        ({
            let bar = old(health_bar_state)@;
            let drained = hearts_drained(damage_events, live_hearts@, bar);
            &&& drain.served == (drained == damage_events)
            &&& drain.events_read == if drain.served {
                damage_events as nat
            } else {
                drained + 1
            }
            &&& final(hearts_to_animate)@ == old(hearts_to_animate)@ + bar.skip(
                bar.len() - drained,
            ).reverse()
            &&& final(health_bar_state)@ == if drain.served || drained == bar.len() {
                bar.take(bar.len() - drained)
            } else {
                bar.take(bar.len() - drained - 1)
            }
        }),
{
    let ghost bar = health_bar_state.0@;
    let ghost queue = hearts_to_animate@;
    let mut done: usize = 0;
    assert(bar.skip(bar.len() as int).reverse() =~= Seq::<u64>::empty());
    assert(bar.take(bar.len() as int) =~= bar);
    while done < damage_events
        invariant
            done <= damage_events,
            done <= bar.len(),
            bar == old(health_bar_state).0@,
            queue == old(hearts_to_animate)@,
            health_bar_state.0@ == bar.take(bar.len() - done),
            hearts_to_animate@ == queue + bar.skip(bar.len() - done).reverse(),
            live_run(live_hearts@, bar) == done + live_run(live_hearts@, health_bar_state.0@),
        decreases damage_events - done,
    {
        let ghost rest = health_bar_state.0@;
        let Some(heart) = health_bar_state.0.pop() else {
            return Drain { served: false, events_read: done + 1 };
        };
        if !lists(live_hearts, heart) {
            proof {
                assert(health_bar_state.0@ =~= bar.take(bar.len() - done - 1));
            }
            return Drain { served: false, events_read: done + 1 };
        }
        hearts_to_animate.push(heart);
        done += 1;
        proof {
            assert(health_bar_state.0@ =~= rest.drop_last());
            assert(health_bar_state.0@ =~= bar.take(bar.len() - done));
            assert(heart == bar[bar.len() - done]);
            assert(bar.skip(bar.len() - done).reverse() =~= bar.skip(
                bar.len() - done + 1,
            ).reverse().push(heart));
        }
    }
    Drain { served: true, events_read: damage_events }
}

} // verus!
