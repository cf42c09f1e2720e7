//! The rookie draft lottery for first-round picks 1-6 (rules §7.2.4-§7.2.5).
//!
//! The six non-playoff teams get 6/5/4/3/2/1 balls by mid-season rank (worst gets the most) and
//! picks 1 through 6 are drawn sequentially, each winner leaving the pool before the next draw.
//! The draw is a seeded `StdRng`, so the same seed replays the same order.
use crate::model::LeagueTeamSeasonStanding;
use crate::rookie_draft::draft_order::{
    non_playoff_order, non_playoff_seeds, non_playoff_standings, seed_teams, sort_seeds,
    sorted_seeds, Seed, SeedOrder,
};
use crate::rules::{lottery_balls, rookie_draft_lottery_balls};
use crate::text::{decimal_text, push_decimal};
use vstd::string::StringExecFns;
use rand::rngs::StdRng;
use rand::{Rng, SeedableRng};
use vstd::prelude::*;

verus! {

/// rand's standard seeded generator, carried through the draw.
#[verifier::external_type_specification]
#[verifier::external_body]
pub struct ExStdRng(StdRng);

/// rand's standard generator together with what it was seeded with and the ranges drawn from it
/// so far, in order.
struct SeededGenerator {
    rng: StdRng,
    seed: Ghost<i64>,
    ranges: Ghost<Seq<u32>>,
}

impl View for SeededGenerator {
    type V = (i64, Seq<u32>);

    closed spec fn view(&self) -> (i64, Seq<u32>) {
        (self.seed@, self.ranges@)
    }
}

/// The ball `gen_range(0..ranges.last())` draws from rand's `StdRng` seeded by `seed_from_u64` on
/// `seed`'s two's-complement bits, after the earlier ranges of `ranges` were drawn from it in turn.
pub uninterp spec fn seeded_ball(seed: i64, ranges: Seq<u32>) -> u32;

/// Calls `rand::SeedableRng::seed_from_u64` on the seed's two's-complement bits. Claims that the
/// generator starts from `seed`, with no range drawn yet.
#[verifier::external_body]
fn seeded_generator(seed: i64) -> (generator: SeededGenerator)
    ensures
        generator@ == (seed, Seq::<u32>::empty()),
{
    SeededGenerator { rng: StdRng::seed_from_u64(seed as u64), seed: Ghost(seed), ranges: Ghost(Seq::empty()) }
}

/// Calls `rand::Rng::gen_range(0..total)`. Claims what the range promises, that the ball lies in
/// `0..total`, and that it is the ball the generator's seed and earlier ranges give for this range
/// (the generator is deterministic for a seed); the range is recorded. `gen_range` panics on an
/// empty range, so `total` must be positive.
#[verifier::external_body]
fn draw_ball(generator: &mut SeededGenerator, total: u32) -> (ball: u32)
    requires
        total > 0,
    ensures
        ball < total,
        ball == seeded_ball(old(generator)@.0, old(generator)@.1.push(total)),
        final(generator)@ == (old(generator)@.0, old(generator)@.1.push(total)),
{
    generator.rng.gen_range(0..total)
}

/// One drawn lottery slot.
#[derive(Clone, Copy, Debug, PartialEq, Eq, Structural)]
pub struct LotteryPick {
    pub pick_number: i16,
    pub team_id: i64,
    pub balls_held: i16,
}

/// Why the lottery could not be drawn.
#[derive(Clone, Copy, Debug, PartialEq, Eq, Structural)]
pub enum LotteryError {
    /// The standings do not hold exactly as many non-playoff teams as the ball table has slots.
    WrongNonPlayoffCount { needed: usize, found: usize },
}

/// The lottery pool before any draw: each non-playoff team, worst first, with its balls.
pub open spec fn lottery_pool(standings: Seq<LeagueTeamSeasonStanding>) -> Seq<(i64, u32)> {
    let teams = seed_teams(
        sort_seeds(non_playoff_order(), non_playoff_seeds(non_playoff_standings(standings))),
    );
    Seq::new(teams.len(), |i: int| (teams[i], lottery_balls()[i]))
}

/// Total balls of a pool.
pub open spec fn total_balls(pool: Seq<(i64, u32)>) -> int
    decreases pool.len(),
{
    if pool.len() == 0 {
        0
    } else {
        total_balls(pool.drop_last()) + pool.last().1
    }
}

/// The drawn picks as `(team, balls held)`.
pub open spec fn drawn_pairs(picks: Seq<LotteryPick>) -> Seq<(i64, u32)> {
    picks.map_values(|pick: LotteryPick| (pick.team_id, pick.balls_held as u32))
}

/// The draw log's first line: `seed=<seed>`.
pub open spec fn seed_line(seed: int) -> Seq<char> {
    "seed="@ + decimal_text(seed) + "\n"@
}

/// The draw log's line for one drawn pick, with the balls left in the pool when it was drawn:
/// `pick <n>: team <team> (<held>/<total> balls)`.
pub open spec fn draw_line(pick: LotteryPick, total: int) -> Seq<char> {
    "pick "@ + decimal_text(pick.pick_number as int) + ": team "@ + decimal_text(
        pick.team_id as int,
    ) + " ("@ + decimal_text(pick.balls_held as int) + "/"@ + decimal_text(total) + " balls)\n"@
}

/// The draw log's lines for `picks`, drawn in order from a pool of `total` balls.
pub open spec fn draw_lines(picks: Seq<LotteryPick>, total: int) -> Seq<char>
    decreases picks.len(),
{
    if picks.len() == 0 {
        Seq::empty()
    } else {
        draw_lines(picks.drop_last(), total) + draw_line(
            picks.last(),
            total - total_balls(drawn_pairs(picks.drop_last())),
        )
    }
}

fn push_draw_line(log: &mut String, pick: LotteryPick, total: u32)
    ensures
        final(log)@ == old(log)@ + draw_line(pick, total as int),
{
    log.append("pick ");
    push_decimal(log, pick.pick_number as i64);
    log.append(": team ");
    push_decimal(log, pick.team_id);
    log.append(" (");
    push_decimal(log, pick.balls_held as i64);
    log.append("/");
    push_decimal(log, total as i64);
    log.append(" balls)\n");
    proof {
        assert(log@ =~= old(log)@ + draw_line(pick, total as int));
    }
}

proof fn lemma_total_balls_split(pool: Seq<(i64, u32)>, index: int)
    requires
        0 <= index <= pool.len(),
    ensures
        total_balls(pool) == total_balls(pool.take(index)) + total_balls(pool.skip(index)),
    decreases pool.len(),
{
    if pool.len() == 0 {
        assert(pool.take(index) =~= pool);
        assert(pool.skip(index) =~= pool);
    } else if index == pool.len() {
        assert(pool.take(index) =~= pool);
        assert(pool.skip(index) =~= Seq::<(i64, u32)>::empty());
    } else {
        lemma_total_balls_split(pool.drop_last(), index);
        assert(pool.drop_last().take(index) =~= pool.take(index));
        assert(pool.skip(index).drop_last() =~= pool.drop_last().skip(index));
    }
}

proof fn lemma_total_balls_remove(pool: Seq<(i64, u32)>, index: int)
    requires
        0 <= index < pool.len(),
    ensures
        total_balls(pool.remove(index)) == total_balls(pool) - pool[index].1,
{
    let removed = pool.remove(index);
    lemma_total_balls_split(pool, index);
    lemma_total_balls_split(removed, index);
    assert(removed.take(index) =~= pool.take(index));
    assert(removed.skip(index) =~= pool.skip(index + 1));
    lemma_total_balls_split(pool.skip(index), 1);
    assert(pool.skip(index).take(1) =~= seq![pool[index]]);
    assert(pool.skip(index).skip(1) =~= pool.skip(index + 1));
    let one = seq![pool[index]];
    assert(one.drop_last() =~= Seq::<(i64, u32)>::empty());
    assert(total_balls(one.drop_last()) == 0);
    assert(total_balls(one) == pool[index].1);
}

proof fn lemma_total_balls_bound(pool: Seq<(i64, u32)>)
    requires
        forall|i: int| 0 <= i < pool.len() ==> 1 <= #[trigger] pool[i].1 <= 6,
    ensures
        pool.len() <= total_balls(pool) <= 6 * pool.len(),
    decreases pool.len(),
{
    if pool.len() > 0 {
        lemma_total_balls_bound(pool.drop_last());
    }
}

/// The pool position a drawn ball lands on, the balls numbered in pool order: the first team
/// holds balls `0..its count`, the next the following ones, and so on. A ball past the last range
/// lands on the last team.
pub open spec fn ball_owner(pool: Seq<(i64, u32)>, ball: int) -> int
    decreases pool.len(),
{
    if pool.len() <= 1 {
        0
    } else if ball < pool[0].1 {
        0
    } else {
        1 + ball_owner(pool.drop_first(), ball - pool[0].1)
    }
}

proof fn lemma_total_balls_first(pool: Seq<(i64, u32)>, count: int)
    requires
        0 < count <= pool.len(),
    ensures
        total_balls(pool.take(count)) == pool[0].1 + total_balls(pool.drop_first().take(count - 1)),
{
    let taken = pool.take(count);
    lemma_total_balls_split(taken, 1);
    assert(taken.take(1) =~= seq![pool[0]]);
    assert(taken.skip(1) =~= pool.drop_first().take(count - 1));
    let one = seq![pool[0]];
    assert(one.drop_last() =~= Seq::<(i64, u32)>::empty());
    assert(total_balls(one.drop_last()) == 0);
    assert(total_balls(one) == pool[0].1);
}

/// A ball below the pool's total lands inside its owner's range of balls.
pub proof fn lemma_ball_lands_in_its_owners_range(pool: Seq<(i64, u32)>, ball: int)
    requires
        0 <= ball < total_balls(pool),
    ensures
        0 <= ball_owner(pool, ball) < pool.len(),
        total_balls(pool.take(ball_owner(pool, ball))) <= ball < total_balls(
            pool.take(ball_owner(pool, ball)),
        ) + pool[ball_owner(pool, ball)].1,
    decreases pool.len(),
{
    lemma_total_balls_split(pool, pool.len() as int);
    assert(pool.take(pool.len() as int) =~= pool);
    assert(pool.take(0) =~= Seq::<(i64, u32)>::empty());
    if pool.len() == 0 {
        assert(pool.skip(0) =~= pool);
    } else if pool.len() == 1 {
        assert(pool.drop_last() =~= Seq::<(i64, u32)>::empty());
    } else if ball < pool[0].1 {
    } else {
        let rest = pool.drop_first();
        lemma_total_balls_first(pool, pool.len() as int);
        assert(rest.take(rest.len() as int) =~= rest);
        lemma_ball_lands_in_its_owners_range(rest, ball - pool[0].1);
        let inner = ball_owner(rest, ball - pool[0].1);
        lemma_total_balls_first(pool, inner + 1);
        assert(pool[inner + 1] == rest[inner]);
    }
}

/// The position of the team a drawn ball selects: the team whose range of balls, numbered in pool
/// order, holds `ball`.
pub fn winning_index(pool: &Vec<(i64, u32)>, ball: u32) -> (index: usize)
    requires
        pool.len() > 0,
    ensures
        index == ball_owner(pool@, ball as int),
        index < pool.len(),
        ball < total_balls(pool@) ==> total_balls(pool@.take(index as int)) <= ball < total_balls(
            pool@.take(index as int),
        ) + pool@[index as int].1,
{
    proof {
        if ball < total_balls(pool@) {
            lemma_ball_lands_in_its_owners_range(pool@, ball as int);
        }
    }
    let mut remaining = ball;
    let mut scan: usize = 0;
    proof {
        assert(pool@.skip(0) =~= pool@);
    }
    while scan < pool.len()
        invariant
            0 < pool.len(),
            scan < pool.len(),
            ball_owner(pool@, ball as int) == scan + ball_owner(pool@.skip(scan as int), remaining as int),
            ball < total_balls(pool@) ==> total_balls(pool@.take(ball_owner(pool@, ball as int)))
                <= ball < total_balls(pool@.take(ball_owner(pool@, ball as int))) + pool@[ball_owner(
                pool@,
                ball as int,
            )].1,
        decreases pool.len() - scan,
    {
        let ghost rest = pool@.skip(scan as int);
        assert(rest[0] == pool@[scan as int]);
        if remaining < pool[scan].1 || scan + 1 == pool.len() {
            return scan;
        }
        proof {
            assert(rest.drop_first() =~= pool@.skip(scan + 1));
        }
        remaining = remaining - pool[scan].1;
        scan += 1;
    }
    scan
}

/// The pool left after drawing `balls` in turn from `initial`, each drawn team leaving it.
pub open spec fn pool_after(initial: Seq<(i64, u32)>, balls: Seq<int>) -> Seq<(i64, u32)>
    decreases balls.len(),
{
    if balls.len() == 0 {
        initial
    } else {
        let before = pool_after(initial, balls.drop_last());
        before.remove(ball_owner(before, balls.last()))
    }
}

/// The picks drawing `balls` in turn from `initial` makes: pick `k + 1` goes to the team ball `k`
/// lands on in the pool left by the earlier draws, with the balls it held there.
pub open spec fn draws(initial: Seq<(i64, u32)>, balls: Seq<int>) -> Seq<LotteryPick>
    decreases balls.len(),
{
    if balls.len() == 0 {
        Seq::empty()
    } else {
        let before = pool_after(initial, balls.drop_last());
        let winner = before[ball_owner(before, balls.last())];
        draws(initial, balls.drop_last()).push(
            LotteryPick {
                pick_number: balls.len() as i16,
                team_id: winner.0,
                balls_held: winner.1 as i16,
            },
        )
    }
}

/// The range each ball of `balls` was drawn from: the balls left in the pool at that draw.
pub open spec fn draw_ranges(initial: Seq<(i64, u32)>, balls: Seq<int>) -> Seq<u32> {
    Seq::new(balls.len(), |k: int| total_balls(pool_after(initial, balls.take(k))) as u32)
}

/// The first `count` balls the generator seeded by `seed` draws from `initial`, each from the
/// balls left in the pool by the earlier draws.
pub open spec fn seeded_balls(seed: i64, initial: Seq<(i64, u32)>, count: nat) -> Seq<int>
    decreases count,
{
    if count == 0 {
        Seq::empty()
    } else {
        let earlier = seeded_balls(seed, initial, (count - 1) as nat);
        earlier.push(
            seeded_ball(
                seed,
                draw_ranges(initial, earlier).push(total_balls(pool_after(initial, earlier)) as u32),
            ) as int,
        )
    }
}

/// The picks and audit log the lottery draws from `standings` with `seed`.
pub open spec fn seeded_lottery(standings: Seq<LeagueTeamSeasonStanding>, seed: i64) -> (
    Seq<LotteryPick>,
    Seq<char>,
) {
    let pool = lottery_pool(standings);
    let picks = draws(pool, seeded_balls(seed, pool, lottery_balls().len()));
    (picks, seed_line(seed as int) + draw_lines(picks, total_balls(pool)))
}

/// The seed fixes the draw: two lotteries drawn from the same standings with the same seed make
/// the same picks and the same audit log.
pub proof fn lemma_same_seed_same_draw(
    standings: Seq<LeagueTeamSeasonStanding>,
    seed: i64,
    first: (Seq<LotteryPick>, Seq<char>),
    second: (Seq<LotteryPick>, Seq<char>),
)
    requires
        first == seeded_lottery(standings, seed),
        second == seeded_lottery(standings, seed),
    ensures
        first.0 == second.0,
        first.1 == second.1,
{
}

/// Each ball is one of those left in the pool when it was drawn.
pub open spec fn balls_in_range(initial: Seq<(i64, u32)>, balls: Seq<int>) -> bool {
    forall|k: int|
        0 <= k < balls.len() ==> 0 <= #[trigger] balls[k] < total_balls(
            pool_after(initial, balls.take(k)),
        )
}

/// Draws picks 1-6 from the seeded ball pool, returning the drawn slots and the audit log.
///
/// Whatever the generator yields, each non-playoff team is drawn exactly once, holding the balls
/// of its standings slot, and picks are numbered 1-6 in draw order. The audit log records the seed,
/// then one line per draw with the balls the winner held out of those left in the pool. Each draw
/// goes to the team whose range of balls holds the ball the generator seeded by `seed` gives, so
/// the same seed replays the same draw.
pub fn draw_lottery(standings: &Vec<LeagueTeamSeasonStanding>, seed: i64) -> (drawn: Result<
    (Vec<LotteryPick>, String),
    LotteryError,
>)
    ensures
        non_playoff_standings(standings@).len() != lottery_balls().len() <==> drawn is Err,
        drawn matches Err(LotteryError::WrongNonPlayoffCount { needed, found }) ==> needed == 6
            && found == non_playoff_standings(standings@).len(),
        drawn matches Ok((picks, _)) ==> {
            &&& picks.len() == lottery_balls().len()
            &&& forall|i: int| 0 <= i < picks.len() ==> #[trigger] picks@[i].pick_number == i + 1
            &&& drawn_pairs(picks@).to_multiset() =~= lottery_pool(standings@).to_multiset()
        },
        drawn matches Ok((picks, _)) ==> {
            let balls = seeded_balls(seed, lottery_pool(standings@), lottery_balls().len());
            &&& balls_in_range(lottery_pool(standings@), balls)
            &&& picks@ == draws(lottery_pool(standings@), balls)
        },
        drawn matches Ok((picks, log)) ==> (picks@, log@) == seeded_lottery(standings@, seed),
        drawn matches Ok((picks, log)) ==> log@ == seed_line(seed as int) + draw_lines(
            picks@,
            total_balls(lottery_pool(standings@)),
        ),
{
    let mut missed: Vec<Seed> = Vec::new();
    let mut index: usize = 0;
    while index < standings.len()
        invariant
            index <= standings.len(),
            missed@ == non_playoff_seeds(non_playoff_standings(standings@.take(index as int))),
        decreases standings.len() - index,
    {
        proof {
            assert(standings@.take(index + 1).drop_last() =~= standings@.take(index as int));
        }
        let standing = standings[index];
        if !standing.made_playoffs {
            missed.push((standing.mid_season_rank, standing.regular_season_rank, standing.team_id));
        }
        index += 1;
        proof {
            assert(missed@ =~= non_playoff_seeds(non_playoff_standings(standings@.take(index as int))));
        }
    }
    proof {
        assert(standings@.take(standings.len() as int) =~= standings@);
    }
    let ordered = sorted_seeds(
        SeedOrder { first_descending: true, second_descending: true },
        &missed,
    );
    proof {
        crate::rookie_draft::draft_order::lemma_sorted_length(non_playoff_order(), missed@);
    }
    let balls = rookie_draft_lottery_balls();
    if ordered.len() != balls.len() {
        return Err(LotteryError::WrongNonPlayoffCount { needed: balls.len(), found: ordered.len() });
    }
    let mut pool: Vec<(i64, u32)> = Vec::new();
    let mut slot: usize = 0;
    while slot < ordered.len()
        invariant
            slot <= ordered.len() == balls.len() == 6,
            balls@ == lottery_balls(),
            pool.len() == slot,
            forall|i: int| 0 <= i < slot ==> #[trigger] pool@[i] == (ordered@[i].2, balls@[i]),
        decreases ordered.len() - slot,
    {
        pool.push((ordered[slot].2, balls[slot]));
        slot += 1;
    }
    let ghost initial = pool@;
    proof {
        assert(initial =~= lottery_pool(standings@));
    }
    let mut generator = seeded_generator(seed);
    let mut picks: Vec<LotteryPick> = Vec::new();
    let mut log = String::new();
    log.append("seed=");
    push_decimal(&mut log, seed);
    log.append("\n");
    let mut pick_number: i16 = 1;
    let ghost mut balls: Seq<int> = Seq::empty();
    proof {
        broadcast use vstd::seq_lib::group_to_multiset_ensures;
        broadcast use vstd::multiset::group_multiset_properties;

        assert(draws(initial, balls) =~= picks@);
        assert(drawn_pairs(picks@) =~= Seq::<(i64, u32)>::empty());
        assert(forall|i: int| 0 <= i < pool.len() ==> 1 <= #[trigger] pool@[i].1 <= 6);
    }
    while pick_number <= 6
        invariant
            1 <= pick_number <= 7,
            picks.len() == pick_number - 1,
            pool.len() == 7 - pick_number,
            forall|i: int| 0 <= i < pool.len() ==> 1 <= #[trigger] pool@[i].1 <= 6,
            forall|i: int| 0 <= i < picks.len() ==> #[trigger] picks@[i].pick_number == i + 1,
            forall|i: int| 0 <= i < picks.len() ==> 1 <= #[trigger] picks@[i].balls_held <= 6,
            drawn_pairs(picks@).to_multiset().add(pool@.to_multiset()) =~= initial.to_multiset(),
            total_balls(pool@) + total_balls(drawn_pairs(picks@)) == total_balls(initial),
            log@ == seed_line(seed as int) + draw_lines(picks@, total_balls(initial)),
            balls.len() == pick_number - 1,
            pool@ == pool_after(initial, balls),
            draws(initial, balls) == picks@,
            balls_in_range(initial, balls),
            balls == seeded_balls(seed, initial, balls.len()),
            generator@ == (seed, draw_ranges(initial, balls)),
        decreases 7 - pick_number,
    {
        let mut total: u32 = 0;
        let mut counted: usize = 0;
        while counted < pool.len()
            invariant
                counted <= pool.len() <= 6,
                forall|i: int| 0 <= i < pool.len() ==> 1 <= #[trigger] pool@[i].1 <= 6,
                total == total_balls(pool@.take(counted as int)),
                total <= 6 * counted,
            decreases pool.len() - counted,
        {
            proof {
                assert(pool@.take(counted + 1).drop_last() =~= pool@.take(counted as int));
            }
            total = total + pool[counted].1;
            counted += 1;
        }
        proof {
            assert(pool@.take(pool.len() as int) =~= pool@);
            lemma_total_balls_bound(pool@);
        }
        let drawn_ball = draw_ball(&mut generator, total);
        let winning = winning_index(&pool, drawn_ball);
        let ghost pool_full = pool@;
        proof {
            lemma_total_balls_remove(pool@, winning as int);
        }
        let (team_id, balls_held) = pool.remove(winning);
        let ghost picks_before = picks@;
        let ghost pool_before = pool@;
        let pick = LotteryPick { pick_number, team_id, balls_held: balls_held as i16 };
        push_draw_line(&mut log, pick, total);
        picks.push(pick);
        proof {
            broadcast use vstd::seq_lib::group_to_multiset_ensures;
            broadcast use vstd::multiset::group_multiset_properties;

            assert(drawn_pairs(picks@) =~= drawn_pairs(picks_before).push((team_id, balls_held)));
            assert(drawn_pairs(picks@).drop_last() =~= drawn_pairs(picks_before));
            assert(picks@.drop_last() =~= picks_before);
            assert(total == total_balls(pool_full));
            let grown = balls.push(drawn_ball as int);
            assert(grown.drop_last() =~= balls);
            assert forall|k: int| 0 <= k < grown.len() implies 0 <= #[trigger] grown[k]
                < total_balls(pool_after(initial, grown.take(k))) by {
                if k < balls.len() {
                    assert(grown.take(k) =~= balls.take(k));
                } else {
                    assert(grown.take(k) =~= balls);
                }
            }
            assert(draws(initial, grown) =~= picks@);
            assert(total == total_balls(pool_after(initial, balls)) as u32);
            assert(draw_ranges(initial, grown) =~= draw_ranges(initial, balls).push(total)) by {
                assert forall|k: int| 0 <= k < grown.len() implies #[trigger] draw_ranges(
                    initial,
                    grown,
                )[k] == draw_ranges(initial, balls).push(total)[k] by {
                    if k < balls.len() {
                        assert(grown.take(k) =~= balls.take(k));
                    } else {
                        assert(grown.take(k) =~= balls);
                    }
                }
            }
            assert(seeded_balls(seed, initial, grown.len()) == grown);
            balls = grown;
        }
        pick_number += 1;
    }
    proof {
        broadcast use vstd::seq_lib::group_to_multiset_ensures;
        broadcast use vstd::multiset::group_multiset_properties;

        assert(pool@.len() == 0);
        assert(pool@.to_multiset().len() == 0);
        assert(lottery_balls().len() == 6);
        assert(balls.len() == 6);
    }
    Ok((picks, log))
}

} // verus!
