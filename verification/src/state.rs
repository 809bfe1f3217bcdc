//! The whole simulation: the economy, the faction that subverts it, the
//! cursor that picks where operatives are moved, and the headlines so far.

use vstd::prelude::*;
use crate::building::Building;
use crate::dice::{lemma_every_draw_may_be, may_be, wins, Stream};
use crate::economy::Economy;
use crate::headline::headlines_of;
use crate::nihilists::{Faction, Incidents, Nihilists, Role, Target};

verus! {

/// The rightmost column of the cursor: one column for the faction's own
/// ranks, then one for each building.
pub const LAST_COLUMN: usize = 4;

/// The lowest row of the cursor.
pub const LAST_ROW: usize = 2;

/// The simulation at one moment.
pub struct State {
    pub economy: Economy,
    pub nihilists: Nihilists,
    /// The cursor: column and row.
    pub control: (usize, usize),
    /// Every headline so far, the latest day first.
    pub headlines: Vec<String>,
}

/// The simulation as plain values.
pub ghost struct StateView {
    pub economy: Economy,
    pub faction: Faction,
    pub control: (usize, usize),
    pub headlines: Seq<Seq<char>>,
}

/// Whether a cursor points at a place that exists.
pub open spec fn on_board(control: (usize, usize)) -> bool {
    control.0 <= LAST_COLUMN && control.1 <= LAST_ROW
}

/// The place that a cursor points at. Column 0 holds the faction's own
/// ranks; column `c` above it holds the three roles at building `c - 1`.
pub open spec fn target_at(control: (usize, usize)) -> Target {
    if control.0 == 0 {
        if control.1 == 0 {
            Target::Undercover
        } else if control.1 == 1 {
            Target::Recruiters
        } else {
            Target::Hitmen
        }
    } else {
        let building = Building::at(control.0 - 1);
        if control.1 == 0 {
            Target::Post(Role::Agitator, building)
        } else if control.1 == 1 {
            Target::Post(Role::Saboteur, building)
        } else {
            Target::Post(Role::Embezzler, building)
        }
    }
}

impl StateView {
    /// The place that the cursor points at.
    pub open spec fn target(self) -> Target {
        target_at(self.control)
    }

    /// The state a day later, for given incidents and a given outcome of
    /// the day's recruiting: the economy resolves the day against the
    /// faction as it stood, the faction then ends its own day, and the day's
    /// headlines go in front of the earlier ones.
    pub open spec fn after(self, incidents: Incidents, recruited: bool) -> StateView {
        StateView {
            economy: self.economy.after(self.faction, incidents),
            faction: self.faction.advanced(recruited),
            control: self.control,
            headlines: headlines_of(self.economy.day as nat, incidents) + self.headlines,
        }
    }

    /// How many draws a day takes: the economy's, then one for the recruiting.
    pub open spec fn draws_a_day(self) -> nat {
        self.faction.draws_a_day() + 1
    }

    /// The state a day later, for given draws: the first of them decide the
    /// economy's incidents, and the last decides the recruiting.
    pub open spec fn after_draws(self, draws: Seq<u32>) -> StateView {
        let economys = self.faction.draws_a_day() as int;
        self.after(
            self.faction.incidents_of(draws.take(economys)),
            wins(self.faction.recruit_likelihood(), draws[economys]),
        )
    }

    /// The state once an operative has moved from undercover to the place
    /// under the cursor; unchanged where none can.
    pub open spec fn plus(self) -> StateView {
        StateView { faction: self.faction.assigned(self.target()), ..self }
    }

    /// The state once an operative has moved from the place under the
    /// cursor back undercover; unchanged where none can.
    pub open spec fn minus(self) -> StateView {
        StateView { faction: self.faction.recalled(self.target()), ..self }
    }

    /// Whether `next` is a state that a day can lead to from here, for
    /// some outcome of the day's chances.
    pub open spec fn may_become(self, next: StateView) -> bool {
        exists|incidents: Incidents, recruited: bool|
            {
                &&& self.faction.allows(incidents)
                &&& may_be(self.faction.recruit_likelihood(), recruited)
                &&& next == #[trigger] self.after(incidents, recruited)
            }
    }
}

impl View for State {
    type V = StateView;

    open spec fn view(&self) -> StateView {
        StateView {
            economy: self.economy,
            faction: self.nihilists@,
            control: self.control,
            headlines: self.headlines.deep_view(),
        }
    }
}

/// Appends copies of the lines in `earlier` to `lines`.
fn append_lines(lines: &mut Vec<String>, earlier: &Vec<String>)
    ensures
        final(lines).deep_view() == old(lines).deep_view() + earlier.deep_view(),
{
    let mut i: usize = 0;
    while i < earlier.len()
        invariant
            i <= earlier.len(),
            lines.deep_view() == old(lines).deep_view() + earlier.deep_view().take(i as int),
        decreases earlier.len() - i,
    {
        let ghost before = lines.deep_view();
        let line: String = earlier[i].clone();
        assert(line@ == earlier.deep_view()[i as int]);
        lines.push(line);
        assert(lines.deep_view() =~= before.push(line@));
        assert(lines.deep_view() =~= old(lines).deep_view() + earlier.deep_view().take(i + 1));
        i += 1;
    }
    assert(earlier.deep_view().take(i as int) =~= earlier.deep_view());
}

impl State {
    /// The starting state, with a stream of chance fixed by `seed`.
    pub fn seeded(seed: u64) -> (r: State)
        ensures
            r@.economy == Economy::initial(),
            r@.faction == Faction::initial(),
            r@.control == (0usize, 0usize),
            r@.headlines == Seq::<Seq<char>>::empty(),
            r.nihilists.rng@ == Stream::untouched(Some(seed)),
    {
        let r = State {
            economy: Economy::default(),
            nihilists: Nihilists::seeded(seed),
            control: (0, 0),
            headlines: Vec::new(),
        };
        assert(r@.headlines =~= Seq::<Seq<char>>::empty());
        r
    }

    /// The state a day later, for given incidents and a given outcome of
    /// the day's recruiting. The source of chance is not drawn on.
    pub fn resolve(&self, incidents: &Incidents, recruited: bool) -> (r: State)
        requires
            self.economy.day < usize::MAX,
        ensures
            r@ == self@.after(*incidents, recruited),
            r.nihilists.rng@ == self.nihilists.rng@,
    {
        let (economy, mut headlines): (Economy, Vec<String>) = self.economy.resolve(
            &self.nihilists,
            incidents,
        );
        append_lines(&mut headlines, &self.headlines);
        let mut nihilists: Nihilists = self.nihilists.clone();
        nihilists.enlist(recruited);
        State { economy, nihilists, control: self.control, headlines }
    }

    /// The state a day later: the economy's day, with the incidents that
    /// chance brings, then the faction's. The draws taken decide both.
    pub fn next(&self) -> (r: State)
        requires
            self.economy.day < usize::MAX,
        ensures
            r.nihilists.rng@.extends(self.nihilists.rng@, self@.draws_a_day()),
            r@ == self@.after_draws(r.nihilists.rng@.since(self.nihilists.rng@)),
            self@.may_become(r@),
            r.economy.day == self.economy.day + 1,
            r.control == self.control,
    {
        let mut nihilists: Nihilists = self.nihilists.clone();
        let (economy, mut headlines): (Economy, Vec<String>) = self.economy.next(&mut nihilists);
        append_lines(&mut headlines, &self.headlines);
        let advanced: Nihilists = nihilists.next();
        let r = State { economy, nihilists: advanced, control: self.control, headlines };
        proof {
            let start = self.nihilists.rng@;
            let economys = self@.faction.draws_a_day();
            advanced.rng@.lemma_extends_twice(nihilists.rng@, start, economys, 1);
            let draws = advanced.rng@.since(start);
            let incidents = self@.faction.incidents_of(draws.take(economys as int));
            let recruited = wins(self@.faction.recruit_likelihood(), draws[economys as int]);
            assert(draws[economys as int] == draws.skip(economys as int)[0]);
            Nihilists::lemma_drawn_incidents_allowed(self@.faction, draws.take(economys as int));
            lemma_every_draw_may_be(self@.faction.recruit_likelihood(), draws[economys as int]);
            assert(r@ == self@.after(incidents, recruited));
        }
        r
    }

    /// Moves the cursor up a row, unless it is in the top row.
    pub fn up(&mut self)
        ensures
            final(self).control.0 == old(self).control.0,
            final(self).control.1 == if old(self).control.1 > 0 {
                old(self).control.1 - 1
            } else {
                0
            },
            on_board(old(self).control) ==> on_board(final(self).control),
            final(self).economy == old(self).economy,
            final(self).nihilists == old(self).nihilists,
            final(self).headlines == old(self).headlines,
    {
        if self.control.1 > 0 {
            self.control.1 -= 1;
        }
    }

    /// Moves the cursor down a row, unless it is in the lowest row or below.
    pub fn down(&mut self)
        ensures
            final(self).control.0 == old(self).control.0,
            final(self).control.1 == if old(self).control.1 < LAST_ROW {
                old(self).control.1 + 1
            } else {
                old(self).control.1 as int
            },
            on_board(old(self).control) ==> on_board(final(self).control),
            final(self).economy == old(self).economy,
            final(self).nihilists == old(self).nihilists,
            final(self).headlines == old(self).headlines,
    {
        if self.control.1 < LAST_ROW {
            self.control.1 += 1;
        }
    }

    /// Moves the cursor a column to the left, unless it is in the leftmost column.
    pub fn left(&mut self)
        ensures
            final(self).control.1 == old(self).control.1,
            final(self).control.0 == if old(self).control.0 > 0 {
                old(self).control.0 - 1
            } else {
                0
            },
            on_board(old(self).control) ==> on_board(final(self).control),
            final(self).economy == old(self).economy,
            final(self).nihilists == old(self).nihilists,
            final(self).headlines == old(self).headlines,
    {
        if self.control.0 > 0 {
            self.control.0 -= 1;
        }
    }

    /// Moves the cursor a column to the right, unless it is in the
    /// rightmost column or beyond.
    pub fn right(&mut self)
        ensures
            final(self).control.1 == old(self).control.1,
            final(self).control.0 == if old(self).control.0 < LAST_COLUMN {
                old(self).control.0 + 1
            } else {
                old(self).control.0 as int
            },
            on_board(old(self).control) ==> on_board(final(self).control),
            final(self).economy == old(self).economy,
            final(self).nihilists == old(self).nihilists,
            final(self).headlines == old(self).headlines,
    {
        if self.control.0 < LAST_COLUMN {
            self.control.0 += 1;
        }
    }

    /// The place that the cursor points at.
    pub fn target(&self) -> (r: Target)
        requires
            on_board(self.control),
        ensures
            r == self@.target(),
    {
        let (column, row): (usize, usize) = self.control;
        if column == 0 {
            if row == 0 {
                Target::Undercover
            } else if row == 1 {
                Target::Recruiters
            } else {
                Target::Hitmen
            }
        } else {
            let building: Building = Building::from(column - 1);
            if row == 0 {
                Target::Post(Role::Agitator, building)
            } else if row == 1 {
                Target::Post(Role::Saboteur, building)
            } else {
                Target::Post(Role::Embezzler, building)
            }
        }
    }

    /// Moves one operative from undercover to the place under the cursor.
    /// Does nothing if nobody is undercover, or if the cursor is on the
    /// undercover pool itself.
    pub fn plus(&mut self)
        requires
            on_board(old(self).control),
            old(self)@.faction.can_assign(old(self)@.target()) ==> old(self)@.faction.posted(
                old(self)@.target(),
            ) < usize::MAX,
        ensures
            final(self)@ == old(self)@.plus(),
            final(self).nihilists.rng == old(self).nihilists.rng,
    {
        let target: Target = self.target();
        self.nihilists.assign(&target);
    }

    /// Moves one operative from the place under the cursor back undercover.
    /// Does nothing if nobody is counted there, or if the cursor is on the
    /// undercover pool itself.
    pub fn minus(&mut self)
        requires
            on_board(old(self).control),
            old(self)@.faction.can_recall(old(self)@.target()) ==> old(self)@.faction.undercover
                < usize::MAX,
        ensures
            final(self)@ == old(self)@.minus(),
            final(self).nihilists.rng == old(self).nihilists.rng,
    {
        let target: Target = self.target();
        self.nihilists.recall(&target);
    }
}

impl State {
    /// Moving an operative to the place under the cursor and moving one
    /// back leaves everything as it was: the number undercover, the number
    /// at that place, and all the rest. This holds wherever the first move
    /// could be made, and wherever there was nobody to move back.
    pub proof fn lemma_plus_then_minus(state: StateView)
        requires
            state.faction.complete(),
            state.faction.can_assign(state.target()) || !state.faction.can_recall(state.target()),
        ensures
            state.plus().minus() == state,
            state.plus().minus().faction.undercover == state.faction.undercover,
            state.plus().minus().faction.posted(state.target()) == state.faction.posted(
                state.target(),
            ),
    {
        Nihilists::lemma_assign_then_recall(state.faction, state.target());
    }

    /// The faction of a state always has a count for every role at every building.
    pub proof fn lemma_faction_complete(self)
        ensures
            self@.faction.complete(),
    {
        self.nihilists.lemma_always_complete();
    }
}

impl Default for State {
    /// The starting state, with a source of chance seeded by the operating system.
    fn default() -> (r: State)
        ensures
            r@.economy == Economy::initial(),
            r@.faction == Faction::initial(),
            r@.control == (0usize, 0usize),
            r@.headlines == Seq::<Seq<char>>::empty(),
            r.nihilists.rng@ == Stream::untouched(None) || r.nihilists.rng@ == Stream::untouched(
                Some(0),
            ),
    {
        let r = State {
            economy: Economy::default(),
            nihilists: Nihilists::default(),
            control: (0, 0),
            headlines: Vec::new(),
        };
        assert(r@.headlines =~= Seq::<Seq<char>>::empty());
        r
    }
}

} // verus!
