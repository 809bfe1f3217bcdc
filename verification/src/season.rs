//! The recurring four-season year.

use vstd::prelude::*;
use crate::building::Resource;

verus! {

/// A phase of the year, with its own length and per-capita yields.
#[derive(Clone, Copy, Debug, PartialEq, Eq, Structural)]
pub enum Season {
    Spring,
    Summer,
    Autumn,
    Winter,
}

/// The number of days in a year: the sum of the four seasons' lengths.
pub const YEAR: usize = 68;

impl Season {
    /// The length of this season in days.
    pub open spec fn spec_length(self) -> int {
        match self {
            Season::Spring => 10,
            Season::Summer => 23,
            Season::Autumn => 15,
            Season::Winter => 20,
        }
    }

    /// The day of the year on which this season begins: the total length of
    /// the seasons before it.
    pub open spec fn first_day(self) -> int {
        match self {
            Season::Spring => 0,
            Season::Summer => Season::Spring.spec_length(),
            Season::Autumn => Season::Spring.spec_length() + Season::Summer.spec_length(),
            Season::Winter => Season::Spring.spec_length() + Season::Summer.spec_length()
                + Season::Autumn.spec_length(),
        }
    }

    /// Whether `day` falls in this season.
    pub open spec fn covers(self, day: int) -> bool {
        self.first_day() <= day % (YEAR as int) < self.first_day() + self.spec_length()
    }

    /// The season in which `day` falls.
    pub open spec fn of_day(day: int) -> Season {
        if Season::Spring.covers(day) {
            Season::Spring
        } else if Season::Summer.covers(day) {
            Season::Summer
        } else if Season::Autumn.covers(day) {
            Season::Autumn
        } else {
            Season::Winter
        }
    }

    /// The daily yield of one resource per head, in tenths of a unit.
    pub open spec fn rate(self, resource: Resource) -> int {
        match (self, resource) {
            (Season::Spring, Resource::Food) => 15,
            (Season::Spring, Resource::Wood) => 2,
            (Season::Spring, Resource::Stone) => 1,
            (Season::Summer, Resource::Food) => 35,
            (Season::Autumn, Resource::Food) => 15,
            (Season::Autumn, Resource::Stone) => 1,
            (Season::Winter, Resource::Food) => 5,
            (Season::Winter, Resource::Iron) => 1,
            _ => 0,
        }
    }

    /// The plain name of this season.
    pub open spec fn spec_name(self) -> Seq<char> {
        match self {
            Season::Spring => "Spring"@,
            Season::Summer => "Summer"@,
            Season::Autumn => "Autumn"@,
            Season::Winter => "Winter"@,
        }
    }

    pub fn length(&self) -> (r: usize)
        ensures
            r == self.spec_length(),
            r > 0,
    {
        match self {
            Season::Spring => 10,
            Season::Summer => 23,
            Season::Autumn => 15,
            Season::Winter => 20,
        }
    }

    /// The per-capita daily yields `[food, wood, stone, iron]`, in tenths of a unit.
    pub fn production(&self) -> (r: [usize; 4])
        ensures
            forall|resource: Resource| r[resource.spec_index()] == #[trigger] self.rate(resource),
    {
        match self {
            Season::Spring => [15, 2, 1, 0],
            Season::Summer => [35, 0, 0, 0],
            Season::Autumn => [15, 0, 1, 0],
            Season::Winter => [5, 0, 0, 1],
        }
    }

    /// Every season once, in the order of the year.
    pub fn all() -> (r: [Season; 4])
        ensures
            r[0] == Season::Spring,
            r[1] == Season::Summer,
            r[2] == Season::Autumn,
            r[3] == Season::Winter,
    {
        [Season::Spring, Season::Summer, Season::Autumn, Season::Winter]
    }

    pub fn name(&self) -> (r: &'static str)
        ensures
            r@ == self.spec_name(),
    {
        match self {
            Season::Spring => "Spring",
            Season::Summer => "Summer",
            Season::Autumn => "Autumn",
            Season::Winter => "Winter",
        }
    }

    /// The seasons' lengths add up to the year.
    pub proof fn lemma_year_is_sum()
        ensures
            Season::Spring.spec_length() + Season::Summer.spec_length()
                + Season::Autumn.spec_length() + Season::Winter.spec_length() == YEAR,
    {
    }

    /// Every day falls in exactly one season: `of_day` names it, and no other
    /// season covers the day.
    pub proof fn lemma_exactly_one_season(day: nat, season: Season)
        ensures
            season.covers(day as int) <==> season == Season::of_day(day as int),
    {
    }

    /// The calendar repeats: a whole number of years later the season is the same.
    pub proof fn lemma_year_repeats(day: nat, years: nat)
        ensures
            Season::of_day(day + years * YEAR) == Season::of_day(day as int),
    {
        assert((day + years * 68) % 68 == day % 68) by (nonlinear_arith);
    }

    /// No two seasons share a name.
    pub proof fn lemma_names_distinct(a: Season, b: Season)
        ensures
            a.spec_name() == b.spec_name() ==> a == b,
    {
        reveal_strlit("Spring");
        reveal_strlit("Summer");
        reveal_strlit("Autumn");
        reveal_strlit("Winter");
        assert(Season::Spring.spec_name()[1] == 'p');
        assert(Season::Summer.spec_name()[1] == 'u');
        assert(Season::Autumn.spec_name()[1] == 'u');
        assert(Season::Winter.spec_name()[1] == 'i');
        assert(Season::Summer.spec_name()[0] == 'S');
        assert(Season::Autumn.spec_name()[0] == 'A');
    }
}

impl From<usize> for Season {
    /// Reduces the day to its offset in the year, then walks the seasons in
    /// order, taking each one's length off until the rest falls inside one.
    fn from(day: usize) -> (r: Season) {
        let seasons: [Season; 4] = Season::all();
        let mut rest: usize = day % YEAR;
        let mut i: usize = 0;
        while i < 3
            invariant
                i <= 3,
                seasons[0] == Season::Spring,
                seasons[1] == Season::Summer,
                seasons[2] == Season::Autumn,
                seasons[3] == Season::Winter,
                rest + seasons[i as int].first_day() == (day as int) % (YEAR as int),
                rest < YEAR,
            decreases 3 - i,
        {
            let season: Season = seasons[i];
            if rest < season.length() {
                return season;
            }
            rest -= season.length();
            i += 1;
        }
        seasons[3]
    }
}

impl vstd::std_specs::convert::FromSpecImpl<usize> for Season {
    open spec fn obeys_from_spec() -> bool {
        true
    }

    open spec fn from_spec(day: usize) -> Season {
        Season::of_day(day as int)
    }
}

} // verus!
