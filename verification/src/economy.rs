//! The settlement's material state and its daily tick.

use vstd::prelude::*;
pub use crate::building::{Building, Resource};
use crate::fixed::{
    boosted, ceil_hundredths, daily_yield, floor_hundredths, hundredths_ceil, hundredths_floor,
    lemma_compound_bounds, lemma_scaled_bounds, lemma_yield_bounds, saturate, scale, scaled,
    yield_of, PER_MILLE,
};
use crate::headline::{headlines, headlines_of};
use crate::nihilists::{Faction, Incidents, Nihilists, AGITATOR_MODIFIER, EMBEZZLER_MODIFIER};
pub use crate::season::Season;

verus! {

/// How many births a unit of spare food brings, in hundredths.
pub const FOOD_TO_BABIES: usize = 5;

/// How many deaths a unit of missing food brings, in hundredths.
pub const FOOD_TO_DEATHS: usize = 35;

/// What a unit of iron adds to the efficiency, in thousandths.
pub const EFFICIENCY_STEP: usize = 1;

/// What a unit of stone adds to the storage capacity.
pub const STORAGE_STEP: usize = 1;

/// What a unit of wood adds to the housing capacity.
pub const HOUSING_STEP: usize = 1;

/// The settlement's material state on one day.
#[derive(Clone, Copy, Debug, PartialEq, Eq, Structural)]
pub struct Economy {
    pub food: usize,
    pub wood: usize,
    pub stone: usize,
    pub iron: usize,
    /// The most that can be kept of each resource.
    pub storage: usize,
    /// The production bonus, in thousandths.
    pub efficiency: usize,
    pub population: usize,
    /// The housing capacity: births stop where the population reaches it.
    pub population_cap: usize,
    pub day: usize,
}

/// The smaller of two numbers.
pub open spec fn lesser(a: int, b: int) -> int {
    if a < b {
        a
    } else {
        b
    }
}

/// What is left of a stockpile once a unit of it, if there is one, has
/// gone into an upgrade.
pub open spec fn less_one(amount: int) -> int {
    if amount > 0 {
        amount - 1
    } else {
        0
    }
}

/// `amount` raised by `step` if there was a unit to pay for the upgrade.
pub open spec fn upgraded(amount: int, step: int, paid_from: int) -> int {
    if paid_from > 0 {
        saturate(amount + step)
    } else {
        amount
    }
}

/// The smaller of an amount and a limit.
pub fn at_most(amount: usize, limit: usize) -> (r: usize)
    ensures
        r == lesser(amount as int, limit as int),
{
    if amount < limit {
        amount
    } else {
        limit
    }
}

impl Economy {
    /// The state in which every simulation starts.
    pub open spec fn initial() -> Economy {
        Economy {
            food: 20,
            wood: 0,
            stone: 0,
            iron: 0,
            storage: 200,
            efficiency: PER_MILLE,
            population: 10,
            population_cap: 20,
            day: 0,
        }
    }

    /// The stockpile of one resource.
    pub open spec fn spec_stock(self, resource: Resource) -> int {
        match resource {
            Resource::Food => self.food as int,
            Resource::Wood => self.wood as int,
            Resource::Stone => self.stone as int,
            Resource::Iron => self.iron as int,
        }
    }

    /// What a building produces today: nothing if it is sabotaged, else the
    /// season's rate for the whole population, at the economy's efficiency,
    /// less what the agitators cost.
    pub open spec fn fresh(self, faction: Faction, incidents: Incidents, building: Building)
        -> int {
        if incidents.spec_sabotaged(building) {
            0
        } else {
            daily_yield(
                Season::of_day(self.day as int).rate(building.spec_resource()),
                self.population as int,
                self.efficiency as int,
                faction.agitator_modifier(building),
            )
        }
    }

    /// What there is of a building's resource once today's production has
    /// joined the stockpile and the embezzlers have taken their share of both.
    pub open spec fn kept(self, faction: Faction, incidents: Incidents, building: Building)
        -> int {
        scaled(
            saturate(
                self.fresh(faction, incidents, building) + self.spec_stock(
                    building.spec_resource(),
                ),
            ),
            faction.embezzlement(building),
        )
    }

    /// How many more people the housing can take.
    pub open spec fn headroom(self) -> int {
        if self.population_cap >= self.population {
            self.population_cap - self.population
        } else {
            0
        }
    }

    /// The births when `food` feeds everyone: a share of the spare food, as
    /// far as there is room.
    pub open spec fn births(self, food: int) -> int {
        lesser(self.headroom(), hundredths_floor(food - self.population, FOOD_TO_BABIES as int))
    }

    /// The deaths when `food` does not feed everyone: a share of the missing
    /// food, rounded up.
    pub open spec fn deaths(self, food: int) -> int {
        hundredths_ceil(self.population - food, FOOD_TO_DEATHS as int)
    }

    /// The population once it has been fed from `food`.
    pub open spec fn fed_population(self, food: int) -> int {
        if food >= self.population {
            self.population + self.births(food)
        } else if self.deaths(food) <= self.population {
            self.population - self.deaths(food)
        } else {
            0
        }
    }

    /// What is left of `food` once the population has been fed from it and
    /// the newly born have had their share.
    pub open spec fn food_left(self, food: int) -> int {
        if food >= self.population {
            food - self.population - self.births(food)
        } else {
            0
        }
    }

    /// The population at the end of the day: fed, then less the hitmen's victims.
    pub open spec fn survivors(self, faction: Faction, incidents: Incidents) -> int {
        let fed = self.fed_population(self.kept(faction, incidents, Building::Hunting));
        if fed >= incidents.hits {
            fed - incidents.hits
        } else {
            0
        }
    }

    /// The economy a day later.
    ///
    /// The upgrades are paid from what is there after the feeding, and the
    /// stockpiles are capped at the storage as it stood in the morning.
    pub open spec fn after(self, faction: Faction, incidents: Incidents) -> Economy {
        let food = self.food_left(self.kept(faction, incidents, Building::Hunting));
        let wood = self.kept(faction, incidents, Building::Lumberyard);
        let stone = self.kept(faction, incidents, Building::Quarry);
        let iron = self.kept(faction, incidents, Building::Mine);
        let storage = self.storage as int;
        Economy {
            food: lesser(food, storage) as usize,
            wood: lesser(less_one(wood), storage) as usize,
            stone: lesser(less_one(stone), storage) as usize,
            iron: lesser(less_one(iron), storage) as usize,
            storage: upgraded(storage, STORAGE_STEP as int, stone) as usize,
            efficiency: upgraded(self.efficiency as int, EFFICIENCY_STEP as int, iron) as usize,
            population: self.survivors(faction, incidents) as usize,
            population_cap: upgraded(
                self.population_cap as int,
                HOUSING_STEP as int,
                wood,
            ) as usize,
            day: (self.day + 1) as usize,
        }
    }

    /// Whether the settlement has died out: fewer than two people are left.
    pub fn extinct(&self) -> (r: bool)
        ensures
            r <==> self.population < 2,
    {
        self.population < 2
    }

    /// The stockpile of one resource.
    pub fn stock(&self, resource: Resource) -> (r: usize)
        ensures
            r == self.spec_stock(resource),
    {
        match resource {
            Resource::Food => self.food,
            Resource::Wood => self.wood,
            Resource::Stone => self.stone,
            Resource::Iron => self.iron,
        }
    }

    /// The share of the storage that a resource fills, in whole per cent:
    /// nothing where there is no storage, and never more than a hundred.
    pub fn fill_percent(&self, resource: Resource) -> (r: u16)
        ensures
            r <= 100,
            self.storage == 0 ==> r == 0,
            self.storage > 0 ==> r == lesser(
                100 * self.spec_stock(resource) / (self.storage as int),
                100,
            ),
    {
        if self.storage == 0 {
            return 0;
        }
        let filled: u128 = 100 * (self.stock(resource) as u128) / (self.storage as u128);
        if filled >= 100 {
            100
        } else {
            filled as u16
        }
    }

    /// What there is of a building's resource before the population is fed
    /// and the upgrades are paid.
    pub fn harvest(&self, nils: &Nihilists, incidents: &Incidents, building: Building) -> (r:
        usize)
        ensures
            r == self.kept(nils@, *incidents, building),
    {
        let resource: Resource = building.resource();
        let fresh: usize = if incidents.sabotaged(&building) {
            0
        } else {
            let season: Season = Season::from(self.day);
            let rates: [usize; 4] = season.production();
            assert(rates[resource.spec_index()] == season.rate(resource));
            yield_of(
                rates[resource.index()],
                self.population,
                self.efficiency,
                nils.agitator_modifier(&building),
            )
        };
        let gathered: usize = fresh.saturating_add(self.stock(resource));
        scale(gathered, nils.embezzlement(&building))
    }

    /// Feeds the population from `food`: returns what is left of the food
    /// and the population after births or deaths.
    pub fn feed(&self, food: usize) -> (r: (usize, usize))
        ensures
            r.0 == self.food_left(food as int),
            r.1 == self.fed_population(food as int),
    {
        if food >= self.population {
            let spare: usize = food - self.population;
            let room: usize = self.population_cap.saturating_sub(self.population);
            let wanted: usize = floor_hundredths(spare, FOOD_TO_BABIES);
            let births: usize = at_most(room, wanted);
            (spare - births, self.population + births)
        } else {
            let missing: usize = self.population - food;
            let deaths: usize = ceil_hundredths(missing, FOOD_TO_DEATHS);
            (0, self.population.saturating_sub(deaths))
        }
    }

    /// The economy a day later and the day's headlines, for given incidents.
    ///
    /// In this order: each building produces, unless it is sabotaged; the
    /// production joins the stockpiles; the embezzlers take their share of
    /// both; the population is fed; the hitmen strike; a unit each of iron,
    /// stone and wood pays for more efficiency, storage and housing; and
    /// what exceeds the storage is lost.
    pub fn resolve(&self, nils: &Nihilists, incidents: &Incidents) -> (r: (Economy, Vec<String>))
        requires
            self.day < usize::MAX,
        ensures
            r.0 == self.after(nils@, *incidents),
            r.1.deep_view() == headlines_of(self.day as nat, *incidents),
    {
        let gathered_food: usize = self.harvest(nils, incidents, Building::Hunting);
        let mut wood: usize = self.harvest(nils, incidents, Building::Lumberyard);
        let mut stone: usize = self.harvest(nils, incidents, Building::Quarry);
        let mut iron: usize = self.harvest(nils, incidents, Building::Mine);

        let (food, fed): (usize, usize) = self.feed(gathered_food);
        let population: usize = fed.saturating_sub(incidents.hits);

        let mut efficiency: usize = self.efficiency;
        if iron > 0 {
            efficiency = efficiency.saturating_add(EFFICIENCY_STEP);
            iron -= 1;
        }
        let mut storage: usize = self.storage;
        if stone > 0 {
            storage = storage.saturating_add(STORAGE_STEP);
            stone -= 1;
        }
        let mut population_cap: usize = self.population_cap;
        if wood > 0 {
            population_cap = population_cap.saturating_add(HOUSING_STEP);
            wood -= 1;
        }

        let next: Economy = Economy {
            food: at_most(food, self.storage),
            wood: at_most(wood, self.storage),
            stone: at_most(stone, self.storage),
            iron: at_most(iron, self.storage),
            storage,
            efficiency,
            population,
            population_cap,
            day: self.day + 1,
        };
        (next, headlines(self.day, incidents))
    }

    /// Advances the economy by one day: draws the day's incidents from the
    /// faction's source of chance, then resolves the day with them.
    ///
    /// The faction's numbers are left as they were; only its source of
    /// chance moves on, by one draw for each building and each hitman, and
    /// those draws decide the day.
    pub fn next(&self, nils: &mut Nihilists) -> (r: (Economy, Vec<String>))
        requires
            self.day < usize::MAX,
        ensures
            final(nils)@ == old(nils)@,
            final(nils).rng@.extends(old(nils).rng@, old(nils)@.draws_a_day()),
            r.0 == self.after(
                old(nils)@,
                old(nils)@.incidents_of(final(nils).rng@.since(old(nils).rng@)),
            ),
            r.1.deep_view() == headlines_of(
                self.day as nat,
                old(nils)@.incidents_of(final(nils).rng@.since(old(nils).rng@)),
            ),
            exists|incidents: Incidents|
                old(nils)@.allows(incidents) && r.0 == #[trigger] self.after(
                    old(nils)@,
                    incidents,
                ) && r.1.deep_view() == headlines_of(self.day as nat, incidents),
            r.0.day == self.day + 1,
            r.0.food <= r.0.storage,
            r.0.wood <= r.0.storage,
            r.0.stone <= r.0.storage,
            r.0.iron <= r.0.storage,
    {
        let incidents: Incidents = nils.incidents();
        proof {
            Economy::lemma_stocks_within_storage(*self, nils@, incidents);
        }
        self.resolve(nils, &incidents)
    }

    /// Every amount that a day computes fits its field.
    pub proof fn lemma_amounts_in_range(self, faction: Faction, incidents: Incidents)
        ensures
            forall|b: Building| 0 <= #[trigger] self.kept(faction, incidents, b) <= usize::MAX,
            0 <= self.survivors(faction, incidents) <= usize::MAX,
    {
        assert forall|b: Building| 0 <= #[trigger] self.kept(faction, incidents, b)
            <= usize::MAX by {
            lemma_compound_bounds(
                boosted(AGITATOR_MODIFIER as int, faction.efficiency as int),
                faction.agitators[b],
            );
            lemma_compound_bounds(
                boosted(EMBEZZLER_MODIFIER as int, faction.efficiency as int),
                faction.embezzlers[b],
            );
            lemma_yield_bounds(
                Season::of_day(self.day as int).rate(b.spec_resource()),
                self.population as int,
                self.efficiency as int,
                faction.agitator_modifier(b),
            );
            lemma_scaled_bounds(
                saturate(self.fresh(faction, incidents, b) + self.spec_stock(b.spec_resource())),
                faction.embezzlement(b),
            );
        }
    }

    /// After a day no stockpile exceeds the storage, whatever happened.
    pub proof fn lemma_stocks_within_storage(
        economy: Economy,
        faction: Faction,
        incidents: Incidents,
    )
        ensures
            economy.after(faction, incidents).food <= economy.after(faction, incidents).storage,
            economy.after(faction, incidents).wood <= economy.after(faction, incidents).storage,
            economy.after(faction, incidents).stone <= economy.after(faction, incidents).storage,
            economy.after(faction, incidents).iron <= economy.after(faction, incidents).storage,
    {
        economy.lemma_amounts_in_range(faction, incidents);
    }

    /// A day never lowers the storage, the efficiency or the housing.
    pub proof fn lemma_upgrades_never_lower(
        economy: Economy,
        faction: Faction,
        incidents: Incidents,
    )
        ensures
            economy.after(faction, incidents).storage >= economy.storage,
            economy.after(faction, incidents).efficiency >= economy.efficiency,
            economy.after(faction, incidents).population_cap >= economy.population_cap,
    {
    }

    /// A day advances the day counter by exactly one.
    pub proof fn lemma_one_day_passes(economy: Economy, faction: Faction, incidents: Incidents)
        requires
            economy.day < usize::MAX,
        ensures
            economy.after(faction, incidents).day == economy.day + 1,
    {
    }

    /// Where at least two people live, nothing is sabotaged, the food feeds
    /// everyone and the hitmen kill nobody, the population does not shrink:
    /// it grows by the births.
    pub proof fn lemma_surplus_grows(economy: Economy, faction: Faction, incidents: Incidents)
        requires
            economy.population >= 2,
            !incidents.hunting && !incidents.lumberyard && !incidents.quarry && !incidents.mine,
            incidents.hits == 0,
            economy.kept(faction, incidents, Building::Hunting) >= economy.population,
        ensures
            economy.after(faction, incidents).population >= economy.population,
            economy.after(faction, incidents).population == economy.population + economy.births(
                economy.kept(faction, incidents, Building::Hunting),
            ),
    {
        economy.lemma_amounts_in_range(faction, incidents);
    }

    /// Where there is no food at all, nobody is born and the population
    /// falls by the deaths that its whole number brings, rounded up, and
    /// then by the hitmen's victims, but never below zero. A population
    /// above zero strictly shrinks.
    pub proof fn lemma_famine_shrinks(economy: Economy, faction: Faction, incidents: Incidents)
        requires
            economy.kept(faction, incidents, Building::Hunting) == 0,
        ensures
            economy.deaths(0) == hundredths_ceil(economy.population as int, FOOD_TO_DEATHS as int),
            economy.deaths(0) <= economy.population,
            economy.after(faction, incidents).population == if economy.population
                - economy.deaths(0) >= incidents.hits {
                economy.population - economy.deaths(0) - incidents.hits
            } else {
                0
            },
            economy.after(faction, incidents).food == 0,
            economy.population > 0 ==> economy.after(faction, incidents).population
                < economy.population,
    {
        economy.lemma_amounts_in_range(faction, incidents);
    }
}

impl Default for Economy {
    /// The state in which every simulation starts.
    fn default() -> (r: Economy)
        ensures
            r == Economy::initial(),
    {
        Economy {
            food: 20,
            wood: 0,
            stone: 0,
            iron: 0,
            storage: 200,
            efficiency: PER_MILLE,
            population: 10,
            population_cap: 20,
            day: 0,
        }
    }
}

} // verus!
