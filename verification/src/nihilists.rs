//! The subversion model: covert operatives, their roles, and what they do
//! to a day of the settlement's economy.

use vstd::prelude::*;
use crate::building::Building;
use crate::dice::{
    lemma_every_draw_may_be, lemma_wins_among_may_win, may_be, may_win, threshold, trial, wins,
    wins_among, Dice, Stream,
};
use crate::fixed::{
    boost, boosted, compound, compounded, saturate, saturating_product, PER_MILLE,
};

verus! {

/// What one agitator leaves of a building's fresh production, in billionths,
/// at an efficiency of one.
pub const AGITATOR_MODIFIER: u64 = 900_000_000;

/// What one embezzler leaves of a stockpile, in billionths, at an efficiency of one.
pub const EMBEZZLER_MODIFIER: u64 = 990_000_000;

/// The likelihood that one saboteur stops a building for the day, in
/// hundredths, at an efficiency of one.
pub const SABOTEUR_LIKELIHOOD: usize = 1;

/// The likelihood that one recruiter brings in a new operative, in
/// hundredths, at an efficiency of one.
pub const RECRUITER_LIKELIHOOD: usize = 1;

/// The likelihood that one hitman kills, in hundredths, at an efficiency of one.
pub const HITMAN_LIKELIHOOD: usize = 1;

/// What each undercover operative adds to the efficiency per day, in thousandths.
pub const EFFICIENCY_STEP: usize = 1;

/// How many operatives are undercover at the start.
pub const INITIAL_UNDERCOVER: usize = 10;

/// How many operatives of one role work at each building. Every building
/// always has a count.
#[derive(Clone, Copy, Debug, PartialEq, Eq, Structural)]
pub struct Assignments {
    pub hunting: usize,
    pub lumberyard: usize,
    pub quarry: usize,
    pub mine: usize,
}

impl Assignments {
    /// The count at one building.
    pub open spec fn count(self, building: Building) -> nat {
        match building {
            Building::Hunting => self.hunting as nat,
            Building::Lumberyard => self.lumberyard as nat,
            Building::Quarry => self.quarry as nat,
            Building::Mine => self.mine as nat,
        }
    }

    /// The counts with nobody assigned anywhere.
    pub open spec fn nobody() -> Map<Building, nat> {
        Map::total(|b: Building| 0nat)
    }

    /// Nobody assigned anywhere.
    pub fn new() -> (r: Assignments)
        ensures
            r@ == Assignments::nobody(),
    {
        let r = Assignments { hunting: 0, lumberyard: 0, quarry: 0, mine: 0 };
        assert(r@ =~= Assignments::nobody());
        r
    }

    /// The count at a building.
    pub fn get(&self, building: &Building) -> (r: usize)
        ensures
            r == self@[*building],
    {
        match building {
            Building::Hunting => self.hunting,
            Building::Lumberyard => self.lumberyard,
            Building::Quarry => self.quarry,
            Building::Mine => self.mine,
        }
    }

    /// Puts another count at a building.
    pub fn set(&mut self, building: &Building, count: usize)
        ensures
            final(self)@ == old(self)@.insert(*building, count as nat),
    {
        match building {
            Building::Hunting => {
                self.hunting = count;
            },
            Building::Lumberyard => {
                self.lumberyard = count;
            },
            Building::Quarry => {
                self.quarry = count;
            },
            Building::Mine => {
                self.mine = count;
            },
        }
        assert(self@ =~= old(self)@.insert(*building, count as nat));
    }
}

impl View for Assignments {
    type V = Map<Building, nat>;

    /// The counts as a total map from buildings.
    open spec fn view(&self) -> Map<Building, nat> {
        Map::total(|b: Building| self.count(b))
    }
}

/// What an operative does at a building.
#[derive(Clone, Copy, Debug, PartialEq, Eq, Structural)]
pub enum Role {
    /// Cuts the building's fresh production.
    Agitator,
    /// May stop the building's production for a day.
    Saboteur,
    /// Takes a share of the building's stockpile.
    Embezzler,
}

/// A place in the faction to which operatives are counted.
#[derive(Clone, Copy, Debug, PartialEq, Eq, Structural)]
pub enum Target {
    /// Recruited and waiting for an assignment.
    Undercover,
    Recruiters,
    Hitmen,
    /// A role at a building.
    Post(Role, Building),
}

/// The subversion state as plain numbers: what the rules read and change.
pub ghost struct Faction {
    pub agitators: Map<Building, nat>,
    pub saboteurs: Map<Building, nat>,
    pub embezzlers: Map<Building, nat>,
    pub undercover: nat,
    pub recruiters: nat,
    pub hitmen: nat,
    /// In thousandths.
    pub efficiency: nat,
}

/// What chance brought on one day: which buildings were sabotaged, and how
/// many people the hitmen killed.
#[derive(Clone, Copy, Debug, PartialEq, Eq, Structural)]
pub struct Incidents {
    pub hunting: bool,
    pub lumberyard: bool,
    pub quarry: bool,
    pub mine: bool,
    pub hits: usize,
}

impl Incidents {
    /// Whether a building was sabotaged.
    pub open spec fn spec_sabotaged(self, building: Building) -> bool {
        match building {
            Building::Hunting => self.hunting,
            Building::Lumberyard => self.lumberyard,
            Building::Quarry => self.quarry,
            Building::Mine => self.mine,
        }
    }

    /// Whether nothing happened at all.
    pub open spec fn spec_quiet(self) -> bool {
        !self.hunting && !self.lumberyard && !self.quarry && !self.mine && self.hits == 0
    }

    /// A day on which nothing happened.
    pub fn none() -> (r: Incidents)
        ensures
            r.spec_quiet(),
    {
        Incidents { hunting: false, lumberyard: false, quarry: false, mine: false, hits: 0 }
    }

    /// Whether a building was sabotaged.
    pub fn sabotaged(&self, building: &Building) -> (r: bool)
        ensures
            r == self.spec_sabotaged(*building),
    {
        match building {
            Building::Hunting => self.hunting,
            Building::Lumberyard => self.lumberyard,
            Building::Quarry => self.quarry,
            Building::Mine => self.mine,
        }
    }

    /// Whether nothing happened at all.
    pub fn quiet(&self) -> (r: bool)
        ensures
            r == self.spec_quiet(),
    {
        !self.hunting && !self.lumberyard && !self.quarry && !self.mine && self.hits == 0
    }
}

impl Faction {
    /// The state in which every simulation starts: ten operatives undercover,
    /// nobody assigned, an efficiency of one.
    pub open spec fn initial() -> Faction {
        Faction {
            agitators: Assignments::nobody(),
            saboteurs: Assignments::nobody(),
            embezzlers: Assignments::nobody(),
            undercover: INITIAL_UNDERCOVER as nat,
            recruiters: 0,
            hitmen: 0,
            efficiency: PER_MILLE as nat,
        }
    }

    /// Every role has a count at every building.
    pub open spec fn complete(self) -> bool {
        &&& self.agitators.dom() == Set::<Building>::full()
        &&& self.saboteurs.dom() == Set::<Building>::full()
        &&& self.embezzlers.dom() == Set::<Building>::full()
    }

    /// What the agitators leave of a building's fresh production, in
    /// billionths: the agitator modifier times the efficiency, raised to the
    /// number of agitators at the building.
    pub open spec fn agitator_modifier(self, building: Building) -> int {
        compound(
            boosted(AGITATOR_MODIFIER as int, self.efficiency as int),
            self.agitators[building],
        )
    }

    /// What the embezzlers leave of a building's stockpile, in billionths: the
    /// embezzler modifier times the efficiency, raised to the number of
    /// embezzlers at the building.
    pub open spec fn embezzlement(self, building: Building) -> int {
        compound(
            boosted(EMBEZZLER_MODIFIER as int, self.efficiency as int),
            self.embezzlers[building],
        )
    }

    /// The likelihood that a building is sabotaged today, in hundred thousandths.
    pub open spec fn sabotage_likelihood(self, building: Building) -> int {
        threshold(
            self.saboteurs[building] as int,
            SABOTEUR_LIKELIHOOD as int,
            self.efficiency as int,
        )
    }

    /// The likelihood that one hitman kills today, in hundred thousandths.
    pub open spec fn hit_likelihood(self) -> int {
        threshold(1, HITMAN_LIKELIHOOD as int, self.efficiency as int)
    }

    /// The likelihood that a new operative is recruited today, in hundred thousandths.
    pub open spec fn recruit_likelihood(self) -> int {
        threshold(self.recruiters as int, RECRUITER_LIKELIHOOD as int, self.efficiency as int)
    }

    /// How many operatives are counted at a target.
    pub open spec fn posted(self, target: Target) -> nat {
        match target {
            Target::Undercover => self.undercover,
            Target::Recruiters => self.recruiters,
            Target::Hitmen => self.hitmen,
            Target::Post(Role::Agitator, building) => self.agitators[building],
            Target::Post(Role::Saboteur, building) => self.saboteurs[building],
            Target::Post(Role::Embezzler, building) => self.embezzlers[building],
        }
    }

    /// The faction with another count at a target.
    pub open spec fn with_posted(self, target: Target, count: nat) -> Faction {
        match target {
            Target::Undercover => Faction { undercover: count, ..self },
            Target::Recruiters => Faction { recruiters: count, ..self },
            Target::Hitmen => Faction { hitmen: count, ..self },
            Target::Post(Role::Agitator, building) => Faction {
                agitators: self.agitators.insert(building, count),
                ..self
            },
            Target::Post(Role::Saboteur, building) => Faction {
                saboteurs: self.saboteurs.insert(building, count),
                ..self
            },
            Target::Post(Role::Embezzler, building) => Faction {
                embezzlers: self.embezzlers.insert(building, count),
                ..self
            },
        }
    }

    /// Whether an operative can move from undercover to the target.
    pub open spec fn can_assign(self, target: Target) -> bool {
        self.undercover > 0 && target != Target::Undercover
    }

    /// Whether an operative can move from the target back undercover.
    pub open spec fn can_recall(self, target: Target) -> bool {
        self.posted(target) > 0 && target != Target::Undercover
    }

    /// The faction once an operative has moved from undercover to the
    /// target; unchanged where none can.
    pub open spec fn assigned(self, target: Target) -> Faction {
        if self.can_assign(target) {
            Faction { undercover: (self.undercover - 1) as nat, ..self }.with_posted(
                target,
                self.posted(target) + 1,
            )
        } else {
            self
        }
    }

    /// The faction once an operative has moved from the target back
    /// undercover; unchanged where none can.
    pub open spec fn recalled(self, target: Target) -> Faction {
        if self.can_recall(target) {
            Faction { undercover: self.undercover + 1, ..self }.with_posted(
                target,
                (self.posted(target) - 1) as nat,
            )
        } else {
            self
        }
    }

    /// Whether chance can bring these incidents on a day of this faction.
    pub open spec fn allows(self, incidents: Incidents) -> bool {
        &&& forall|b: Building|
            may_be(self.sabotage_likelihood(b), #[trigger] incidents.spec_sabotaged(b))
        &&& may_win(self.hit_likelihood(), self.hitmen, incidents.hits as nat)
    }

    /// The incidents that given draws bring: the first four decide the
    /// sabotage of the four buildings in enumeration order, and each one
    /// after them decides whether one hitman kills.
    pub open spec fn incidents_of(self, draws: Seq<u32>) -> Incidents {
        Incidents {
            hunting: wins(self.sabotage_likelihood(Building::Hunting), draws[0]),
            lumberyard: wins(self.sabotage_likelihood(Building::Lumberyard), draws[1]),
            quarry: wins(self.sabotage_likelihood(Building::Quarry), draws[2]),
            mine: wins(self.sabotage_likelihood(Building::Mine), draws[3]),
            hits: wins_among(self.hit_likelihood(), draws.skip(4)) as usize,
        }
    }

    /// How many draws a day of the economy takes: one for each building
    /// and one for each hitman.
    pub open spec fn draws_a_day(self) -> nat {
        4 + self.hitmen
    }

    /// The faction a day later: one more operative undercover if one was
    /// recruited, and an efficiency raised by one step for each operative
    /// then undercover.
    pub open spec fn advanced(self, recruited: bool) -> Faction {
        let undercover = if recruited {
            saturate((self.undercover + 1) as int) as nat
        } else {
            self.undercover
        };
        Faction {
            undercover,
            efficiency: saturate(self.efficiency + undercover * EFFICIENCY_STEP) as nat,
            ..self
        }
    }
}

/// The subversion state, with the source of chance that it draws on.
pub struct Nihilists {
    pub agitators: Assignments,
    pub saboteurs: Assignments,
    pub embezzlers: Assignments,
    pub undercover: usize,
    pub recruiters: usize,
    pub hitmen: usize,
    /// In thousandths.
    pub efficiency: usize,
    /// The source of chance that the trials draw on.
    pub rng: Dice,
}

impl View for Nihilists {
    type V = Faction;

    open spec fn view(&self) -> Faction {
        Faction {
            agitators: self.agitators@,
            saboteurs: self.saboteurs@,
            embezzlers: self.embezzlers@,
            undercover: self.undercover as nat,
            recruiters: self.recruiters as nat,
            hitmen: self.hitmen as nat,
            efficiency: self.efficiency as nat,
        }
    }
}

impl Nihilists {
    /// The starting faction, drawing on the given source of chance.
    pub fn with_dice(rng: Dice) -> (r: Nihilists)
        ensures
            r@ == Faction::initial(),
            r.rng == rng,
    {
        Nihilists {
            agitators: Assignments::new(),
            saboteurs: Assignments::new(),
            embezzlers: Assignments::new(),
            undercover: INITIAL_UNDERCOVER,
            recruiters: 0,
            hitmen: 0,
            efficiency: PER_MILLE,
            rng,
        }
    }

    /// The starting faction, with a stream of chance fixed by `seed`.
    pub fn seeded(seed: u64) -> (r: Nihilists)
        ensures
            r@ == Faction::initial(),
            r.rng@ == Stream::untouched(Some(seed)),
    {
        Nihilists::with_dice(Dice::seeded(seed))
    }

    pub fn agitator_modifier(&self, building: &Building) -> (r: u64)
        ensures
            r == self@.agitator_modifier(*building),
    {
        compounded(boost(AGITATOR_MODIFIER, self.efficiency), self.agitators.get(building))
    }

    pub fn embezzlement(&self, building: &Building) -> (r: u64)
        ensures
            r == self@.embezzlement(*building),
    {
        compounded(boost(EMBEZZLER_MODIFIER, self.efficiency), self.embezzlers.get(building))
    }

    /// Whether the given draw has the building sabotaged.
    pub fn sabotaged_by(&self, building: &Building, draw: u32) -> (r: bool)
        ensures
            r == wins(self@.sabotage_likelihood(*building), draw),
    {
        trial(self.saboteurs.get(building), SABOTEUR_LIKELIHOOD, self.efficiency, draw)
    }

    /// Draws once and says whether the building is sabotaged today: the
    /// one draw taken decides it.
    pub fn sabotaged(&mut self, building: &Building) -> (r: bool)
        ensures
            final(self)@ == old(self)@,
            may_be(old(self)@.sabotage_likelihood(*building), r),
            final(self).rng@.extends(old(self).rng@, 1),
            r == wins(
                old(self)@.sabotage_likelihood(*building),
                final(self).rng@.since(old(self).rng@)[0],
            ),
    {
        let draw: u32 = self.rng.draw();
        proof {
            lemma_every_draw_may_be(self@.sabotage_likelihood(*building), draw);
            old(self).rng@.lemma_extends_nothing();
            old(self).rng@.lemma_extends_by_one(old(self).rng@, 0, draw);
        }
        self.sabotaged_by(building, draw)
    }

    /// Whether the given draw has one hitman kill.
    pub fn hit_by(&self, draw: u32) -> (r: bool)
        ensures
            r == wins(self@.hit_likelihood(), draw),
    {
        trial(1, HITMAN_LIKELIHOOD, self.efficiency, draw)
    }

    /// Draws once for each hitman and counts the kills: the draws that win.
    pub fn hit(&mut self) -> (r: usize)
        ensures
            final(self)@ == old(self)@,
            may_win(old(self)@.hit_likelihood(), old(self)@.hitmen, r as nat),
            final(self).rng@.extends(old(self).rng@, old(self)@.hitmen),
            r == wins_among(old(self)@.hit_likelihood(), final(self).rng@.since(old(self).rng@)),
    {
        let mut kills: usize = 0;
        let mut tried: usize = 0;
        proof {
            old(self).rng@.lemma_extends_nothing();
        }
        while tried < self.hitmen
            invariant
                self@ == old(self)@,
                tried <= self.hitmen,
                kills <= tried,
                self.rng@.extends(old(self).rng@, tried as nat),
                kills == wins_among(self@.hit_likelihood(), self.rng@.since(old(self).rng@)),
            decreases self.hitmen - tried,
        {
            let ghost before = self.rng@;
            let draw: u32 = self.rng.draw();
            proof {
                before.lemma_extends_by_one(old(self).rng@, tried as nat, draw);
                let taken = self.rng@.since(old(self).rng@);
                assert(self.rng@ == (Stream { drawn: before.drawn.push(draw), ..before }));
                assert(taken.drop_last() =~= before.since(old(self).rng@));
                assert(taken.last() == draw);
            }
            if self.hit_by(draw) {
                kills += 1;
            }
            tried += 1;
        }
        proof {
            lemma_wins_among_may_win(
                self@.hit_likelihood(),
                self.rng@.since(old(self).rng@),
            );
        }
        kills
    }

    /// Draws the day's chances in their fixed order: sabotage at each
    /// building in enumeration order, then the hitmen. The draws taken
    /// decide the incidents, each draw one trial.
    pub fn incidents(&mut self) -> (r: Incidents)
        ensures
            final(self)@ == old(self)@,
            old(self)@.allows(r),
            final(self).rng@.extends(old(self).rng@, old(self)@.draws_a_day()),
            r == old(self)@.incidents_of(final(self).rng@.since(old(self).rng@)),
    {
        let ghost start = self.rng@;
        let hunting: bool = self.sabotaged(&Building::Hunting);
        let ghost first = self.rng@;
        let lumberyard: bool = self.sabotaged(&Building::Lumberyard);
        let ghost second = self.rng@;
        let quarry: bool = self.sabotaged(&Building::Quarry);
        let ghost third = self.rng@;
        let mine: bool = self.sabotaged(&Building::Mine);
        let ghost fourth = self.rng@;
        let hits: usize = self.hit();
        proof {
            second.lemma_extends_twice(first, start, 1, 1);
            third.lemma_extends_twice(second, start, 2, 1);
            fourth.lemma_extends_twice(third, start, 3, 1);
            self.rng@.lemma_extends_twice(fourth, start, 4, self.hitmen as nat);
            let draws = self.rng@.since(start);
            let four = fourth.since(start);
            assert(four == first.since(start) + second.since(first) + third.since(second)
                + fourth.since(third));
            assert(draws.take(4) == four);
            assert(draws[0] == four[0] && draws[1] == four[1] && draws[2] == four[2] && draws[3]
                == four[3]);
        }
        Incidents { hunting, lumberyard, quarry, mine, hits }
    }

    /// Whether the given draw has a new operative recruited.
    pub fn recruited_by(&self, draw: u32) -> (r: bool)
        ensures
            r == wins(self@.recruit_likelihood(), draw),
    {
        trial(self.recruiters, RECRUITER_LIKELIHOOD, self.efficiency, draw)
    }

    /// Ends the faction's day: takes in the recruit, if there is one, and
    /// raises the efficiency.
    pub fn enlist(&mut self, recruited: bool)
        ensures
            final(self)@ == old(self)@.advanced(recruited),
            final(self).rng == old(self).rng,
    {
        if recruited {
            self.undercover = self.undercover.saturating_add(1);
        }
        self.efficiency = self.efficiency.saturating_add(
            saturating_product(self.undercover, EFFICIENCY_STEP),
        );
    }

    /// The faction a day later. At most one operative is recruited, however
    /// many recruiters there are; with no recruiter, none is. One draw is
    /// taken, and it decides the recruiting.
    pub fn next(&self) -> (r: Nihilists)
        ensures
            exists|recruited: bool|
                may_be(self@.recruit_likelihood(), recruited) && r@ == #[trigger] self@.advanced(
                    recruited,
                ),
            self.recruiters == 0 ==> r@ == self@.advanced(false),
            r.rng@.extends(self.rng@, 1),
            r@ == self@.advanced(wins(self@.recruit_likelihood(), r.rng@.since(self.rng@)[0])),
    {
        let mut cloned: Nihilists = self.clone();
        let draw: u32 = cloned.rng.draw();
        let recruited: bool = cloned.recruited_by(draw);
        proof {
            lemma_every_draw_may_be(self@.recruit_likelihood(), draw);
            if self.recruiters == 0 {
                Nihilists::lemma_no_recruiters(self@, recruited);
            }
            self.rng@.lemma_extends_nothing();
            self.rng@.lemma_extends_by_one(self.rng@, 0, draw);
        }
        cloned.enlist(recruited);
        cloned
    }

    /// Each role always has a count at each of the four buildings.
    pub proof fn lemma_always_complete(self)
        ensures
            self@.complete(),
    {
    }

    /// How many operatives are counted at a target.
    pub fn posted(&self, target: &Target) -> (r: usize)
        ensures
            r == self@.posted(*target),
    {
        match target {
            Target::Undercover => self.undercover,
            Target::Recruiters => self.recruiters,
            Target::Hitmen => self.hitmen,
            Target::Post(Role::Agitator, building) => self.agitators.get(building),
            Target::Post(Role::Saboteur, building) => self.saboteurs.get(building),
            Target::Post(Role::Embezzler, building) => self.embezzlers.get(building),
        }
    }

    fn post(&mut self, target: &Target, count: usize)
        ensures
            final(self)@ == old(self)@.with_posted(*target, count as nat),
            final(self).rng == old(self).rng,
    {
        match target {
            Target::Undercover => {
                self.undercover = count;
            },
            Target::Recruiters => {
                self.recruiters = count;
            },
            Target::Hitmen => {
                self.hitmen = count;
            },
            Target::Post(Role::Agitator, building) => {
                self.agitators.set(building, count);
            },
            Target::Post(Role::Saboteur, building) => {
                self.saboteurs.set(building, count);
            },
            Target::Post(Role::Embezzler, building) => {
                self.embezzlers.set(building, count);
            },
        }
    }

    /// Moves one operative from undercover to the target. Does nothing if
    /// nobody is undercover, or if the target is the undercover pool itself.
    pub fn assign(&mut self, target: &Target)
        requires
            old(self)@.can_assign(*target) ==> old(self)@.posted(*target) < usize::MAX,
        ensures
            final(self)@ == old(self)@.assigned(*target),
            final(self).rng == old(self).rng,
    {
        if self.undercover == 0 {
            return ;
        }
        match target {
            Target::Undercover => {},
            _ => {
                let count: usize = self.posted(target);
                self.undercover -= 1;
                self.post(target, count + 1);
            },
        }
    }

    /// Moves one operative from the target back undercover. Does nothing if
    /// nobody is counted at the target, or if the target is the undercover
    /// pool itself.
    pub fn recall(&mut self, target: &Target)
        requires
            old(self)@.can_recall(*target) ==> old(self)@.undercover < usize::MAX,
        ensures
            final(self)@ == old(self)@.recalled(*target),
            final(self).rng == old(self).rng,
    {
        match target {
            Target::Undercover => {},
            _ => {
                let count: usize = self.posted(target);
                if count > 0 {
                    self.undercover += 1;
                    self.post(target, count - 1);
                }
            },
        }
    }

    /// Assigning an operative to a target and recalling one from it leaves
    /// the faction as it was, provided the assignment could be made or
    /// there was nobody at the target to recall.
    pub proof fn lemma_assign_then_recall(faction: Faction, target: Target)
        requires
            faction.complete(),
            faction.can_assign(target) || !faction.can_recall(target),
        ensures
            faction.assigned(target).recalled(target) == faction,
            faction.assigned(target).recalled(target).undercover == faction.undercover,
            faction.assigned(target).recalled(target).posted(target) == faction.posted(target),
    {
        let there = faction.assigned(target);
        let back = there.recalled(target);
        assert(back.agitators =~= faction.agitators);
        assert(back.saboteurs =~= faction.saboteurs);
        assert(back.embezzlers =~= faction.embezzlers);
    }

    /// Whatever is drawn, the incidents that the draws bring are ones that
    /// chance can bring.
    pub proof fn lemma_drawn_incidents_allowed(faction: Faction, draws: Seq<u32>)
        requires
            draws.len() == faction.draws_a_day(),
            faction.hitmen <= usize::MAX,
        ensures
            faction.allows(faction.incidents_of(draws)),
    {
        lemma_every_draw_may_be(faction.sabotage_likelihood(Building::Hunting), draws[0]);
        lemma_every_draw_may_be(faction.sabotage_likelihood(Building::Lumberyard), draws[1]);
        lemma_every_draw_may_be(faction.sabotage_likelihood(Building::Quarry), draws[2]);
        lemma_every_draw_may_be(faction.sabotage_likelihood(Building::Mine), draws[3]);
        lemma_wins_among_may_win(faction.hit_likelihood(), draws.skip(4));
    }

    /// A day changes nothing of a faction but the number undercover, which
    /// rises by one at most, and the efficiency; neither ever falls.
    pub proof fn lemma_advance_never_lowers(faction: Faction, recruited: bool)
        requires
            faction.undercover <= usize::MAX,
            faction.efficiency <= usize::MAX,
        ensures
            faction.undercover <= faction.advanced(recruited).undercover <= faction.undercover + 1,
            faction.advanced(recruited).efficiency >= faction.efficiency,
            faction.advanced(recruited) == (Faction {
                undercover: faction.advanced(recruited).undercover,
                efficiency: faction.advanced(recruited).efficiency,
                ..faction
            }),
    {
    }

    /// With no recruiter nobody is recruited, whatever is drawn: the number
    /// undercover stays, and the efficiency rises by exactly one step for
    /// each operative undercover (up to the largest value it can hold).
    pub proof fn lemma_no_recruiters(faction: Faction, recruited: bool)
        requires
            faction.recruiters == 0,
            may_be(faction.recruit_likelihood(), recruited),
        ensures
            !recruited,
            faction.advanced(recruited).undercover == faction.undercover,
            faction.advanced(recruited).efficiency == saturate(
                faction.efficiency + faction.undercover * EFFICIENCY_STEP,
            ),
    {
        assert(faction.recruit_likelihood() == 0) by (nonlinear_arith)
            requires
                faction.recruit_likelihood() == 0 * (RECRUITER_LIKELIHOOD as int) * (
                faction.efficiency as int),
        ;
    }
}

impl Clone for Nihilists {
    /// A faction with the same numbers, whose source of chance continues
    /// this one's stream.
    fn clone(&self) -> (r: Nihilists)
        ensures
            r@ == self@,
            r.rng@ == self.rng@,
    {
        Nihilists {
            agitators: self.agitators,
            saboteurs: self.saboteurs,
            embezzlers: self.embezzlers,
            undercover: self.undercover,
            recruiters: self.recruiters,
            hitmen: self.hitmen,
            efficiency: self.efficiency,
            rng: self.rng.clone(),
        }
    }
}

impl Default for Nihilists {
    /// The starting faction, with a source of chance seeded by the
    /// operating system; where the system has no entropy to give, with the
    /// stream of seed zero.
    fn default() -> (r: Nihilists)
        ensures
            r@ == Faction::initial(),
            r.rng@ == Stream::untouched(None) || r.rng@ == Stream::untouched(Some(0)),
    {
        let rng: Dice = match Dice::fresh() {
            Some(dice) => dice,
            None => Dice::seeded(0),
        };
        Nihilists::with_dice(rng)
    }
}

} // verus!
