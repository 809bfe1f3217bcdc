//! The four resources and the four production sites that yield them.

use vstd::prelude::*;

verus! {

/// What the settlement stockpiles.
#[derive(Clone, Copy, Debug, Hash, PartialEq, Eq, PartialOrd, Ord, Structural)]
pub enum Resource {
    /// Feeds the population; a surplus brings births, a lack brings deaths.
    Food,
    /// A surplus raises the housing capacity.
    Wood,
    /// A surplus raises the storage capacity.
    Stone,
    /// A surplus raises the production efficiency.
    Iron,
}

/// A production site. Each yields one resource.
#[derive(Clone, Copy, Debug, Hash, PartialEq, Eq, PartialOrd, Ord, Structural)]
pub enum Building {
    Hunting,
    Lumberyard,
    Quarry,
    Mine,
}

/// How many buildings, and how many resources, there are.
pub const SITES: usize = 4;

impl Resource {
    /// The position of this resource in a production vector.
    pub open spec fn spec_index(self) -> int {
        match self {
            Resource::Food => 0,
            Resource::Wood => 1,
            Resource::Stone => 2,
            Resource::Iron => 3,
        }
    }

    pub fn index(self) -> (r: usize)
        ensures
            r == self.spec_index(),
            r < SITES,
    {
        match self {
            Resource::Food => 0,
            Resource::Wood => 1,
            Resource::Stone => 2,
            Resource::Iron => 3,
        }
    }
}

impl Building {
    /// The position of this building in the fixed enumeration order.
    pub open spec fn spec_index(self) -> int {
        match self {
            Building::Hunting => 0,
            Building::Lumberyard => 1,
            Building::Quarry => 2,
            Building::Mine => 3,
        }
    }

    /// The building at a position of the enumeration order.
    pub open spec fn at(index: int) -> Building {
        if index == 0 {
            Building::Hunting
        } else if index == 1 {
            Building::Lumberyard
        } else if index == 2 {
            Building::Quarry
        } else {
            Building::Mine
        }
    }

    /// The resource that this building yields.
    pub open spec fn spec_resource(self) -> Resource {
        match self {
            Building::Hunting => Resource::Food,
            Building::Lumberyard => Resource::Wood,
            Building::Quarry => Resource::Stone,
            Building::Mine => Resource::Iron,
        }
    }

    /// The plain name of this building.
    pub open spec fn spec_name(self) -> Seq<char> {
        match self {
            Building::Hunting => "Hunter's Lodge"@,
            Building::Lumberyard => "Lumberyard"@,
            Building::Quarry => "Quarry"@,
            Building::Mine => "Mine"@,
        }
    }

    pub fn index(self) -> (r: usize)
        ensures
            r == self.spec_index(),
            r < SITES,
    {
        match self {
            Building::Hunting => 0,
            Building::Lumberyard => 1,
            Building::Quarry => 2,
            Building::Mine => 3,
        }
    }

    /// The building at `index` of the enumeration order.
    pub fn from(index: usize) -> (r: Building)
        requires
            index < SITES,
        ensures
            r == Building::at(index as int),
            r.spec_index() == index,
    {
        if index == 0 {
            Building::Hunting
        } else if index == 1 {
            Building::Lumberyard
        } else if index == 2 {
            Building::Quarry
        } else {
            Building::Mine
        }
    }

    /// Every building once, in enumeration order.
    pub fn all() -> (r: [Building; 4])
        ensures
            forall|i: int| 0 <= i < 4 ==> r[i] == Building::at(i),
    {
        [Building::Hunting, Building::Lumberyard, Building::Quarry, Building::Mine]
    }

    #[verifier::when_used_as_spec(spec_resource)]
    pub fn resource(self) -> (r: Resource)
        ensures
            r == self.spec_resource(),
            r.spec_index() == self.spec_index(),
    {
        match self {
            Building::Hunting => Resource::Food,
            Building::Lumberyard => Resource::Wood,
            Building::Quarry => Resource::Stone,
            Building::Mine => Resource::Iron,
        }
    }

    pub fn name(self) -> (r: &'static str)
        ensures
            r@ == self.spec_name(),
    {
        match self {
            Building::Hunting => "Hunter's Lodge",
            Building::Lumberyard => "Lumberyard",
            Building::Quarry => "Quarry",
            Building::Mine => "Mine",
        }
    }

    /// Index and building determine each other: converting a building to its
    /// index and back gives the same building, and the other way round.
    pub proof fn lemma_index_round_trip(b: Building, index: int)
        ensures
            Building::at(b.spec_index()) == b,
            0 <= b.spec_index() < 4,
            0 <= index < 4 ==> Building::at(index).spec_index() == index,
    {
    }

    /// No two buildings share a name.
    pub proof fn lemma_names_distinct(a: Building, b: Building)
        ensures
            a.spec_name() == b.spec_name() ==> a == b,
    {
        reveal_strlit("Hunter's Lodge");
        reveal_strlit("Lumberyard");
        reveal_strlit("Quarry");
        reveal_strlit("Mine");
        assert(Building::Hunting.spec_name().len() == 14);
        assert(Building::Lumberyard.spec_name().len() == 10);
        assert(Building::Quarry.spec_name().len() == 6);
        assert(Building::Mine.spec_name().len() == 4);
    }
}

} // verus!
