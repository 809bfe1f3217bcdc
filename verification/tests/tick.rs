use nihilism::building::{Building, Resource};
use nihilism::dice::Dice;
use nihilism::economy::Economy;
use nihilism::nihilists::{Incidents, Nihilists};

fn quiet() -> Incidents {
    Incidents::none()
}

fn settled(food: usize, population: usize, population_cap: usize, day: usize) -> Economy {
    Economy {
        food,
        wood: 0,
        stone: 0,
        iron: 0,
        storage: 200,
        efficiency: 1000,
        population,
        population_cap,
        day,
    }
}

#[test]
fn economy_default_values() {
    let economy = Economy::default();
    assert_eq!(
        economy,
        Economy {
            food: 20,
            wood: 0,
            stone: 0,
            iron: 0,
            storage: 200,
            efficiency: 1000,
            population: 10,
            population_cap: 20,
            day: 0,
        }
    );
}

#[test]
fn first_day_from_the_defaults() {
    let economy = Economy::default();
    let nils = Nihilists::seeded(1);
    let (next, lines) = economy.resolve(&nils, &quiet());
    // Spring: 15 food fresh, 35 in all; 10 eaten, 25 spare; one birth.
    assert_eq!(next.food, 24);
    assert_eq!(next.population, 11);
    assert_eq!(
        next,
        Economy {
            food: 24,
            wood: 1,
            stone: 0,
            iron: 0,
            storage: 201,
            efficiency: 1000,
            population: 11,
            population_cap: 21,
            day: 1,
        }
    );
    assert_eq!(lines, vec!["[Day   0] Another lovely day!".to_string()]);
}

#[test]
fn next_from_the_defaults_is_the_quiet_day() {
    for seed in 0..10 {
        let mut nils = Nihilists::seeded(seed);
        let economy = Economy::default();
        let (next, lines) = economy.next(&mut nils);
        let (expected, expected_lines) = economy.resolve(&nils, &quiet());
        assert_eq!(next, expected);
        assert_eq!(lines, expected_lines);
        assert_eq!(nils.undercover, 10);
        assert_eq!(nils.efficiency, 1000);
    }
}

#[test]
fn next_resolves_the_incidents_that_it_draws() {
    for seed in 0..10 {
        let mut nils = Nihilists::seeded(seed);
        for building in Building::all() {
            nils.saboteurs.set(&building, 1);
        }
        nils.hitmen = 4;
        nils.efficiency = 50_000;
        let mut twin = nils.clone();
        let economy = settled(150, 100, 150, 20);
        let incidents = twin.incidents();
        let (next, lines) = economy.next(&mut nils);
        let (expected, expected_lines) = economy.resolve(&twin, &incidents);
        assert_eq!(next, expected);
        assert_eq!(lines, expected_lines);
    }
}

#[test]
fn day_advances_by_exactly_one() {
    let nils = Nihilists::seeded(1);
    for day in [0usize, 1, 67, 68, 1000, usize::MAX - 1] {
        let (next, _) = settled(20, 10, 20, day).resolve(&nils, &quiet());
        assert_eq!(next.day, day + 1);
    }
}

#[test]
fn stockpiles_are_capped_at_the_storage() {
    let nils = Nihilists::seeded(1);
    let economy = Economy {
        food: 500,
        wood: 300,
        stone: 250,
        iron: 101,
        storage: 100,
        efficiency: 1000,
        population: 10,
        population_cap: 10,
        day: 0,
    };
    let (next, _) = economy.resolve(&nils, &quiet());
    assert_eq!(next.food, 100);
    assert_eq!(next.wood, 100);
    assert_eq!(next.stone, 100);
    assert_eq!(next.iron, 100);
    assert_eq!(next.storage, 101);
    assert_eq!(next.population, 10);
}

#[test]
fn stockpiles_stay_within_storage_over_many_days() {
    let mut nils = Nihilists::seeded(8);
    nils.hitmen = 1;
    nils.saboteurs.set(&Building::Quarry, 10);
    let mut economy = Economy::default();
    for _ in 0..400 {
        let before = economy.day;
        let (next, lines) = economy.next(&mut nils);
        assert!(next.food <= next.storage);
        assert!(next.wood <= next.storage);
        assert!(next.stone <= next.storage);
        assert!(next.iron <= next.storage);
        assert!(next.storage >= economy.storage);
        assert_eq!(next.day, before + 1);
        assert!(!lines.is_empty());
        economy = next;
    }
}

#[test]
fn sabotage_stops_the_day_of_one_building() {
    let nils = Nihilists::seeded(1);
    let mut incidents = quiet();
    incidents.hunting = true;
    let (next, lines) = Economy::default().resolve(&nils, &incidents);
    // No fresh food: 20 in stock, 10 eaten, 10 spare, no birth.
    assert_eq!(next.food, 10);
    assert_eq!(next.population, 10);
    assert_eq!(next.wood, 1);
    assert_eq!(next.storage, 201);
    assert_eq!(
        lines,
        vec!["[Day   0] Hunting accident involving a bad arrows suspends meat production!"
            .to_string()]
    );
}

#[test]
fn sabotage_leaves_the_stockpile_alone() {
    let nils = Nihilists::seeded(1);
    let mut economy = Economy::default();
    economy.wood = 7;
    economy.stone = 5;
    let mut incidents = quiet();
    incidents.lumberyard = true;
    incidents.quarry = true;
    let (next, lines) = economy.resolve(&nils, &incidents);
    assert_eq!(next.wood, 6);
    assert_eq!(next.stone, 4);
    assert_eq!(next.population_cap, 21);
    assert_eq!(next.storage, 201);
    assert_eq!(lines.len(), 2);
}

#[test]
fn agitators_cut_the_fresh_production_only() {
    let mut nils = Nihilists::seeded(1);
    nils.agitators.set(&Building::Hunting, 1);
    let (next, _) = Economy::default().resolve(&nils, &quiet());
    // 15 fresh less a tenth is 13; with 20 in stock 33; 10 eaten; one birth.
    assert_eq!(next.food, 22);
    assert_eq!(next.population, 11);
}

#[test]
fn embezzlers_cut_stock_and_production_together() {
    let mut nils = Nihilists::seeded(1);
    nils.embezzlers.set(&Building::Hunting, 1);
    let (next, _) = Economy::default().resolve(&nils, &quiet());
    // 35 in all less a hundredth is 34; 10 eaten; one birth.
    assert_eq!(next.food, 23);
    assert_eq!(next.population, 11);
}

#[test]
fn harvest_is_what_feeding_starts_from() {
    let mut nils = Nihilists::seeded(1);
    let economy = Economy::default();
    assert_eq!(economy.harvest(&nils, &quiet(), Building::Hunting), 35);
    assert_eq!(economy.harvest(&nils, &quiet(), Building::Lumberyard), 2);
    assert_eq!(economy.harvest(&nils, &quiet(), Building::Quarry), 1);
    assert_eq!(economy.harvest(&nils, &quiet(), Building::Mine), 0);
    nils.efficiency = 2000;
    nils.agitators.set(&Building::Hunting, 1);
    assert_eq!(economy.harvest(&nils, &quiet(), Building::Hunting), 47);
    nils.embezzlers.set(&Building::Hunting, 2);
    assert_eq!(economy.harvest(&nils, &quiet(), Building::Hunting), 184);
}

#[test]
fn feed_with_a_surplus_brings_births() {
    let economy = settled(0, 10, 20, 0);
    assert_eq!(economy.feed(35), (24, 11));
    assert_eq!(economy.feed(10), (0, 10));
    assert_eq!(economy.feed(29), (19, 10));
    assert_eq!(economy.feed(30), (19, 11));
    assert_eq!(economy.feed(1010), (990, 20));
}

#[test]
fn feed_births_stop_at_the_housing() {
    assert_eq!(settled(0, 10, 12, 0).feed(1010), (998, 12));
    assert_eq!(settled(0, 10, 10, 0).feed(1010), (1000, 10));
    assert_eq!(settled(0, 10, 5, 0).feed(1010), (1000, 10));
}

#[test]
fn feed_with_a_shortage_brings_deaths() {
    let economy = settled(0, 10, 20, 0);
    assert_eq!(economy.feed(0), (0, 6));
    assert_eq!(economy.feed(5), (0, 8));
    assert_eq!(economy.feed(9), (0, 9));
    assert_eq!(settled(0, 1, 20, 0).feed(0), (0, 0));
    assert_eq!(settled(0, 100, 200, 0).feed(0), (0, 65));
}

#[test]
fn surplus_never_shrinks_the_population() {
    let nils = Nihilists::seeded(1);
    for population in 2..60 {
        for food in population..(population + 130) {
            let economy = settled(food, population, 50, 48);
            let (next, _) = economy.resolve(&nils, &quiet());
            assert!(next.population >= population);
        }
    }
}

#[test]
fn famine_shrinks_the_population() {
    let nils = Nihilists::seeded(1);
    let mut incidents = quiet();
    incidents.hunting = true;
    let (next, _) = settled(0, 10, 20, 0).resolve(&nils, &incidents);
    assert_eq!(next.population, 6);
    assert_eq!(next.food, 0);
    for population in 1..200usize {
        let (next, _) = settled(0, population, 300, 0).resolve(&nils, &incidents);
        assert_eq!(next.population, population - (population * 35 + 99) / 100);
        assert!(next.population < population);
    }
    let (next, _) = settled(0, 0, 20, 0).resolve(&nils, &incidents);
    assert_eq!(next.population, 0);
}

#[test]
fn winter_shortage() {
    let nils = Nihilists::seeded(1);
    // Winter: half a unit of food a head, a tenth of iron.
    let (next, _) = settled(0, 10, 20, 48).resolve(&nils, &quiet());
    assert_eq!(next.population, 8);
    assert_eq!(next.food, 0);
    assert_eq!(next.iron, 0);
    assert_eq!(next.efficiency, 1001);
    assert_eq!(next.day, 49);
}

#[test]
fn hitmen_cut_the_population_but_never_below_zero() {
    let nils = Nihilists::seeded(1);
    let mut incidents = quiet();
    incidents.hits = 3;
    let (next, lines) = Economy::default().resolve(&nils, &incidents);
    assert_eq!(next.population, 8);
    assert_eq!(next.food, 24);
    assert_eq!(
        lines,
        vec!["[Day   0] 3 found dead this morning. Authorities launch investigation.".to_string()]
    );
    incidents.hits = 11;
    let (next, _) = Economy::default().resolve(&nils, &incidents);
    assert_eq!(next.population, 0);
    incidents.hits = usize::MAX;
    let (next, _) = Economy::default().resolve(&nils, &incidents);
    assert_eq!(next.population, 0);
}

#[test]
fn upgrades_cost_one_unit_each() {
    let nils = Nihilists::seeded(1);
    let mut economy = settled(100, 0, 20, 0);
    economy.wood = 3;
    economy.stone = 1;
    economy.iron = 2;
    let (next, _) = economy.resolve(&nils, &quiet());
    assert_eq!(next.wood, 2);
    assert_eq!(next.stone, 0);
    assert_eq!(next.iron, 1);
    assert_eq!(next.population_cap, 21);
    assert_eq!(next.storage, 201);
    assert_eq!(next.efficiency, 1001);
    let (next, _) = settled(100, 0, 20, 0).resolve(&nils, &quiet());
    assert_eq!(next.population_cap, 20);
    assert_eq!(next.storage, 200);
    assert_eq!(next.efficiency, 1000);
}

#[test]
fn upgrades_saturate() {
    let nils = Nihilists::seeded(1);
    let economy = Economy {
        food: 0,
        wood: 1,
        stone: 1,
        iron: 1,
        storage: usize::MAX,
        efficiency: usize::MAX,
        population: 0,
        population_cap: usize::MAX,
        day: 0,
    };
    let (next, _) = economy.resolve(&nils, &quiet());
    assert_eq!(next.storage, usize::MAX);
    assert_eq!(next.efficiency, usize::MAX);
    assert_eq!(next.population_cap, usize::MAX);
}

#[test]
fn efficiency_raises_the_production() {
    let nils = Nihilists::seeded(1);
    let mut economy = settled(0, 10, 10, 10);
    economy.efficiency = 1100;
    // Summer: 3.5 a head, times 10 heads, times 1.1, is 38.5.
    let (next, _) = economy.resolve(&nils, &quiet());
    assert_eq!(next.food, 28);
}

#[test]
fn extinct_below_two() {
    assert!(settled(0, 0, 20, 0).extinct());
    assert!(settled(0, 1, 20, 0).extinct());
    assert!(!settled(0, 2, 20, 0).extinct());
    assert!(!Economy::default().extinct());
    assert!(!settled(0, usize::MAX, 20, 0).extinct());
}

#[test]
fn stock_reads_each_stockpile() {
    let economy = Economy {
        food: 1,
        wood: 2,
        stone: 3,
        iron: 4,
        storage: 5,
        efficiency: 6,
        population: 7,
        population_cap: 8,
        day: 9,
    };
    assert_eq!(economy.stock(Resource::Food), 1);
    assert_eq!(economy.stock(Resource::Wood), 2);
    assert_eq!(economy.stock(Resource::Stone), 3);
    assert_eq!(economy.stock(Resource::Iron), 4);
}

#[test]
fn fill_percent_of_the_storage() {
    let mut economy = Economy::default();
    assert_eq!(economy.fill_percent(Resource::Food), 10);
    assert_eq!(economy.fill_percent(Resource::Wood), 0);
    economy.food = 199;
    assert_eq!(economy.fill_percent(Resource::Food), 99);
    economy.food = 200;
    assert_eq!(economy.fill_percent(Resource::Food), 100);
    economy.food = 5000;
    assert_eq!(economy.fill_percent(Resource::Food), 100);
    economy.storage = 0;
    assert_eq!(economy.fill_percent(Resource::Food), 0);
    economy.storage = usize::MAX;
    economy.food = usize::MAX;
    assert_eq!(economy.fill_percent(Resource::Food), 100);
}

#[test]
fn next_takes_one_draw_for_each_building_and_hitman() {
    for hitmen in [0usize, 3] {
        let mut nils = Nihilists::seeded(51);
        nils.hitmen = hitmen;
        Economy::default().next(&mut nils);
        let mut twin = Dice::seeded(51);
        for _ in 0..(4 + hitmen) {
            twin.draw();
        }
        for _ in 0..4 {
            assert_eq!(nils.rng.draw(), twin.draw());
        }
    }
}
