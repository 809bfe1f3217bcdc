use nihilism::building::Building;
use nihilism::dice::Dice;
use nihilism::economy::Economy;
use nihilism::nihilists::{Incidents, Role, Target};
use nihilism::state::State;

#[test]
fn state_starts_from_the_defaults() {
    for state in [State::seeded(1), State::default()] {
        assert_eq!(state.economy, Economy::default());
        assert_eq!(state.nihilists.undercover, 10);
        assert_eq!(state.control, (0, 0));
        assert!(state.headlines.is_empty());
    }
}

#[test]
fn cursor_stays_on_the_board() {
    let mut state = State::seeded(1);
    state.up();
    assert_eq!(state.control, (0, 0));
    state.left();
    assert_eq!(state.control, (0, 0));
    for row in 1..=2 {
        state.down();
        assert_eq!(state.control, (0, row));
    }
    state.down();
    assert_eq!(state.control, (0, 2));
    for column in 1..=4 {
        state.right();
        assert_eq!(state.control, (column, 2));
    }
    state.right();
    assert_eq!(state.control, (4, 2));
    state.up();
    assert_eq!(state.control, (4, 1));
    state.left();
    assert_eq!(state.control, (3, 1));
}

#[test]
fn cursor_moves_change_nothing_else() {
    let mut state = State::seeded(1);
    state.right();
    state.down();
    state.left();
    state.up();
    assert_eq!(state.economy, Economy::default());
    assert_eq!(state.nihilists.undercover, 10);
    assert!(state.headlines.is_empty());
}

#[test]
fn target_under_the_cursor() {
    let mut state = State::seeded(1);
    let roles = [Role::Agitator, Role::Saboteur, Role::Embezzler];
    let ranks = [Target::Undercover, Target::Recruiters, Target::Hitmen];
    for row in 0..3 {
        state.control = (0, row);
        assert_eq!(state.target(), ranks[row]);
        for column in 1..5 {
            state.control = (column, row);
            assert_eq!(state.target(), Target::Post(roles[row], Building::from(column - 1)));
        }
    }
}

#[test]
fn plus_moves_one_to_the_target() {
    let mut state = State::seeded(1);
    state.plus();
    assert_eq!(state.nihilists.undercover, 10);
    state.control = (0, 1);
    state.plus();
    assert_eq!(state.nihilists.recruiters, 1);
    assert_eq!(state.nihilists.undercover, 9);
    state.control = (0, 2);
    state.plus();
    state.plus();
    assert_eq!(state.nihilists.hitmen, 2);
    assert_eq!(state.nihilists.undercover, 7);
    state.control = (1, 0);
    state.plus();
    assert_eq!(state.nihilists.agitators.get(&Building::Hunting), 1);
    state.control = (2, 1);
    state.plus();
    assert_eq!(state.nihilists.saboteurs.get(&Building::Lumberyard), 1);
    state.control = (4, 2);
    state.plus();
    assert_eq!(state.nihilists.embezzlers.get(&Building::Mine), 1);
    assert_eq!(state.nihilists.undercover, 4);
}

#[test]
fn plus_with_nobody_undercover_does_nothing() {
    let mut state = State::seeded(1);
    state.nihilists.undercover = 0;
    for column in 0..5 {
        for row in 0..3 {
            state.control = (column, row);
            state.plus();
            assert_eq!(state.nihilists.undercover, 0);
            assert_eq!(state.nihilists.posted(&state.target()), 0);
        }
    }
}

#[test]
fn minus_moves_one_back() {
    let mut state = State::seeded(1);
    state.nihilists.recruiters = 1;
    state.nihilists.embezzlers.set(&Building::Quarry, 2);
    state.control = (0, 1);
    state.minus();
    assert_eq!(state.nihilists.recruiters, 0);
    assert_eq!(state.nihilists.undercover, 11);
    state.control = (3, 2);
    state.minus();
    assert_eq!(state.nihilists.embezzlers.get(&Building::Quarry), 1);
    assert_eq!(state.nihilists.undercover, 12);
}

#[test]
fn minus_with_nobody_at_the_target_does_nothing() {
    let mut state = State::seeded(1);
    for column in 0..5 {
        for row in 0..3 {
            state.control = (column, row);
            state.minus();
            assert_eq!(state.nihilists.undercover, 10);
            assert_eq!(state.nihilists.recruiters, 0);
            assert_eq!(state.nihilists.hitmen, 0);
        }
    }
}

#[test]
fn plus_then_minus_round_trip() {
    for column in 0..5 {
        for row in 0..3 {
            let mut state = State::seeded(1);
            state.control = (column, row);
            let target = state.target();
            let posted = state.nihilists.posted(&target);
            state.plus();
            state.minus();
            assert_eq!(state.nihilists.undercover, 10);
            assert_eq!(state.nihilists.posted(&target), posted);
            assert_eq!(state.control, (column, row));
        }
    }
}

#[test]
fn next_puts_the_new_headlines_first() {
    let state = State::seeded(1);
    let first = state.next();
    assert_eq!(first.economy.day, 1);
    assert_eq!(first.headlines, vec!["[Day   0] Another lovely day!".to_string()]);
    let second = first.next();
    assert_eq!(second.economy.day, 2);
    assert_eq!(
        second.headlines,
        vec![
            "[Day   1] Another lovely day!".to_string(),
            "[Day   0] Another lovely day!".to_string(),
        ]
    );
    assert_eq!(second.nihilists.undercover, 10);
    assert_eq!(second.nihilists.efficiency, 1020);
    assert!(state.headlines.is_empty());
    assert_eq!(state.economy.day, 0);
}

#[test]
fn next_keeps_the_cursor() {
    let mut state = State::seeded(1);
    state.control = (3, 1);
    let next = state.next();
    assert_eq!(next.control, (3, 1));
}

#[test]
fn next_from_the_defaults() {
    let next = State::seeded(9).next();
    assert_eq!(next.economy.food, 24);
    assert_eq!(next.economy.population, 11);
    assert_eq!(next.nihilists.efficiency, 1010);
}

#[test]
fn resolve_with_given_incidents() {
    let mut state = State::seeded(1);
    state.headlines.push("earlier".to_string());
    state.control = (2, 2);
    let incidents =
        Incidents { hunting: true, lumberyard: false, quarry: false, mine: true, hits: 2 };
    let next = state.resolve(&incidents, true);
    assert_eq!(next.economy.population, 8);
    assert_eq!(next.economy.food, 10);
    assert_eq!(next.economy.day, 1);
    assert_eq!(next.nihilists.undercover, 11);
    assert_eq!(next.nihilists.efficiency, 1011);
    assert_eq!(next.control, (2, 2));
    assert_eq!(
        next.headlines,
        vec![
            "[Day   0] Hunting accident involving a bad arrows suspends meat production!"
                .to_string(),
            "[Day   0] Cavein at the mine! Suspicious explosion at the lower levels.".to_string(),
            "[Day   0] 2 found dead this morning. Authorities launch investigation.".to_string(),
            "earlier".to_string(),
        ]
    );
}

#[test]
fn simulation_runs_until_extinction_or_a_thousand_days() {
    let mut state = State::seeded(2024);
    state.nihilists.hitmen = 5;
    state.nihilists.undercover = 5;
    let mut days = 0;
    while !state.economy.extinct() && days < 1000 {
        let next = state.next();
        assert_eq!(next.economy.day, state.economy.day + 1);
        assert!(next.headlines.len() > state.headlines.len());
        assert!(next.economy.food <= next.economy.storage);
        state = next;
        days += 1;
    }
    assert_eq!(state.economy.day, days);
}

#[test]
fn next_takes_the_draws_of_the_economy_and_one_more() {
    let mut state = State::seeded(77);
    state.nihilists.hitmen = 3;
    let mut next = state.next();
    let mut twin = Dice::seeded(77);
    for _ in 0..(4 + 3 + 1) {
        twin.draw();
    }
    for _ in 0..4 {
        assert_eq!(next.nihilists.rng.draw(), twin.draw());
    }
}

#[test]
fn next_is_decided_by_the_draws() {
    let mut state = State::seeded(78);
    state.nihilists.hitmen = 2;
    state.nihilists.recruiters = 50;
    state.nihilists.saboteurs.set(&Building::Quarry, 50);
    let mut twin = Dice::seeded(78);
    let mut incidents = Incidents::none();
    incidents.hunting = state.nihilists.sabotaged_by(&Building::Hunting, twin.draw());
    incidents.lumberyard = state.nihilists.sabotaged_by(&Building::Lumberyard, twin.draw());
    incidents.quarry = state.nihilists.sabotaged_by(&Building::Quarry, twin.draw());
    incidents.mine = state.nihilists.sabotaged_by(&Building::Mine, twin.draw());
    for _ in 0..2 {
        if state.nihilists.hit_by(twin.draw()) {
            incidents.hits += 1;
        }
    }
    let recruited = state.nihilists.recruited_by(twin.draw());
    let expected = state.resolve(&incidents, recruited);
    let next = state.next();
    assert_eq!(next.economy, expected.economy);
    assert_eq!(next.headlines, expected.headlines);
    assert_eq!(next.nihilists.undercover, expected.nihilists.undercover);
    assert_eq!(next.nihilists.efficiency, expected.nihilists.efficiency);
}
