use nihilism::building::Building;
use nihilism::headline::{death_headline, headlines, quiet_headline, sabotage_headline};
use nihilism::nihilists::Incidents;
use nihilism::text::{decimal_text, push_decimal, push_right_aligned};

#[test]
fn decimal_text_of_numbers() {
    assert_eq!(decimal_text(0), "0");
    assert_eq!(decimal_text(7), "7");
    assert_eq!(decimal_text(10), "10");
    assert_eq!(decimal_text(409), "409");
    assert_eq!(decimal_text(1234567890), "1234567890");
    assert_eq!(decimal_text(usize::MAX), format!("{}", usize::MAX));
}

#[test]
fn push_decimal_appends() {
    let mut out = String::from("n=");
    push_decimal(&mut out, 68);
    assert_eq!(out, "n=68");
}

#[test]
fn push_right_aligned_pads_to_three() {
    for n in [0usize, 5, 9, 10, 42, 99, 100, 999, 1000, 123456] {
        let mut out = String::from("<");
        push_right_aligned(&mut out, n);
        out.push('>');
        assert_eq!(out, format!("<{:>3}>", n));
    }
}

#[test]
fn quiet_headline_text() {
    assert_eq!(quiet_headline(0), "[Day   0] Another lovely day!");
    assert_eq!(quiet_headline(12), "[Day  12] Another lovely day!");
    assert_eq!(quiet_headline(345), "[Day 345] Another lovely day!");
    assert_eq!(quiet_headline(6789), "[Day 6789] Another lovely day!");
}

#[test]
fn sabotage_headline_texts() {
    assert_eq!(
        sabotage_headline(3, &Building::Hunting),
        "[Day   3] Hunting accident involving a bad arrows suspends meat production!"
    );
    assert_eq!(
        sabotage_headline(30, &Building::Lumberyard),
        "[Day  30] Lumberyard out of commission - all axes mysteriously blunt!"
    );
    assert_eq!(
        sabotage_headline(300, &Building::Quarry),
        "[Day 300] Quarry flooded! Investigation into faulty pressure regulators"
    );
    assert_eq!(
        sabotage_headline(3000, &Building::Mine),
        "[Day 3000] Cavein at the mine! Suspicious explosion at the lower levels."
    );
}

#[test]
fn death_headline_text() {
    assert_eq!(
        death_headline(7, 2),
        "[Day   7] 2 found dead this morning. Authorities launch investigation."
    );
    assert_eq!(
        death_headline(70, 15),
        "[Day  70] 15 found dead this morning. Authorities launch investigation."
    );
}

#[test]
fn headlines_of_a_quiet_day() {
    let lines = headlines(5, &Incidents::none());
    assert_eq!(lines, vec!["[Day   5] Another lovely day!".to_string()]);
}

#[test]
fn headlines_of_a_full_day_come_in_order() {
    let incidents =
        Incidents { hunting: true, lumberyard: true, quarry: true, mine: true, hits: 3 };
    let lines = headlines(21, &incidents);
    assert_eq!(
        lines,
        vec![
            "[Day  21] Hunting accident involving a bad arrows suspends meat production!"
                .to_string(),
            "[Day  21] Lumberyard out of commission - all axes mysteriously blunt!".to_string(),
            "[Day  21] Quarry flooded! Investigation into faulty pressure regulators".to_string(),
            "[Day  21] Cavein at the mine! Suspicious explosion at the lower levels.".to_string(),
            "[Day  21] 3 found dead this morning. Authorities launch investigation.".to_string(),
        ]
    );
}

#[test]
fn headlines_of_single_incidents() {
    let mut incidents = Incidents::none();
    incidents.quarry = true;
    assert_eq!(
        headlines(1, &incidents),
        vec!["[Day   1] Quarry flooded! Investigation into faulty pressure regulators".to_string()]
    );
    let mut incidents = Incidents::none();
    incidents.hits = 1;
    assert_eq!(
        headlines(1, &incidents),
        vec!["[Day   1] 1 found dead this morning. Authorities launch investigation.".to_string()]
    );
}

#[test]
fn incidents_quiet_and_sabotaged() {
    let none = Incidents::none();
    assert!(none.quiet());
    for building in Building::all() {
        assert!(!none.sabotaged(&building));
    }
    let some = Incidents { hunting: false, lumberyard: true, quarry: false, mine: false, hits: 0 };
    assert!(!some.quiet());
    assert!(some.sabotaged(&Building::Lumberyard));
    assert!(!some.sabotaged(&Building::Mine));
    let killed =
        Incidents { hunting: false, lumberyard: false, quarry: false, mine: false, hits: 1 };
    assert!(!killed.quiet());
}
