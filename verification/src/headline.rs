//! The day's headlines: one line of text for each notable event.

use vstd::prelude::*;
use vstd::string::StringExecFns;
use crate::building::Building;
use crate::nihilists::Incidents;
use crate::text::{decimal, push_decimal, push_right_aligned, right_aligned};

verus! {

/// A line of text that opens with the day it reports on.
pub open spec fn dated(day: nat, report: Seq<char>) -> Seq<char> {
    "[Day "@ + right_aligned(decimal(day), 3) + "] "@ + report
}

/// What is reported when a building is sabotaged.
pub open spec fn sabotage_report(building: Building) -> Seq<char> {
    match building {
        Building::Hunting => "Hunting accident involving a bad arrows suspends meat production!"@,
        Building::Lumberyard => "Lumberyard out of commission - all axes mysteriously blunt!"@,
        Building::Quarry => "Quarry flooded! Investigation into faulty pressure regulators"@,
        Building::Mine => "Cavein at the mine! Suspicious explosion at the lower levels."@,
    }
}

/// What is reported when the hitmen have killed.
pub open spec fn death_report(hits: nat) -> Seq<char> {
    decimal(hits) + " found dead this morning. Authorities launch investigation."@
}

/// What is reported when nothing happened.
pub open spec fn quiet_report() -> Seq<char> {
    "Another lovely day!"@
}

/// The line for a sabotaged building, or nothing if it was spared.
pub open spec fn sabotage_lines(day: nat, incidents: Incidents, building: Building) -> Seq<
    Seq<char>,
> {
    if incidents.spec_sabotaged(building) {
        seq![dated(day, sabotage_report(building))]
    } else {
        Seq::empty()
    }
}

/// The lines for the day's incidents: the sabotaged buildings in
/// enumeration order, then the killings.
pub open spec fn incident_lines(day: nat, incidents: Incidents) -> Seq<Seq<char>> {
    sabotage_lines(day, incidents, Building::Hunting) + sabotage_lines(
        day,
        incidents,
        Building::Lumberyard,
    ) + sabotage_lines(day, incidents, Building::Quarry) + sabotage_lines(
        day,
        incidents,
        Building::Mine,
    ) + if incidents.hits > 0 {
        seq![dated(day, death_report(incidents.hits as nat))]
    } else {
        Seq::empty()
    }
}

/// The day's headlines: its incidents, or a single line that says that
/// there were none.
pub open spec fn headlines_of(day: nat, incidents: Incidents) -> Seq<Seq<char>> {
    if incidents.spec_quiet() {
        seq![dated(day, quiet_report())]
    } else {
        incident_lines(day, incidents)
    }
}

/// A day with incidents has a line for each, and a quiet day has one line.
pub proof fn lemma_headlines_nonempty(day: nat, incidents: Incidents)
    ensures
        1 <= headlines_of(day, incidents).len() <= 5,
        incidents.spec_quiet() <==> incident_lines(day, incidents).len() == 0,
{
}

fn opening(day: usize) -> (r: String)
    ensures
        r@ == "[Day "@ + right_aligned(decimal(day as nat), 3) + "] "@,
{
    let mut line: String = String::from_str("[Day ");
    push_right_aligned(&mut line, day);
    line.append("] ");
    line
}

pub fn sabotage_headline(day: usize, building: &Building) -> (r: String)
    ensures
        r@ == dated(day as nat, sabotage_report(*building)),
{
    let mut line: String = opening(day);
    match building {
        Building::Hunting => {
            line.append("Hunting accident involving a bad arrows suspends meat production!");
        },
        Building::Lumberyard => {
            line.append("Lumberyard out of commission - all axes mysteriously blunt!");
        },
        Building::Quarry => {
            line.append("Quarry flooded! Investigation into faulty pressure regulators");
        },
        Building::Mine => {
            line.append("Cavein at the mine! Suspicious explosion at the lower levels.");
        },
    }
    line
}

pub fn death_headline(day: usize, hits: usize) -> (r: String)
    ensures
        r@ == dated(day as nat, death_report(hits as nat)),
{
    let mut line: String = opening(day);
    push_decimal(&mut line, hits);
    line.append(" found dead this morning. Authorities launch investigation.");
    assert(line@ =~= dated(day as nat, death_report(hits as nat)));
    line
}

pub fn quiet_headline(day: usize) -> (r: String)
    ensures
        r@ == dated(day as nat, quiet_report()),
{
    let mut line: String = opening(day);
    line.append("Another lovely day!");
    line
}

/// Adds the line for a building to `lines` if the building was sabotaged.
fn report_sabotage(lines: &mut Vec<String>, day: usize, incidents: &Incidents, building: Building)
    ensures
        final(lines).deep_view() == old(lines).deep_view() + sabotage_lines(
            day as nat,
            *incidents,
            building,
        ),
{
    if incidents.sabotaged(&building) {
        let line: String = sabotage_headline(day, &building);
        lines.push(line);
    }
    assert(lines.deep_view() =~= old(lines).deep_view() + sabotage_lines(
        day as nat,
        *incidents,
        building,
    ));
}

/// Writes the day's headlines.
pub fn headlines(day: usize, incidents: &Incidents) -> (r: Vec<String>)
    ensures
        r.deep_view() == headlines_of(day as nat, *incidents),
{
    let mut lines: Vec<String> = Vec::new();
    assert(lines.deep_view() =~= Seq::<Seq<char>>::empty());
    report_sabotage(&mut lines, day, incidents, Building::Hunting);
    assert(lines.deep_view() =~= sabotage_lines(day as nat, *incidents, Building::Hunting));
    report_sabotage(&mut lines, day, incidents, Building::Lumberyard);
    report_sabotage(&mut lines, day, incidents, Building::Quarry);
    report_sabotage(&mut lines, day, incidents, Building::Mine);
    let ghost sabotage = lines.deep_view();
    if incidents.hits > 0 {
        let line: String = death_headline(day, incidents.hits);
        lines.push(line);
        assert(lines.deep_view() =~= sabotage + seq![
            dated(day as nat, death_report(incidents.hits as nat)),
        ]);
    } else {
        assert(lines.deep_view() =~= sabotage + Seq::<Seq<char>>::empty());
    }
    assert(lines.deep_view() == incident_lines(day as nat, *incidents));
    if lines.len() == 0 {
        let line: String = quiet_headline(day);
        lines.push(line);
        assert(lines.deep_view() =~= seq![dated(day as nat, quiet_report())]);
    }
    lines
}

} // verus!
