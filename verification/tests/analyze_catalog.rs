use shot_profile::catalog::Catalog;
use shot_profile::num::Num;
use shot_profile::parser::steps;
use shot_profile::profile::{analyze, AnalyzedProfile, Segment};
use shot_profile::Error;

fn n(mantissa: u64, scale: u32) -> Num {
    Num { mantissa, scale }
}

fn seg(x1: Num, y1: Num, x2: Num, y2: Num) -> Segment {
    Segment { x1, y1, x2, y2 }
}

fn run(text: &str) -> AnalyzedProfile {
    let (_, sts) = steps(text, 0);
    analyze(sts.as_slice()).unwrap()
}

#[test]
fn test_analyze_temperature_hold_and_jump() {
    let r = run(
        "{pump flow transition fast seconds 10 temperature 94.0}\n{pump flow transition fast seconds 5 temperature 92.0}",
    );
    assert_eq!(
        r.temperature,
        vec![
            seg(n(0, 0), n(940, 1), n(10, 0), n(940, 1)),
            seg(n(10, 0), n(940, 1), n(10, 0), n(920, 1)),
            seg(n(10, 0), n(920, 1), n(15, 0), n(920, 1)),
        ]
    );
    assert_eq!(r.elapsed_time, n(15, 0));
}

#[test]
fn test_analyze_smooth_ramps_diagonally() {
    let r = run(
        "{pump pressure transition fast seconds 10 pressure 2.0}\n{pump pressure transition smooth seconds 5 pressure 9.0}",
    );
    assert_eq!(
        r.pressure,
        vec![
            seg(n(0, 0), n(0, 0), n(0, 0), n(20, 1)),
            seg(n(0, 0), n(20, 1), n(10, 0), n(20, 1)),
            seg(n(10, 0), n(20, 1), n(15, 0), n(90, 1)),
        ]
    );
}

#[test]
fn test_analyze_deterministic() {
    let text =
        "{pump flow transition fast seconds 10 flow 5 temperature 94.0}\n{pump pressure transition smooth seconds 5 pressure 8}";
    let a = run(text);
    let b = run(text);
    assert_eq!(a, b);
}

#[test]
fn test_analyze_channel_gating() {
    // Pressure-driven step: its flow property draws nothing.
    let r = run("{pump pressure transition fast seconds 5 pressure 8 flow 5}");
    assert_eq!(r.flow, vec![]);
    assert_eq!(
        r.pressure,
        vec![
            seg(n(0, 0), n(0, 0), n(0, 0), n(8, 0)),
            seg(n(0, 0), n(8, 0), n(5, 0), n(8, 0)),
        ]
    );
}

#[test]
fn test_analyze_pump_handoff() {
    // Flow-driven step, then a pressure-driven one: the flow trace is
    // closed with a drop to zero before the new pressure segments.
    let r = run(
        "{pump flow transition fast seconds 10 flow 5}\n{pump pressure transition fast seconds 5 pressure 8}",
    );
    assert_eq!(
        r.flow,
        vec![
            seg(n(0, 0), n(0, 0), n(0, 0), n(5, 0)),
            seg(n(0, 0), n(5, 0), n(10, 0), n(5, 0)),
            seg(n(10, 0), n(5, 0), n(10, 0), n(0, 0)),
        ]
    );
    assert_eq!(
        r.pressure,
        vec![
            seg(n(10, 0), n(0, 0), n(10, 0), n(8, 0)),
            seg(n(10, 0), n(8, 0), n(15, 0), n(8, 0)),
        ]
    );
    assert_eq!(r.elapsed_time, n(15, 0));
}

#[test]
fn test_analyze_exit_flow_correction() {
    // The first step exits early on flow-over 6.0: the next step's flow
    // segments start from 6.0 regardless of the last raw flow value.
    let r = run(
        "{pump flow transition fast seconds 10 flow 5 exit_if 1 exit_type flow_over exit_flow_over 6.0}\n{pump flow transition fast seconds 5 flow 2}",
    );
    assert_eq!(
        r.flow,
        vec![
            seg(n(0, 0), n(0, 0), n(0, 0), n(5, 0)),
            seg(n(0, 0), n(5, 0), n(10, 0), n(5, 0)),
            seg(n(10, 0), n(5, 0), n(10, 0), n(60, 1)),
            seg(n(10, 0), n(60, 1), n(10, 0), n(2, 0)),
            seg(n(10, 0), n(2, 0), n(15, 0), n(2, 0)),
        ]
    );
}

#[test]
fn test_analyze_pressure_exit_never_corrects_flow() {
    let r = run(
        "{pump flow transition fast seconds 10 flow 5 exit_if 1 exit_type pressure_over exit_pressure_over 9.0}\n{pump flow transition fast seconds 5 flow 2}",
    );
    assert_eq!(
        r.flow,
        vec![
            seg(n(0, 0), n(0, 0), n(0, 0), n(5, 0)),
            seg(n(0, 0), n(5, 0), n(10, 0), n(5, 0)),
            seg(n(10, 0), n(5, 0), n(10, 0), n(2, 0)),
            seg(n(10, 0), n(2, 0), n(15, 0), n(2, 0)),
        ]
    );
}

#[test]
fn test_analyze_missing_required_prop() {
    let (_, sts) = steps("{flow 5 transition fast pump flow}", 0);
    assert_eq!(analyze(sts.as_slice()), Err(Error::MissingRequiredProp));
}

#[test]
fn test_analyze_empty_steps() {
    let r = run("");
    assert_eq!(r.temperature, vec![]);
    assert_eq!(r.pressure, vec![]);
    assert_eq!(r.flow, vec![]);
    assert_eq!(r.elapsed_time, n(0, 0));
}

fn advanced_doc(title: &str) -> String {
    format!(
        "advanced_shot {{{{pump flow transition fast seconds 10 flow 5}}}}\nprofile_notes {{some notes}}\nprofile_title {{{}}}\nsettings_profile_type settings_2c\n",
        title
    )
}

fn basic_doc() -> String {
    [
        "profile_notes {basic}",
        "profile_title {Basic}",
        "settings_profile_type settings_1",
        "",
    ]
    .join("\n")
}

#[test]
fn test_catalog_filters_to_advanced() {
    let docs = vec![
        (String::from("a.tcl"), advanced_doc("A Title")),
        (String::from("b.tcl"), basic_doc()),
    ];
    let catalog = Catalog::build(&docs);
    assert_eq!(catalog.items.len(), 1);
    assert_eq!(catalog.items[0].name, "a.tcl");
    assert_eq!(catalog.items[0].title, "A Title");
    assert_eq!(catalog.items[0].notes, "some notes");
    assert_eq!(
        catalog.items[0].data,
        "{pump flow transition fast seconds 10 flow 5}\n"
    );
}

#[test]
fn test_catalog_sorted_by_title() {
    let docs = vec![
        (String::from("one.tcl"), advanced_doc("bravo")),
        (String::from("two.tcl"), advanced_doc("alpha")),
        (String::from("three.tcl"), advanced_doc("charlie")),
    ];
    let catalog = Catalog::build(&docs);
    let listed = catalog.list();
    assert_eq!(listed.len(), 3);
    assert_eq!(listed[0], (String::from("two.tcl"), String::from("alpha")));
    assert_eq!(listed[1], (String::from("one.tcl"), String::from("bravo")));
    assert_eq!(listed[2], (String::from("three.tcl"), String::from("charlie")));
}

#[test]
fn test_catalog_skips_malformed_document() {
    let docs = vec![
        (String::from("bad.tcl"), String::from("beverage_type sludge\n")),
        (String::from("good.tcl"), advanced_doc("Good")),
    ];
    let catalog = Catalog::build(&docs);
    assert_eq!(catalog.items.len(), 1);
    assert_eq!(catalog.items[0].name, "good.tcl");
}

#[test]
fn test_catalog_skips_document_missing_title() {
    let docs = vec![(
        String::from("untitled.tcl"),
        String::from(
            "advanced_shot {{pump flow transition fast seconds 10 flow 5}}\nprofile_notes {x}\nsettings_profile_type settings_2c\n",
        ),
    )];
    let catalog = Catalog::build(&docs);
    assert_eq!(catalog.items.len(), 0);
}

#[test]
fn test_catalog_analyze_by_name() {
    let docs = vec![(String::from("a.tcl"), advanced_doc("A"))];
    let catalog = Catalog::build(&docs);
    let r = catalog.analyze_by_name("a.tcl").unwrap();
    assert_eq!(
        r.flow,
        vec![
            seg(n(0, 0), n(0, 0), n(0, 0), n(5, 0)),
            seg(n(0, 0), n(5, 0), n(10, 0), n(5, 0)),
        ]
    );
    assert_eq!(r.elapsed_time, n(10, 0));
    assert_eq!(catalog.analyze_by_name("zzz.tcl"), Err(Error::UnknownPresetName));
}
