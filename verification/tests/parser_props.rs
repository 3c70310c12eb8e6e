use shot_profile::num::Num;
use shot_profile::parser::{
    prop, prop_string, props, step, steps, ExitType, Prop, PumpType, SensorType, Step,
    TransitionType,
};
use shot_profile::Error;

fn n(mantissa: u64, scale: u32) -> Num {
    Num { mantissa, scale }
}

// A seventeen-property step as a typical brew document spells it, with
// the duration written `25.00` so that a step ending right at the end of
// the input exercises the integer fallback.
const STEP_INNER: &str = "exit_if 1 flow 8 volume 100 max_flow_or_pressure_range 0.6 transition fast exit_flow_under 0 temperature 94.0 name Fill pressure 2.0 sensor coffee pump pressure exit_type pressure_over exit_flow_over 6.0 exit_pressure_over 1.5 max_flow_or_pressure 0 exit_pressure_under 0 seconds 25.00";

fn step_props(seconds: Num) -> Vec<Prop> {
    vec![
        Prop::ExitIf(true),
        Prop::Flow(n(8, 0)),
        Prop::Volume(n(100, 0)),
        Prop::MaxFlowOrPressureRange(n(6, 1)),
        Prop::Transition(TransitionType::Fast),
        Prop::ExitFlowUnder(n(0, 0)),
        Prop::Temperature(n(940, 1)),
        Prop::Name(String::from("Fill")),
        Prop::Pressure(n(20, 1)),
        Prop::Sensor(SensorType::Coffee),
        Prop::Pump(PumpType::Pressure),
        Prop::ExitType(ExitType::PressureOver),
        Prop::ExitFlowOver(n(60, 1)),
        Prop::ExitPressureOver(n(15, 1)),
        Prop::MaxFlowOrPressure(n(0, 0)),
        Prop::ExitPressureUnder(n(0, 0)),
        Prop::Seconds(seconds),
    ]
}

#[test]
fn test_prop_bool() {
    assert_eq!(prop("exit_if 1;", 0), Ok((9, Prop::ExitIf(true))));
    assert_eq!(prop("exit_if 0;", 0), Ok((9, Prop::ExitIf(false))));
    assert_eq!(prop("exit_if x;", 0), Err(Error::MalformedValue));
}

#[test]
fn parser_test_prop_bool() {
    let s = "exit_if 1;";
    let (p, v) = prop(s, 0).unwrap();
    assert_eq!((&s[p..], v), (";", Prop::ExitIf(true)));
    let s = "exit_if 0;";
    let (p, v) = prop(s, 0).unwrap();
    assert_eq!((&s[p..], v), (";", Prop::ExitIf(false)));
    assert!(prop("exit_if x;", 0).is_err());
}

#[test]
fn test_prop_enum() {
    assert_eq!(
        prop("transition fast;", 0),
        Ok((15, Prop::Transition(TransitionType::Fast)))
    );
    assert_eq!(
        prop("transition smooth;", 0),
        Ok((17, Prop::Transition(TransitionType::Smooth)))
    );
    assert_eq!(prop("transition smooooch;", 0), Err(Error::UnrecognizedTag));
}

#[test]
fn parser_test_prop_enum() {
    let s = "transition fast;";
    let (p, v) = prop(s, 0).unwrap();
    assert_eq!((&s[p..], v), (";", Prop::Transition(TransitionType::Fast)));
    let s = "transition smooth;";
    let (p, v) = prop(s, 0).unwrap();
    assert_eq!((&s[p..], v), (";", Prop::Transition(TransitionType::Smooth)));
    assert!(prop("transition smooooch;", 0).is_err());
}

#[test]
fn test_prop_string() {
    assert_eq!(
        prop_string("name", "name Fill\n", 0),
        Ok((9, Prop::Name(String::from("Fill"))))
    );
    assert_eq!(
        prop_string("name", "name {Pressure Up}\n", 0),
        Ok((18, Prop::Name(String::from("Pressure Up"))))
    );
    assert_eq!(
        prop_string("name", "name {}\n", 0),
        Ok((7, Prop::Name(String::from(""))))
    );
}

#[test]
fn parser_test_prop_string() {
    let s = "name Fill\n";
    let (p, v) = prop_string("name", s, 0).unwrap();
    assert_eq!((&s[p..], v), ("\n", Prop::Name(String::from("Fill"))));
    let s = "name {Pressure Up}\n";
    let (p, v) = prop_string("name", s, 0).unwrap();
    assert_eq!((&s[p..], v), ("\n", Prop::Name(String::from("Pressure Up"))));
    let s = "name {}\n";
    let (p, v) = prop_string("name", s, 0).unwrap();
    assert_eq!((&s[p..], v), ("\n", Prop::Name(String::from(""))));
}

#[test]
fn test_prop_string_unknown_key_passthrough() {
    // A string property under a key outside the closed set keeps the key.
    let (p, v) = prop_string("profile_title", "profile_title {Filter 2.1}\n", 0).unwrap();
    assert_eq!(p, 26);
    assert_eq!(
        v,
        Prop::Unknown(String::from("profile_title"), String::from("Filter 2.1"))
    );
}

#[test]
fn test_prop() {
    assert_eq!(prop("flow 8;", 0), Ok((6, Prop::Flow(n(8, 0)))));
    assert_eq!(prop("volume 100;", 0), Ok((10, Prop::Volume(n(100, 0)))));
    assert_eq!(
        prop("exit_pressure_over 1.5;", 0),
        Ok((22, Prop::ExitPressureOver(n(15, 1))))
    );
}

#[test]
fn parser_test_prop() {
    let s = "flow 8;";
    let (p, v) = prop(s, 0).unwrap();
    assert_eq!((&s[p..], v), (";", Prop::Flow(n(8, 0))));
    let s = "volume 100;";
    let (p, v) = prop(s, 0).unwrap();
    assert_eq!((&s[p..], v), (";", Prop::Volume(n(100, 0))));
    let s = "exit_pressure_over 1.5;";
    let (p, v) = prop(s, 0).unwrap();
    assert_eq!((&s[p..], v), (";", Prop::ExitPressureOver(n(15, 1))));
}

#[test]
fn test_prop_unknown_key() {
    assert_eq!(
        prop("frobnicate 7\n", 0),
        Ok((12, Prop::Unknown(String::from("frobnicate"), String::from("7"))))
    );
}

#[test]
fn test_step_inner() {
    let (p, list) = props(STEP_INNER, 0);
    assert_eq!(&STEP_INNER[p..], ".00");
    assert_eq!(list, step_props(n(25, 0)));
}

#[test]
fn parser_test_step_inner() {
    let (p, list) = props(STEP_INNER, 0);
    assert_eq!(&STEP_INNER[p..], ".00");
    assert_eq!(list, step_props(n(25, 0)));
}

#[test]
fn test_step_outer() {
    let payload = format!("{{{}\n}}", STEP_INNER);
    let (p, st) = step(payload.as_str(), 0).unwrap();
    assert_eq!(&payload[p..], "");
    assert_eq!(st, Step(step_props(n(2500, 2))));
}

#[test]
fn parser_test_step_outer() {
    let payload = format!("{{{}\n}}", STEP_INNER);
    let (p, st) = step(payload.as_str(), 0).unwrap();
    assert_eq!(&payload[p..], "");
    assert_eq!(st, Step(step_props(n(2500, 2))));
}

#[test]
fn test_steps_inner() {
    let s = "{volume 100}\n{flow 8}\n";
    let (p, list) = steps(s, 0);
    assert_eq!(&s[p..], "\n");
    assert_eq!(
        list,
        vec![
            Step(vec![Prop::Volume(n(100, 0))]),
            Step(vec![Prop::Flow(n(8, 0))]),
        ]
    );

    let payload = format!(
        "{{{}}}\n{{exit_if 0 volume 100 max_flow_or_pressure_range 0.6 transition fast exit_flow_under 0 temperature 93.0 weight 0 name {{Pressure Up}} pressure 9.0 sensor coffee pump pressure exit_flow_over 6.0 exit_pressure_over 11.0 max_flow_or_pressure 0 seconds 4.0 exit_pressure_under 0}}\n",
        "exit_if 1 flow 8 volume 100 max_flow_or_pressure_range 0.6 transition fast exit_flow_under 0 temperature 94.0 name Fill pressure 2.0 sensor coffee pump pressure exit_type pressure_over exit_flow_over 6.0 exit_pressure_over 1.5 max_flow_or_pressure 0 exit_pressure_under 0 seconds 25.0"
    );
    let (p, list) = steps(payload.as_str(), 0);
    assert_eq!(&payload[p..], "\n");
    assert_eq!(
        list,
        vec![
            Step(step_props(n(250, 1))),
            Step(vec![
                Prop::ExitIf(false),
                Prop::Volume(n(100, 0)),
                Prop::MaxFlowOrPressureRange(n(6, 1)),
                Prop::Transition(TransitionType::Fast),
                Prop::ExitFlowUnder(n(0, 0)),
                Prop::Temperature(n(930, 1)),
                Prop::Weight(n(0, 0)),
                Prop::Name(String::from("Pressure Up")),
                Prop::Pressure(n(90, 1)),
                Prop::Sensor(SensorType::Coffee),
                Prop::Pump(PumpType::Pressure),
                Prop::ExitFlowOver(n(60, 1)),
                Prop::ExitPressureOver(n(110, 1)),
                Prop::MaxFlowOrPressure(n(0, 0)),
                Prop::Seconds(n(40, 1)),
                Prop::ExitPressureUnder(n(0, 0)),
            ]),
        ]
    );
}

#[test]
fn parser_test_steps_inner() {
    let s = "{volume 100}\n{flow 8}\n";
    let (p, list) = steps(s, 0);
    assert_eq!(&s[p..], "\n");
    assert_eq!(
        list,
        vec![
            Step(vec![Prop::Volume(n(100, 0))]),
            Step(vec![Prop::Flow(n(8, 0))]),
        ]
    );
}

#[test]
fn test_step_first_occurrence_wins() {
    // A duplicated key resolves to the first occurrence, never a later one.
    let (_, st) = step("{seconds 5 seconds 9 pump flow transition fast}", 0).unwrap();
    assert_eq!(st.seconds(), Ok(n(5, 0)));
    assert_eq!(st.pump(), Ok(PumpType::Flow));
    assert_eq!(st.transition(), Ok(TransitionType::Fast));
}

#[test]
fn test_step_missing_required() {
    let (_, st) = step("{flow 5}", 0).unwrap();
    assert_eq!(st.seconds(), Err(Error::MissingRequiredProp));
    assert_eq!(st.pump(), Err(Error::MissingRequiredProp));
    assert_eq!(st.transition(), Err(Error::MissingRequiredProp));
}

#[test]
fn test_step_exit_flow() {
    let (_, st) = step("{exit_if 1 exit_type flow_over exit_flow_over 6.0}", 0).unwrap();
    assert_eq!(st.exit_flow(), Some(n(60, 1)));
    let (_, st) = step("{exit_if 1 exit_type flow_under exit_flow_under 1.5}", 0).unwrap();
    assert_eq!(st.exit_flow(), Some(n(15, 1)));
    // A pressure exit never hands a flow threshold on.
    let (_, st) = step("{exit_if 1 exit_type pressure_over exit_flow_over 6.0}", 0).unwrap();
    assert_eq!(st.exit_flow(), None);
    // Without the exit flag there is no threshold.
    let (_, st) = step("{exit_if 0 exit_type flow_over exit_flow_over 6.0}", 0).unwrap();
    assert_eq!(st.exit_flow(), None);
}
