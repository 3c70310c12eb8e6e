use shot_profile::command::{command, profile, BeverageType, Command, ProfileType};
use shot_profile::num::Num;
use shot_profile::profile::{parse_profile, Profile};
use shot_profile::Error;

fn n(mantissa: u64, scale: u32) -> Num {
    Num { mantissa, scale }
}

#[test]
fn test_command() {
    let s = "author Decent";
    let (p, v) = command(s, 0).unwrap();
    assert_eq!((&s[p..], v), ("", Command::Author(String::from("Decent"))));
    let s = "author {Decent}";
    let (p, v) = command(s, 0).unwrap();
    assert_eq!((&s[p..], v), ("", Command::Author(String::from("Decent"))));

    let s = "beverage_type filter";
    let (p, v) = command(s, 0).unwrap();
    assert_eq!((&s[p..], v), ("", Command::BeverageType(BeverageType::Filter)));
    let s = "beverage_type cleaning";
    let (p, v) = command(s, 0).unwrap();
    assert_eq!((&s[p..], v), ("", Command::BeverageType(BeverageType::Cleaning)));
    let s = "beverage_type Cleaning";
    let (p, v) = command(s, 0).unwrap();
    assert_eq!((&s[p..], v), ("", Command::BeverageType(BeverageType::Cleaning)));
    let s = "beverage_type tea";
    let (p, v) = command(s, 0).unwrap();
    assert_eq!(
        (&s[p..], v),
        ("", Command::BeverageType(BeverageType::TeaPortafilter))
    );
    let s = "beverage_type tea_portafilter";
    let (p, v) = command(s, 0).unwrap();
    assert_eq!(
        (&s[p..], v),
        ("", Command::BeverageType(BeverageType::TeaPortafilter))
    );
}

#[test]
fn test_command_unknown_key() {
    // An unrecognized key still parses: forward compatibility.
    let s = "some_future_key {hello world}\n";
    let (p, v) = command(s, 0).unwrap();
    assert_eq!(&s[p..], "\n");
    assert_eq!(
        v,
        Command::Unknown(String::from("some_future_key"), String::from("hello world"))
    );
}

fn profile_fixture() -> String {
    [
        "advanced_shot {{exit_if 0 flow 4.0} {temperature 98.00 name {3 mL/s} seconds 60.00}}",
        "author Decent",
        "beverage_type pourover",
        "espresso_decline_time 0.0",
        "espresso_hold_time 25.0",
        "espresso_pressure 8.6",
        "espresso_temperature 98.0",
        "espresso_temperature_0 90.0",
        "espresso_temperature_1 88.0",
        "espresso_temperature_2 88.0",
        "espresso_temperature_3 88.0",
        "espresso_temperature_steps_enabled 1",
        "final_desired_shot_volume 36",
        "final_desired_shot_volume_advanced 0",
        "final_desired_shot_volume_advanced_count_start 0",
        "final_desired_shot_weight 100",
        "final_desired_shot_weight_advanced 100",
        "flow_profile_decline 1.2",
        "flow_profile_decline_time 17",
        "flow_profile_hold 2",
        "flow_profile_hold_time 8",
        "flow_profile_minimum_pressure 4",
        "flow_profile_preinfusion 4",
        "flow_profile_preinfusion_time 5",
        "maximum_flow 0",
        "maximum_flow_range_advanced 1",
        "maximum_flow_range_default 1",
        "maximum_pressure 0",
        "maximum_pressure_range_advanced 0.9",
        "maximum_pressure_range_default 0.9",
        "preinfusion_flow_rate 4",
        "preinfusion_stop_pressure 4",
        "preinfusion_time 0",
        "pressure_end 6",
        "profile_hide 1",
        "profile_language en",
        "profile_notes {first line\n\nafter blank line\nlast line}",
        "profile_title {Filter 2.1}",
        "settings_profile_type settings_2c",
        "tank_desired_water_temperature 0",
        "",
    ]
    .join("\n")
}

fn profile_fixture_commands() -> Vec<Command> {
    vec![
        Command::AdvancedShot(String::from(
            "{exit_if 0 flow 4.0} {temperature 98.00 name {3 mL/s} seconds 60.00}",
        )),
        Command::Author(String::from("Decent")),
        Command::BeverageType(BeverageType::Pourover),
        Command::EspressoDeclineTime(n(0, 1)),
        Command::EspressoHoldTime(n(250, 1)),
        Command::EspressoPressure(n(86, 1)),
        Command::EspressoTemperature(n(980, 1)),
        Command::EspressoTemperature0(n(900, 1)),
        Command::EspressoTemperature1(n(880, 1)),
        Command::EspressoTemperature2(n(880, 1)),
        Command::EspressoTemperature3(n(880, 1)),
        Command::EspressoTemperatureStepsEnabled(true),
        Command::FinalDesiredShotVolume(n(36, 0)),
        Command::FinalDesiredShotVolumeAdvanced(n(0, 0)),
        Command::FinalDesiredShotVolumeAdvancedCountStart(n(0, 0)),
        Command::FinalDesiredShotWeight(n(100, 0)),
        Command::FinalDesiredShotWeightAdvanced(n(100, 0)),
        Command::FlowProfileDecline(n(12, 1)),
        Command::FlowProfileDeclineTime(n(17, 0)),
        Command::FlowProfileHold(n(2, 0)),
        Command::FlowProfileHoldTime(n(8, 0)),
        Command::FlowProfileMinimumPressure(n(4, 0)),
        Command::FlowProfilePreinfusion(n(4, 0)),
        Command::FlowProfilePreinfusionTime(n(5, 0)),
        Command::MaximumFlow(n(0, 0)),
        Command::MaximumFlowRangeAdvanced(n(1, 0)),
        Command::MaximumFlowRangeDefault(n(1, 0)),
        Command::MaximumPressure(n(0, 0)),
        Command::MaximumPressureRangeAdvanced(n(9, 1)),
        Command::MaximumPressureRangeDefault(n(9, 1)),
        Command::PreinfusionFlowRate(n(4, 0)),
        Command::PreinfusionStopPressure(n(4, 0)),
        Command::PreinfusionTime(n(0, 0)),
        Command::PressureEnd(n(6, 0)),
        Command::ProfileHide(true),
        Command::ProfileLanguage(String::from("en")),
        Command::ProfileNotes(String::from("first line\n\nafter blank line\nlast line")),
        Command::ProfileTitle(String::from("Filter 2.1")),
        Command::SettingsProfileType(ProfileType::Settings2C),
        Command::TankDesiredWaterTemperature(n(0, 0)),
    ]
}

#[test]
fn test_profile_file() {
    let payload = profile_fixture();
    let (p, cmds) = profile(payload.as_str(), 0);
    assert_eq!(&payload[p..], "\n");
    assert_eq!(cmds, profile_fixture_commands());
}

#[test]
fn test_parse_profile_whole_document() {
    let payload = profile_fixture();
    let parsed = parse_profile(payload.as_str()).unwrap();
    assert_eq!(parsed.0, profile_fixture_commands());
    assert!(parsed.is_profile_type(ProfileType::Settings2C));
    assert_eq!(parsed.title(), Some(String::from("Filter 2.1")));
    assert_eq!(
        parsed.notes(),
        Some(String::from("first line\n\nafter blank line\nlast line"))
    );
    assert_eq!(
        parsed.advanced_shot(),
        Some(String::from(
            "{exit_if 0 flow 4.0} {temperature 98.00 name {3 mL/s} seconds 60.00}\n"
        ))
    );
}

#[test]
fn test_parse_profile_rejects_malformed() {
    // A document whose command list stops before the end is rejected
    // wholesale.
    assert_eq!(
        parse_profile("profile_title {T}\nbeverage_type sludge\n"),
        Err(Error::MalformedValue)
    );
}

#[test]
fn test_parse_profile_unknown_key_tolerated() {
    let parsed = parse_profile("some_future_key {hello}\nprofile_title {T}\n").unwrap();
    assert_eq!(
        parsed.0[0],
        Command::Unknown(String::from("some_future_key"), String::from("hello"))
    );
    assert_eq!(parsed.title(), Some(String::from("T")));
}

#[test]
fn test_profile_is_profile_type() {
    let profile = Profile(vec![Command::SettingsProfileType(ProfileType::Settings2C)]);
    assert_eq!(profile.is_profile_type(ProfileType::Settings2C), true);
}

#[test]
fn test_profile_is_profile_type_failed() {
    let profile = Profile(vec![Command::SettingsProfileType(ProfileType::Settings1)]);
    assert_eq!(profile.is_profile_type(ProfileType::Settings2C), false);

    let profile = Profile(vec![Command::Author(String::from("Trunk"))]);
    assert_eq!(profile.is_profile_type(ProfileType::Settings2C), false);
}

#[test]
fn test_beverage_type_try_from() {
    assert!(matches!(BeverageType::try_from("Cleaning"), Ok(BeverageType::Cleaning)));
    assert!(matches!(BeverageType::try_from("tea"), Ok(BeverageType::TeaPortafilter)));
    assert!(BeverageType::try_from("sludge").is_err());
}

#[test]
fn test_profile_type_try_from() {
    assert!(matches!(ProfileType::try_from("settings_2c"), Ok(ProfileType::Settings2C)));
    assert!(matches!(ProfileType::try_from("settings_2c2"), Ok(ProfileType::Settings2C2)));
    assert!(ProfileType::try_from("settings_9").is_err());
}
