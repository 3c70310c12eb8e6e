//! The document-level command grammar.
//!
//! A profile document is a whitespace-separated list of commands; each is a
//! key token, at least one space or tab, and the value the key expects.  A
//! key outside the closed set still parses: its value is read as a string
//! and kept as `Unknown(key, value)`, so documents with future keys load.

use vstd::prelude::*;

use crate::Error;
use crate::num::Num;
use crate::parser::{
    bool_val, lemma_number_val_bounds, lemma_string_val_bounds, number_val, spec_bool_val,
    spec_number_val, spec_string_val, string_val,
};
use crate::scan::{
    lemma_run_len_bound, match_lit, match_lit_nc, run_len, scan_run, tag_at, tag_nc_at, CharClass,
};

verus! {

/// The kind of beverage a profile brews.
#[derive(Clone, Copy, Debug, PartialEq, Eq, Structural)]
pub enum BeverageType {
    Calibrate,
    Cleaning,
    Espresso,
    Filter,
    Manual,
    Pourover,
    TeaPortafilter,
}

/// The machine settings screen a profile belongs to; the step-sequence
/// profiles carry `Settings2C`.
#[derive(Clone, Copy, Debug, PartialEq, Eq, Structural)]
pub enum ProfileType {
    Settings1,
    Settings2,
    Settings2A,
    Settings2B,
    Settings2C,
    Settings2C2,
}

/// The beverage tag a whole string names, without regard to ASCII case;
/// `tea` is an alias of `tea_portafilter`; longer tags are tried first.
pub open spec fn spec_beverage_of(v: Seq<char>) -> Option<BeverageType> {
    if v.len() == "calibrate"@.len() && tag_nc_at(v, 0, "calibrate"@) {
        Some(BeverageType::Calibrate)
    } else if v.len() == "cleaning"@.len() && tag_nc_at(v, 0, "cleaning"@) {
        Some(BeverageType::Cleaning)
    } else if v.len() == "espresso"@.len() && tag_nc_at(v, 0, "espresso"@) {
        Some(BeverageType::Espresso)
    } else if v.len() == "filter"@.len() && tag_nc_at(v, 0, "filter"@) {
        Some(BeverageType::Filter)
    } else if v.len() == "manual"@.len() && tag_nc_at(v, 0, "manual"@) {
        Some(BeverageType::Manual)
    } else if v.len() == "pourover"@.len() && tag_nc_at(v, 0, "pourover"@) {
        Some(BeverageType::Pourover)
    } else if v.len() == "tea_portafilter"@.len() && tag_nc_at(v, 0, "tea_portafilter"@) {
        Some(BeverageType::TeaPortafilter)
    } else if v.len() == "tea"@.len() && tag_nc_at(v, 0, "tea"@) {
        Some(BeverageType::TeaPortafilter)
    } else {
        None
    }
}

impl BeverageType {
    /// The closed beverage tag set, matched without regard to ASCII case.
    pub fn try_from(value: &str) -> (r: Result<BeverageType, crate::parser::UnexpectedValueError>)
        ensures
            match r {
                Ok(b) => spec_beverage_of(value@) == Some(b),
                Err(e) => spec_beverage_of(value@) is None && e.0@ == value@,
            },
    {
        let n = value.unicode_len();
        if n == "calibrate".unicode_len() && match_lit_nc(value, 0, "calibrate") {
            Ok(BeverageType::Calibrate)
        } else if n == "cleaning".unicode_len() && match_lit_nc(value, 0, "cleaning") {
            Ok(BeverageType::Cleaning)
        } else if n == "espresso".unicode_len() && match_lit_nc(value, 0, "espresso") {
            Ok(BeverageType::Espresso)
        } else if n == "filter".unicode_len() && match_lit_nc(value, 0, "filter") {
            Ok(BeverageType::Filter)
        } else if n == "manual".unicode_len() && match_lit_nc(value, 0, "manual") {
            Ok(BeverageType::Manual)
        } else if n == "pourover".unicode_len() && match_lit_nc(value, 0, "pourover") {
            Ok(BeverageType::Pourover)
        } else if n == "tea_portafilter".unicode_len() && match_lit_nc(value, 0, "tea_portafilter")
            {
            Ok(BeverageType::TeaPortafilter)
        } else if n == "tea".unicode_len() && match_lit_nc(value, 0, "tea") {
            Ok(BeverageType::TeaPortafilter)
        } else {
            Err(crate::parser::UnexpectedValueError(value.to_owned()))
        }
    }
}

impl ProfileType {
    /// The closed profile-type tag set, as an exact whole-string match.
    pub fn try_from(value: &str) -> (r: Result<ProfileType, crate::parser::UnexpectedValueError>)
        ensures
            value@ == "settings_1"@ ==> r == Ok::<_, crate::parser::UnexpectedValueError>(
                ProfileType::Settings1,
            ),
            value@ == "settings_2"@ ==> r == Ok::<_, crate::parser::UnexpectedValueError>(
                ProfileType::Settings2,
            ),
            value@ == "settings_2a"@ ==> r == Ok::<_, crate::parser::UnexpectedValueError>(
                ProfileType::Settings2A,
            ),
            value@ == "settings_2b"@ ==> r == Ok::<_, crate::parser::UnexpectedValueError>(
                ProfileType::Settings2B,
            ),
            value@ == "settings_2c"@ ==> r == Ok::<_, crate::parser::UnexpectedValueError>(
                ProfileType::Settings2C,
            ),
            value@ == "settings_2c2"@ ==> r == Ok::<_, crate::parser::UnexpectedValueError>(
                ProfileType::Settings2C2,
            ),
    {
        proof {
            reveal_strlit("settings_1");
            reveal_strlit("settings_2");
            reveal_strlit("settings_2a");
            reveal_strlit("settings_2b");
            reveal_strlit("settings_2c");
            reveal_strlit("settings_2c2");
            assert("settings_1"@.len() == 10 && "settings_2"@.len() == 10 && "settings_2a"@.len()
                == 11 && "settings_2b"@.len() == 11 && "settings_2c"@.len() == 11
                && "settings_2c2"@.len() == 12);
            assert("settings_1"@[9] == '1' && "settings_2"@[9] == '2');
            assert("settings_2a"@[10] == 'a' && "settings_2b"@[10] == 'b' && "settings_2c"@[10]
                == 'c');
        }
        if crate::scan::str_eq(value, "settings_1") {
            Ok(ProfileType::Settings1)
        } else if crate::scan::str_eq(value, "settings_2") {
            Ok(ProfileType::Settings2)
        } else if crate::scan::str_eq(value, "settings_2a") {
            Ok(ProfileType::Settings2A)
        } else if crate::scan::str_eq(value, "settings_2b") {
            Ok(ProfileType::Settings2B)
        } else if crate::scan::str_eq(value, "settings_2c") {
            Ok(ProfileType::Settings2C)
        } else if crate::scan::str_eq(value, "settings_2c2") {
            Ok(ProfileType::Settings2C2)
        } else {
            Err(crate::parser::UnexpectedValueError(value.to_owned()))
        }
    }
}

/// A beverage tag, matched without regard to ASCII case, longer tags first.
pub open spec fn spec_beverage_type_val(s: Seq<char>, pos: int) -> Result<
    (int, BeverageType),
    Error,
> {
    if tag_nc_at(s, pos, "calibrate"@) {
        Ok((pos + "calibrate"@.len(), BeverageType::Calibrate))
    } else if tag_nc_at(s, pos, "cleaning"@) {
        Ok((pos + "cleaning"@.len(), BeverageType::Cleaning))
    } else if tag_nc_at(s, pos, "espresso"@) {
        Ok((pos + "espresso"@.len(), BeverageType::Espresso))
    } else if tag_nc_at(s, pos, "filter"@) {
        Ok((pos + "filter"@.len(), BeverageType::Filter))
    } else if tag_nc_at(s, pos, "manual"@) {
        Ok((pos + "manual"@.len(), BeverageType::Manual))
    } else if tag_nc_at(s, pos, "pourover"@) {
        Ok((pos + "pourover"@.len(), BeverageType::Pourover))
    } else if tag_nc_at(s, pos, "tea_portafilter"@) {
        Ok((pos + "tea_portafilter"@.len(), BeverageType::TeaPortafilter))
    } else if tag_nc_at(s, pos, "tea"@) {
        Ok((pos + "tea"@.len(), BeverageType::TeaPortafilter))
    } else {
        Err(Error::UnrecognizedTag)
    }
}

/// Reads a beverage tag.
pub fn beverage_type_val(s: &str, pos: usize) -> (r: Result<(usize, BeverageType), Error>)
    requires
        pos <= s@.len(),
    ensures
        match r {
            Ok((p, v)) => spec_beverage_type_val(s@, pos as int) == Ok::<_, Error>((p as int, v)),
            Err(e) => spec_beverage_type_val(s@, pos as int) == Err::<(int, BeverageType), _>(e),
        },
{
    let _chars = s.unicode_len();
    if match_lit_nc(s, pos, "calibrate") {
        Ok((pos + "calibrate".unicode_len(), BeverageType::Calibrate))
    } else if match_lit_nc(s, pos, "cleaning") {
        Ok((pos + "cleaning".unicode_len(), BeverageType::Cleaning))
    } else if match_lit_nc(s, pos, "espresso") {
        Ok((pos + "espresso".unicode_len(), BeverageType::Espresso))
    } else if match_lit_nc(s, pos, "filter") {
        Ok((pos + "filter".unicode_len(), BeverageType::Filter))
    } else if match_lit_nc(s, pos, "manual") {
        Ok((pos + "manual".unicode_len(), BeverageType::Manual))
    } else if match_lit_nc(s, pos, "pourover") {
        Ok((pos + "pourover".unicode_len(), BeverageType::Pourover))
    } else if match_lit_nc(s, pos, "tea_portafilter") {
        Ok((pos + "tea_portafilter".unicode_len(), BeverageType::TeaPortafilter))
    } else if match_lit_nc(s, pos, "tea") {
        Ok((pos + "tea".unicode_len(), BeverageType::TeaPortafilter))
    } else {
        Err(Error::UnrecognizedTag)
    }
}

/// A profile-type tag, longer tags first.
pub open spec fn spec_profile_type_val(s: Seq<char>, pos: int) -> Result<
    (int, ProfileType),
    Error,
> {
    if tag_at(s, pos, "settings_1"@) {
        Ok((pos + "settings_1"@.len(), ProfileType::Settings1))
    } else if tag_at(s, pos, "settings_2c2"@) {
        Ok((pos + "settings_2c2"@.len(), ProfileType::Settings2C2))
    } else if tag_at(s, pos, "settings_2a"@) {
        Ok((pos + "settings_2a"@.len(), ProfileType::Settings2A))
    } else if tag_at(s, pos, "settings_2b"@) {
        Ok((pos + "settings_2b"@.len(), ProfileType::Settings2B))
    } else if tag_at(s, pos, "settings_2c"@) {
        Ok((pos + "settings_2c"@.len(), ProfileType::Settings2C))
    } else if tag_at(s, pos, "settings_2"@) {
        Ok((pos + "settings_2"@.len(), ProfileType::Settings2))
    } else {
        Err(Error::UnrecognizedTag)
    }
}

/// Reads a profile-type tag.
pub fn profile_type_val(s: &str, pos: usize) -> (r: Result<(usize, ProfileType), Error>)
    requires
        pos <= s@.len(),
    ensures
        match r {
            Ok((p, v)) => spec_profile_type_val(s@, pos as int) == Ok::<_, Error>((p as int, v)),
            Err(e) => spec_profile_type_val(s@, pos as int) == Err::<(int, ProfileType), _>(e),
        },
{
    let _chars = s.unicode_len();
    if match_lit(s, pos, "settings_1") {
        Ok((pos + "settings_1".unicode_len(), ProfileType::Settings1))
    } else if match_lit(s, pos, "settings_2c2") {
        Ok((pos + "settings_2c2".unicode_len(), ProfileType::Settings2C2))
    } else if match_lit(s, pos, "settings_2a") {
        Ok((pos + "settings_2a".unicode_len(), ProfileType::Settings2A))
    } else if match_lit(s, pos, "settings_2b") {
        Ok((pos + "settings_2b".unicode_len(), ProfileType::Settings2B))
    } else if match_lit(s, pos, "settings_2c") {
        Ok((pos + "settings_2c".unicode_len(), ProfileType::Settings2C))
    } else if match_lit(s, pos, "settings_2") {
        Ok((pos + "settings_2".unicode_len(), ProfileType::Settings2))
    } else {
        Err(Error::UnrecognizedTag)
    }
}

/// One document-level command: a named value or the unknown-key
/// passthrough.
#[derive(Clone, Debug, PartialEq)]
pub enum Command {
    AdvancedShot(String),
    Author(String),
    BeverageType(BeverageType),
    EspressoDeclineTime(Num),
    EspressoHoldTime(Num),
    EspressoPressure(Num),
    EspressoTemperature(Num),
    EspressoTemperature0(Num),
    EspressoTemperature1(Num),
    EspressoTemperature2(Num),
    EspressoTemperature3(Num),
    EspressoTemperatureStepsEnabled(bool),
    FinalDesiredShotVolume(Num),
    FinalDesiredShotVolumeAdvanced(Num),
    FinalDesiredShotVolumeAdvancedCountStart(Num),
    FinalDesiredShotWeight(Num),
    FinalDesiredShotWeightAdvanced(Num),
    FlowProfileDecline(Num),
    FlowProfileDeclineTime(Num),
    FlowProfileHold(Num),
    FlowProfileHoldTime(Num),
    FlowProfileMinimumPressure(Num),
    FlowProfilePreinfusion(Num),
    FlowProfilePreinfusionTime(Num),
    MaximumFlow(Num),
    MaximumFlowRange(Num),
    MaximumFlowRangeAdvanced(Num),
    MaximumFlowRangeDefault(Num),
    MaximumPressure(Num),
    MaximumPressureRange(Num),
    MaximumPressureRangeAdvanced(Num),
    MaximumPressureRangeDefault(Num),
    PreinfusionFlowRate(Num),
    PreinfusionGuarantee(bool),
    PreinfusionStopPressure(Num),
    PreinfusionTime(Num),
    PressureEnd(Num),
    ProfileHide(bool),
    ProfileLanguage(String),
    ProfileNotes(String),
    ProfileTitle(String),
    SettingsProfileType(ProfileType),
    TankDesiredWaterTemperature(Num),
    WaterTemperature(Num),
    BeanBrand(String),
    BeanType(String),
    GrinderDoseWeight(Num),
    GrinderModel(String),
    GrinderSetting(String),
    Unknown(String, String),
}

/// The mathematical value of a [`Command`]: strings as character sequences.
pub enum CommandV {
    AdvancedShot(Seq<char>),
    Author(Seq<char>),
    BeverageType(BeverageType),
    EspressoDeclineTime(Num),
    EspressoHoldTime(Num),
    EspressoPressure(Num),
    EspressoTemperature(Num),
    EspressoTemperature0(Num),
    EspressoTemperature1(Num),
    EspressoTemperature2(Num),
    EspressoTemperature3(Num),
    EspressoTemperatureStepsEnabled(bool),
    FinalDesiredShotVolume(Num),
    FinalDesiredShotVolumeAdvanced(Num),
    FinalDesiredShotVolumeAdvancedCountStart(Num),
    FinalDesiredShotWeight(Num),
    FinalDesiredShotWeightAdvanced(Num),
    FlowProfileDecline(Num),
    FlowProfileDeclineTime(Num),
    FlowProfileHold(Num),
    FlowProfileHoldTime(Num),
    FlowProfileMinimumPressure(Num),
    FlowProfilePreinfusion(Num),
    FlowProfilePreinfusionTime(Num),
    MaximumFlow(Num),
    MaximumFlowRange(Num),
    MaximumFlowRangeAdvanced(Num),
    MaximumFlowRangeDefault(Num),
    MaximumPressure(Num),
    MaximumPressureRange(Num),
    MaximumPressureRangeAdvanced(Num),
    MaximumPressureRangeDefault(Num),
    PreinfusionFlowRate(Num),
    PreinfusionGuarantee(bool),
    PreinfusionStopPressure(Num),
    PreinfusionTime(Num),
    PressureEnd(Num),
    ProfileHide(bool),
    ProfileLanguage(Seq<char>),
    ProfileNotes(Seq<char>),
    ProfileTitle(Seq<char>),
    SettingsProfileType(ProfileType),
    TankDesiredWaterTemperature(Num),
    WaterTemperature(Num),
    BeanBrand(Seq<char>),
    BeanType(Seq<char>),
    GrinderDoseWeight(Num),
    GrinderModel(Seq<char>),
    GrinderSetting(Seq<char>),
    Unknown(Seq<char>, Seq<char>),
}

impl View for Command {
    type V = CommandV;

    open spec fn view(&self) -> CommandV {
        match self {
            Command::AdvancedShot(v) => CommandV::AdvancedShot(v@),
            Command::Author(v) => CommandV::Author(v@),
            Command::BeverageType(v) => CommandV::BeverageType(*v),
            Command::EspressoDeclineTime(v) => CommandV::EspressoDeclineTime(*v),
            Command::EspressoHoldTime(v) => CommandV::EspressoHoldTime(*v),
            Command::EspressoPressure(v) => CommandV::EspressoPressure(*v),
            Command::EspressoTemperature(v) => CommandV::EspressoTemperature(*v),
            Command::EspressoTemperature0(v) => CommandV::EspressoTemperature0(*v),
            Command::EspressoTemperature1(v) => CommandV::EspressoTemperature1(*v),
            Command::EspressoTemperature2(v) => CommandV::EspressoTemperature2(*v),
            Command::EspressoTemperature3(v) => CommandV::EspressoTemperature3(*v),
            Command::EspressoTemperatureStepsEnabled(v) => CommandV::EspressoTemperatureStepsEnabled(*v),
            Command::FinalDesiredShotVolume(v) => CommandV::FinalDesiredShotVolume(*v),
            Command::FinalDesiredShotVolumeAdvanced(v) => CommandV::FinalDesiredShotVolumeAdvanced(*v),
            Command::FinalDesiredShotVolumeAdvancedCountStart(v) => CommandV::FinalDesiredShotVolumeAdvancedCountStart(*v),
            Command::FinalDesiredShotWeight(v) => CommandV::FinalDesiredShotWeight(*v),
            Command::FinalDesiredShotWeightAdvanced(v) => CommandV::FinalDesiredShotWeightAdvanced(*v),
            Command::FlowProfileDecline(v) => CommandV::FlowProfileDecline(*v),
            Command::FlowProfileDeclineTime(v) => CommandV::FlowProfileDeclineTime(*v),
            Command::FlowProfileHold(v) => CommandV::FlowProfileHold(*v),
            Command::FlowProfileHoldTime(v) => CommandV::FlowProfileHoldTime(*v),
            Command::FlowProfileMinimumPressure(v) => CommandV::FlowProfileMinimumPressure(*v),
            Command::FlowProfilePreinfusion(v) => CommandV::FlowProfilePreinfusion(*v),
            Command::FlowProfilePreinfusionTime(v) => CommandV::FlowProfilePreinfusionTime(*v),
            Command::MaximumFlow(v) => CommandV::MaximumFlow(*v),
            Command::MaximumFlowRange(v) => CommandV::MaximumFlowRange(*v),
            Command::MaximumFlowRangeAdvanced(v) => CommandV::MaximumFlowRangeAdvanced(*v),
            Command::MaximumFlowRangeDefault(v) => CommandV::MaximumFlowRangeDefault(*v),
            Command::MaximumPressure(v) => CommandV::MaximumPressure(*v),
            Command::MaximumPressureRange(v) => CommandV::MaximumPressureRange(*v),
            Command::MaximumPressureRangeAdvanced(v) => CommandV::MaximumPressureRangeAdvanced(*v),
            Command::MaximumPressureRangeDefault(v) => CommandV::MaximumPressureRangeDefault(*v),
            Command::PreinfusionFlowRate(v) => CommandV::PreinfusionFlowRate(*v),
            Command::PreinfusionGuarantee(v) => CommandV::PreinfusionGuarantee(*v),
            Command::PreinfusionStopPressure(v) => CommandV::PreinfusionStopPressure(*v),
            Command::PreinfusionTime(v) => CommandV::PreinfusionTime(*v),
            Command::PressureEnd(v) => CommandV::PressureEnd(*v),
            Command::ProfileHide(v) => CommandV::ProfileHide(*v),
            Command::ProfileLanguage(v) => CommandV::ProfileLanguage(v@),
            Command::ProfileNotes(v) => CommandV::ProfileNotes(v@),
            Command::ProfileTitle(v) => CommandV::ProfileTitle(v@),
            Command::SettingsProfileType(v) => CommandV::SettingsProfileType(*v),
            Command::TankDesiredWaterTemperature(v) => CommandV::TankDesiredWaterTemperature(*v),
            Command::WaterTemperature(v) => CommandV::WaterTemperature(*v),
            Command::BeanBrand(v) => CommandV::BeanBrand(v@),
            Command::BeanType(v) => CommandV::BeanType(v@),
            Command::GrinderDoseWeight(v) => CommandV::GrinderDoseWeight(*v),
            Command::GrinderModel(v) => CommandV::GrinderModel(v@),
            Command::GrinderSetting(v) => CommandV::GrinderSetting(v@),
            Command::Unknown(k, v) => CommandV::Unknown(k@, v@),
        }
    }
}

/// The value kind a command key expects.
#[derive(Clone, Copy, Debug, PartialEq, Eq, Structural)]
pub enum CmdKind {
    BoolKind,
    NumberKind,
    StringKind,
    BeverageKind,
    ProfileTypeKind,
    UnknownKind,
}

/// The value kind each key of the closed command set expects; any other
/// key is unknown.
pub open spec fn spec_command_kind(key: Seq<char>) -> CmdKind {
    if key == "advanced_shot"@ {
        CmdKind::StringKind
    } else if key == "author"@ {
        CmdKind::StringKind
    } else if key == "profile_language"@ {
        CmdKind::StringKind
    } else if key == "profile_notes"@ {
        CmdKind::StringKind
    } else if key == "profile_title"@ {
        CmdKind::StringKind
    } else if key == "bean_brand"@ {
        CmdKind::StringKind
    } else if key == "bean_type"@ {
        CmdKind::StringKind
    } else if key == "grinder_model"@ {
        CmdKind::StringKind
    } else if key == "grinder_setting"@ {
        CmdKind::StringKind
    } else if key == "beverage_type"@ {
        CmdKind::BeverageKind
    } else if key == "settings_profile_type"@ {
        CmdKind::ProfileTypeKind
    } else if key == "espresso_temperature_steps_enabled"@ {
        CmdKind::BoolKind
    } else if key == "preinfusion_guarantee"@ {
        CmdKind::BoolKind
    } else if key == "profile_hide"@ {
        CmdKind::BoolKind
    } else if key == "espresso_decline_time"@ {
        CmdKind::NumberKind
    } else if key == "espresso_hold_time"@ {
        CmdKind::NumberKind
    } else if key == "espresso_pressure"@ {
        CmdKind::NumberKind
    } else if key == "espresso_temperature"@ {
        CmdKind::NumberKind
    } else if key == "espresso_temperature_0"@ {
        CmdKind::NumberKind
    } else if key == "espresso_temperature_1"@ {
        CmdKind::NumberKind
    } else if key == "espresso_temperature_2"@ {
        CmdKind::NumberKind
    } else if key == "espresso_temperature_3"@ {
        CmdKind::NumberKind
    } else if key == "final_desired_shot_volume"@ {
        CmdKind::NumberKind
    } else if key == "final_desired_shot_volume_advanced"@ {
        CmdKind::NumberKind
    } else if key == "final_desired_shot_volume_advanced_count_start"@ {
        CmdKind::NumberKind
    } else if key == "final_desired_shot_weight"@ {
        CmdKind::NumberKind
    } else if key == "final_desired_shot_weight_advanced"@ {
        CmdKind::NumberKind
    } else if key == "flow_profile_decline"@ {
        CmdKind::NumberKind
    } else if key == "flow_profile_decline_time"@ {
        CmdKind::NumberKind
    } else if key == "flow_profile_hold"@ {
        CmdKind::NumberKind
    } else if key == "flow_profile_hold_time"@ {
        CmdKind::NumberKind
    } else if key == "flow_profile_minimum_pressure"@ {
        CmdKind::NumberKind
    } else if key == "flow_profile_preinfusion"@ {
        CmdKind::NumberKind
    } else if key == "flow_profile_preinfusion_time"@ {
        CmdKind::NumberKind
    } else if key == "maximum_flow"@ {
        CmdKind::NumberKind
    } else if key == "maximum_flow_range"@ {
        CmdKind::NumberKind
    } else if key == "maximum_flow_range_advanced"@ {
        CmdKind::NumberKind
    } else if key == "maximum_flow_range_default"@ {
        CmdKind::NumberKind
    } else if key == "maximum_pressure"@ {
        CmdKind::NumberKind
    } else if key == "maximum_pressure_range"@ {
        CmdKind::NumberKind
    } else if key == "maximum_pressure_range_advanced"@ {
        CmdKind::NumberKind
    } else if key == "maximum_pressure_range_default"@ {
        CmdKind::NumberKind
    } else if key == "preinfusion_flow_rate"@ {
        CmdKind::NumberKind
    } else if key == "preinfusion_stop_pressure"@ {
        CmdKind::NumberKind
    } else if key == "preinfusion_time"@ {
        CmdKind::NumberKind
    } else if key == "pressure_end"@ {
        CmdKind::NumberKind
    } else if key == "tank_desired_water_temperature"@ {
        CmdKind::NumberKind
    } else if key == "water_temperature"@ {
        CmdKind::NumberKind
    } else if key == "grinder_dose_weight"@ {
        CmdKind::NumberKind
    } else {
        CmdKind::UnknownKind
    }
}

/// Decides the value kind of a key.
#[verifier::rlimit(100)]
pub fn command_kind(key: &str) -> (k: CmdKind)
    ensures
        k == spec_command_kind(key@),
{
    if crate::scan::str_eq(key, "advanced_shot") {
        CmdKind::StringKind
    } else if crate::scan::str_eq(key, "author") {
        CmdKind::StringKind
    } else if crate::scan::str_eq(key, "profile_language") {
        CmdKind::StringKind
    } else if crate::scan::str_eq(key, "profile_notes") {
        CmdKind::StringKind
    } else if crate::scan::str_eq(key, "profile_title") {
        CmdKind::StringKind
    } else if crate::scan::str_eq(key, "bean_brand") {
        CmdKind::StringKind
    } else if crate::scan::str_eq(key, "bean_type") {
        CmdKind::StringKind
    } else if crate::scan::str_eq(key, "grinder_model") {
        CmdKind::StringKind
    } else if crate::scan::str_eq(key, "grinder_setting") {
        CmdKind::StringKind
    } else if crate::scan::str_eq(key, "beverage_type") {
        CmdKind::BeverageKind
    } else if crate::scan::str_eq(key, "settings_profile_type") {
        CmdKind::ProfileTypeKind
    } else if crate::scan::str_eq(key, "espresso_temperature_steps_enabled") {
        CmdKind::BoolKind
    } else if crate::scan::str_eq(key, "preinfusion_guarantee") {
        CmdKind::BoolKind
    } else if crate::scan::str_eq(key, "profile_hide") {
        CmdKind::BoolKind
    } else if crate::scan::str_eq(key, "espresso_decline_time") {
        CmdKind::NumberKind
    } else if crate::scan::str_eq(key, "espresso_hold_time") {
        CmdKind::NumberKind
    } else if crate::scan::str_eq(key, "espresso_pressure") {
        CmdKind::NumberKind
    } else if crate::scan::str_eq(key, "espresso_temperature") {
        CmdKind::NumberKind
    } else if crate::scan::str_eq(key, "espresso_temperature_0") {
        CmdKind::NumberKind
    } else if crate::scan::str_eq(key, "espresso_temperature_1") {
        CmdKind::NumberKind
    } else if crate::scan::str_eq(key, "espresso_temperature_2") {
        CmdKind::NumberKind
    } else if crate::scan::str_eq(key, "espresso_temperature_3") {
        CmdKind::NumberKind
    } else if crate::scan::str_eq(key, "final_desired_shot_volume") {
        CmdKind::NumberKind
    } else if crate::scan::str_eq(key, "final_desired_shot_volume_advanced") {
        CmdKind::NumberKind
    } else if crate::scan::str_eq(key, "final_desired_shot_volume_advanced_count_start") {
        CmdKind::NumberKind
    } else if crate::scan::str_eq(key, "final_desired_shot_weight") {
        CmdKind::NumberKind
    } else if crate::scan::str_eq(key, "final_desired_shot_weight_advanced") {
        CmdKind::NumberKind
    } else if crate::scan::str_eq(key, "flow_profile_decline") {
        CmdKind::NumberKind
    } else if crate::scan::str_eq(key, "flow_profile_decline_time") {
        CmdKind::NumberKind
    } else if crate::scan::str_eq(key, "flow_profile_hold") {
        CmdKind::NumberKind
    } else if crate::scan::str_eq(key, "flow_profile_hold_time") {
        CmdKind::NumberKind
    } else if crate::scan::str_eq(key, "flow_profile_minimum_pressure") {
        CmdKind::NumberKind
    } else if crate::scan::str_eq(key, "flow_profile_preinfusion") {
        CmdKind::NumberKind
    } else if crate::scan::str_eq(key, "flow_profile_preinfusion_time") {
        CmdKind::NumberKind
    } else if crate::scan::str_eq(key, "maximum_flow") {
        CmdKind::NumberKind
    } else if crate::scan::str_eq(key, "maximum_flow_range") {
        CmdKind::NumberKind
    } else if crate::scan::str_eq(key, "maximum_flow_range_advanced") {
        CmdKind::NumberKind
    } else if crate::scan::str_eq(key, "maximum_flow_range_default") {
        CmdKind::NumberKind
    } else if crate::scan::str_eq(key, "maximum_pressure") {
        CmdKind::NumberKind
    } else if crate::scan::str_eq(key, "maximum_pressure_range") {
        CmdKind::NumberKind
    } else if crate::scan::str_eq(key, "maximum_pressure_range_advanced") {
        CmdKind::NumberKind
    } else if crate::scan::str_eq(key, "maximum_pressure_range_default") {
        CmdKind::NumberKind
    } else if crate::scan::str_eq(key, "preinfusion_flow_rate") {
        CmdKind::NumberKind
    } else if crate::scan::str_eq(key, "preinfusion_stop_pressure") {
        CmdKind::NumberKind
    } else if crate::scan::str_eq(key, "preinfusion_time") {
        CmdKind::NumberKind
    } else if crate::scan::str_eq(key, "pressure_end") {
        CmdKind::NumberKind
    } else if crate::scan::str_eq(key, "tank_desired_water_temperature") {
        CmdKind::NumberKind
    } else if crate::scan::str_eq(key, "water_temperature") {
        CmdKind::NumberKind
    } else if crate::scan::str_eq(key, "grinder_dose_weight") {
        CmdKind::NumberKind
    } else {
        CmdKind::UnknownKind
    }
}

/// The command a boolean-valued key wraps its value in.
pub open spec fn spec_wrap_bool(key: Seq<char>, v: bool) -> CommandV {
    if key == "espresso_temperature_steps_enabled"@ {
        CommandV::EspressoTemperatureStepsEnabled(v)
    } else if key == "preinfusion_guarantee"@ {
        CommandV::PreinfusionGuarantee(v)
    } else if key == "profile_hide"@ {
        CommandV::ProfileHide(v)
    } else {
        CommandV::Unknown(key, Seq::empty())
    }
}

fn wrap_bool(key: &str, v: bool) -> (c: Command)
    requires
        spec_command_kind(key@) == CmdKind::BoolKind,
    ensures
        c@ == spec_wrap_bool(key@, v),
{
    if crate::scan::str_eq(key, "espresso_temperature_steps_enabled") {
        Command::EspressoTemperatureStepsEnabled(v)
    } else if crate::scan::str_eq(key, "preinfusion_guarantee") {
        Command::PreinfusionGuarantee(v)
    } else if crate::scan::str_eq(key, "profile_hide") {
        Command::ProfileHide(v)
    } else {
        Command::Unknown(String::new(), String::new())
    }
}

/// The command a number-valued key wraps its value in.
pub open spec fn spec_wrap_number(key: Seq<char>, v: Num) -> CommandV {
    if key == "espresso_decline_time"@ {
        CommandV::EspressoDeclineTime(v)
    } else if key == "espresso_hold_time"@ {
        CommandV::EspressoHoldTime(v)
    } else if key == "espresso_pressure"@ {
        CommandV::EspressoPressure(v)
    } else if key == "espresso_temperature"@ {
        CommandV::EspressoTemperature(v)
    } else if key == "espresso_temperature_0"@ {
        CommandV::EspressoTemperature0(v)
    } else if key == "espresso_temperature_1"@ {
        CommandV::EspressoTemperature1(v)
    } else if key == "espresso_temperature_2"@ {
        CommandV::EspressoTemperature2(v)
    } else if key == "espresso_temperature_3"@ {
        CommandV::EspressoTemperature3(v)
    } else if key == "final_desired_shot_volume"@ {
        CommandV::FinalDesiredShotVolume(v)
    } else if key == "final_desired_shot_volume_advanced"@ {
        CommandV::FinalDesiredShotVolumeAdvanced(v)
    } else if key == "final_desired_shot_volume_advanced_count_start"@ {
        CommandV::FinalDesiredShotVolumeAdvancedCountStart(v)
    } else if key == "final_desired_shot_weight"@ {
        CommandV::FinalDesiredShotWeight(v)
    } else if key == "final_desired_shot_weight_advanced"@ {
        CommandV::FinalDesiredShotWeightAdvanced(v)
    } else if key == "flow_profile_decline"@ {
        CommandV::FlowProfileDecline(v)
    } else if key == "flow_profile_decline_time"@ {
        CommandV::FlowProfileDeclineTime(v)
    } else if key == "flow_profile_hold"@ {
        CommandV::FlowProfileHold(v)
    } else if key == "flow_profile_hold_time"@ {
        CommandV::FlowProfileHoldTime(v)
    } else if key == "flow_profile_minimum_pressure"@ {
        CommandV::FlowProfileMinimumPressure(v)
    } else if key == "flow_profile_preinfusion"@ {
        CommandV::FlowProfilePreinfusion(v)
    } else if key == "flow_profile_preinfusion_time"@ {
        CommandV::FlowProfilePreinfusionTime(v)
    } else if key == "maximum_flow"@ {
        CommandV::MaximumFlow(v)
    } else if key == "maximum_flow_range"@ {
        CommandV::MaximumFlowRange(v)
    } else if key == "maximum_flow_range_advanced"@ {
        CommandV::MaximumFlowRangeAdvanced(v)
    } else if key == "maximum_flow_range_default"@ {
        CommandV::MaximumFlowRangeDefault(v)
    } else if key == "maximum_pressure"@ {
        CommandV::MaximumPressure(v)
    } else if key == "maximum_pressure_range"@ {
        CommandV::MaximumPressureRange(v)
    } else if key == "maximum_pressure_range_advanced"@ {
        CommandV::MaximumPressureRangeAdvanced(v)
    } else if key == "maximum_pressure_range_default"@ {
        CommandV::MaximumPressureRangeDefault(v)
    } else if key == "preinfusion_flow_rate"@ {
        CommandV::PreinfusionFlowRate(v)
    } else if key == "preinfusion_stop_pressure"@ {
        CommandV::PreinfusionStopPressure(v)
    } else if key == "preinfusion_time"@ {
        CommandV::PreinfusionTime(v)
    } else if key == "pressure_end"@ {
        CommandV::PressureEnd(v)
    } else if key == "tank_desired_water_temperature"@ {
        CommandV::TankDesiredWaterTemperature(v)
    } else if key == "water_temperature"@ {
        CommandV::WaterTemperature(v)
    } else if key == "grinder_dose_weight"@ {
        CommandV::GrinderDoseWeight(v)
    } else {
        CommandV::Unknown(key, Seq::empty())
    }
}

#[verifier::rlimit(100)]
fn wrap_number(key: &str, v: Num) -> (c: Command)
    requires
        spec_command_kind(key@) == CmdKind::NumberKind,
    ensures
        c@ == spec_wrap_number(key@, v),
{
    if crate::scan::str_eq(key, "espresso_decline_time") {
        Command::EspressoDeclineTime(v)
    } else if crate::scan::str_eq(key, "espresso_hold_time") {
        Command::EspressoHoldTime(v)
    } else if crate::scan::str_eq(key, "espresso_pressure") {
        Command::EspressoPressure(v)
    } else if crate::scan::str_eq(key, "espresso_temperature") {
        Command::EspressoTemperature(v)
    } else if crate::scan::str_eq(key, "espresso_temperature_0") {
        Command::EspressoTemperature0(v)
    } else if crate::scan::str_eq(key, "espresso_temperature_1") {
        Command::EspressoTemperature1(v)
    } else if crate::scan::str_eq(key, "espresso_temperature_2") {
        Command::EspressoTemperature2(v)
    } else if crate::scan::str_eq(key, "espresso_temperature_3") {
        Command::EspressoTemperature3(v)
    } else if crate::scan::str_eq(key, "final_desired_shot_volume") {
        Command::FinalDesiredShotVolume(v)
    } else if crate::scan::str_eq(key, "final_desired_shot_volume_advanced") {
        Command::FinalDesiredShotVolumeAdvanced(v)
    } else if crate::scan::str_eq(key, "final_desired_shot_volume_advanced_count_start") {
        Command::FinalDesiredShotVolumeAdvancedCountStart(v)
    } else if crate::scan::str_eq(key, "final_desired_shot_weight") {
        Command::FinalDesiredShotWeight(v)
    } else if crate::scan::str_eq(key, "final_desired_shot_weight_advanced") {
        Command::FinalDesiredShotWeightAdvanced(v)
    } else if crate::scan::str_eq(key, "flow_profile_decline") {
        Command::FlowProfileDecline(v)
    } else if crate::scan::str_eq(key, "flow_profile_decline_time") {
        Command::FlowProfileDeclineTime(v)
    } else if crate::scan::str_eq(key, "flow_profile_hold") {
        Command::FlowProfileHold(v)
    } else if crate::scan::str_eq(key, "flow_profile_hold_time") {
        Command::FlowProfileHoldTime(v)
    } else if crate::scan::str_eq(key, "flow_profile_minimum_pressure") {
        Command::FlowProfileMinimumPressure(v)
    } else if crate::scan::str_eq(key, "flow_profile_preinfusion") {
        Command::FlowProfilePreinfusion(v)
    } else if crate::scan::str_eq(key, "flow_profile_preinfusion_time") {
        Command::FlowProfilePreinfusionTime(v)
    } else if crate::scan::str_eq(key, "maximum_flow") {
        Command::MaximumFlow(v)
    } else if crate::scan::str_eq(key, "maximum_flow_range") {
        Command::MaximumFlowRange(v)
    } else if crate::scan::str_eq(key, "maximum_flow_range_advanced") {
        Command::MaximumFlowRangeAdvanced(v)
    } else if crate::scan::str_eq(key, "maximum_flow_range_default") {
        Command::MaximumFlowRangeDefault(v)
    } else if crate::scan::str_eq(key, "maximum_pressure") {
        Command::MaximumPressure(v)
    } else if crate::scan::str_eq(key, "maximum_pressure_range") {
        Command::MaximumPressureRange(v)
    } else if crate::scan::str_eq(key, "maximum_pressure_range_advanced") {
        Command::MaximumPressureRangeAdvanced(v)
    } else if crate::scan::str_eq(key, "maximum_pressure_range_default") {
        Command::MaximumPressureRangeDefault(v)
    } else if crate::scan::str_eq(key, "preinfusion_flow_rate") {
        Command::PreinfusionFlowRate(v)
    } else if crate::scan::str_eq(key, "preinfusion_stop_pressure") {
        Command::PreinfusionStopPressure(v)
    } else if crate::scan::str_eq(key, "preinfusion_time") {
        Command::PreinfusionTime(v)
    } else if crate::scan::str_eq(key, "pressure_end") {
        Command::PressureEnd(v)
    } else if crate::scan::str_eq(key, "tank_desired_water_temperature") {
        Command::TankDesiredWaterTemperature(v)
    } else if crate::scan::str_eq(key, "water_temperature") {
        Command::WaterTemperature(v)
    } else if crate::scan::str_eq(key, "grinder_dose_weight") {
        Command::GrinderDoseWeight(v)
    } else {
        Command::Unknown(String::new(), String::new())
    }
}

/// The command a string-valued key wraps its value in.
pub open spec fn spec_wrap_string(key: Seq<char>, v: Seq<char>) -> CommandV {
    if key == "advanced_shot"@ {
        CommandV::AdvancedShot(v)
    } else if key == "author"@ {
        CommandV::Author(v)
    } else if key == "profile_language"@ {
        CommandV::ProfileLanguage(v)
    } else if key == "profile_notes"@ {
        CommandV::ProfileNotes(v)
    } else if key == "profile_title"@ {
        CommandV::ProfileTitle(v)
    } else if key == "bean_brand"@ {
        CommandV::BeanBrand(v)
    } else if key == "bean_type"@ {
        CommandV::BeanType(v)
    } else if key == "grinder_model"@ {
        CommandV::GrinderModel(v)
    } else if key == "grinder_setting"@ {
        CommandV::GrinderSetting(v)
    } else {
        CommandV::Unknown(key, v)
    }
}

fn wrap_string(key: &str, v: String, Ghost(vk): Ghost<Seq<char>>) -> (c: Command)
    requires
        spec_command_kind(key@) == CmdKind::StringKind,
        v@ == vk,
    ensures
        c@ == spec_wrap_string(key@, vk),
{
    if crate::scan::str_eq(key, "advanced_shot") {
        Command::AdvancedShot(v)
    } else if crate::scan::str_eq(key, "author") {
        Command::Author(v)
    } else if crate::scan::str_eq(key, "profile_language") {
        Command::ProfileLanguage(v)
    } else if crate::scan::str_eq(key, "profile_notes") {
        Command::ProfileNotes(v)
    } else if crate::scan::str_eq(key, "profile_title") {
        Command::ProfileTitle(v)
    } else if crate::scan::str_eq(key, "bean_brand") {
        Command::BeanBrand(v)
    } else if crate::scan::str_eq(key, "bean_type") {
        Command::BeanType(v)
    } else if crate::scan::str_eq(key, "grinder_model") {
        Command::GrinderModel(v)
    } else if crate::scan::str_eq(key, "grinder_setting") {
        Command::GrinderSetting(v)
    } else {
        Command::Unknown(String::new(), v)
    }
}

/// A command whose key has been read: the value the key's kind expects
/// follows, and the key wraps it; an unknown key takes a string value.
pub open spec fn spec_command_with_key(s: Seq<char>, key: Seq<char>, q: int) -> Result<
    (int, CommandV),
    Error,
> {
    match spec_command_kind(key) {
        CmdKind::BoolKind => match spec_bool_val(s, q) {
            Ok((p2, v)) => Ok((p2, spec_wrap_bool(key, v))),
            Err(e) => Err(e),
        },
        CmdKind::NumberKind => match spec_number_val(s, q) {
            Ok((p2, v)) => Ok((p2, spec_wrap_number(key, v))),
            Err(e) => Err(e),
        },
        CmdKind::StringKind => match spec_string_val(s, q) {
            Ok((p2, v)) => Ok((p2, spec_wrap_string(key, v))),
            Err(e) => Err(e),
        },
        CmdKind::BeverageKind => match spec_beverage_type_val(s, q) {
            Ok((p2, v)) => Ok((p2, CommandV::BeverageType(v))),
            Err(e) => Err(e),
        },
        CmdKind::ProfileTypeKind => match spec_profile_type_val(s, q) {
            Ok((p2, v)) => Ok((p2, CommandV::SettingsProfileType(v))),
            Err(e) => Err(e),
        },
        CmdKind::UnknownKind => match spec_string_val(s, q) {
            Ok((p2, v)) => Ok((p2, CommandV::Unknown(key, v))),
            Err(e) => Err(e),
        },
    }
}

/// A command: a key token, at least one space or tab, then the value the
/// key's kind expects.
pub open spec fn spec_command(s: Seq<char>, pos: int) -> Result<(int, CommandV), Error> {
    let k = run_len(s, pos, CharClass::Token) as int;
    let key = s.subrange(pos, pos + k);
    let p = pos + k;
    let w = run_len(s, p, CharClass::Space) as int;
    let q = p + w;
    if k == 0 || w == 0 {
        Err(Error::MalformedValue)
    } else {
        spec_command_with_key(s, key, q)
    }
}

/// Reads one command.
pub fn command(s: &str, pos: usize) -> (r: Result<(usize, Command), Error>)
    requires
        pos <= s@.len(),
    ensures
        match r {
            Ok((p, v)) => spec_command(s@, pos as int) == Ok::<_, Error>((p as int, v@)),
            Err(e) => spec_command(s@, pos as int) == Err::<(int, CommandV), _>(e),
        },
{
    proof {
        lemma_run_len_bound(s@, pos as int, CharClass::Token);
    }
    let ke = scan_run(s, pos, CharClass::Token);
    if ke == pos {
        return Err(Error::MalformedValue);
    }
    let key = s.substring_char(pos, ke);
    proof {
        lemma_run_len_bound(s@, ke as int, CharClass::Space);
    }
    let q = scan_run(s, ke, CharClass::Space);
    if q == ke {
        return Err(Error::MalformedValue);
    }
    match command_kind(key) {
        CmdKind::BoolKind => match bool_val(s, q) {
            Ok((p2, v)) => Ok((p2, wrap_bool(key, v))),
            Err(e) => Err(e),
        },
        CmdKind::NumberKind => match number_val(s, q) {
            Ok((p2, v)) => Ok((p2, wrap_number(key, v))),
            Err(e) => Err(e),
        },
        CmdKind::StringKind => match string_val(s, q) {
            Ok((p2, v)) => {
                let ghost vk = v@;
                Ok((p2, wrap_string(key, v, Ghost(vk))))
            },
            Err(e) => Err(e),
        },
        CmdKind::BeverageKind => match beverage_type_val(s, q) {
            Ok((p2, v)) => Ok((p2, Command::BeverageType(v))),
            Err(e) => Err(e),
        },
        CmdKind::ProfileTypeKind => match profile_type_val(s, q) {
            Ok((p2, v)) => Ok((p2, Command::SettingsProfileType(v))),
            Err(e) => Err(e),
        },
        CmdKind::UnknownKind => match string_val(s, q) {
            Ok((p2, v)) => Ok((p2, Command::Unknown(key.to_owned(), v))),
            Err(e) => Err(e),
        },
    }
}

/// A successful command read always advances, and never past the end.
pub proof fn lemma_command_progress(s: Seq<char>, pos: int)
    requires
        0 <= pos <= s.len(),
    ensures
        spec_command(s, pos) matches Ok(pv) ==> pos < pv.0 <= s.len(),
{
    lemma_run_len_bound(s, pos, CharClass::Token);
    let k = run_len(s, pos, CharClass::Token) as int;
    let key = s.subrange(pos, pos + k);
    let p = pos + k;
    lemma_run_len_bound(s, p, CharClass::Space);
    let w = run_len(s, p, CharClass::Space) as int;
    let q = p + w;
    if k == 0 || w == 0 {
        return ;
    }
    match spec_command_kind(key) {
        CmdKind::NumberKind => lemma_number_val_bounds(s, q),
        CmdKind::StringKind => lemma_string_val_bounds(s, q),
        CmdKind::UnknownKind => lemma_string_val_bounds(s, q),
        _ => {
        },
    }
}

/// The views of a list of commands.
pub open spec fn commands_view(v: Seq<Command>) -> Seq<CommandV> {
    v.map_values(|c: Command| c@)
}

/// Commands after the first, separated by optional whitespace.
pub open spec fn spec_commands_more(s: Seq<char>, p: int) -> (int, Seq<CommandV>)
    decreases s.len() - p when 0 <= p <= s.len()
{
    let w = run_len(s, p, CharClass::Multispace) as int;
    match spec_command(s, p + w) {
        Err(_) => (p, Seq::empty()),
        Ok((p2, v)) => if p < p2 <= s.len() {
            let rest = spec_commands_more(s, p2);
            (rest.0, seq![v] + rest.1)
        } else {
            (p, Seq::empty())
        },
    }
}

/// A command list, possibly empty; stops before whatever fails to parse.
pub open spec fn spec_profile(s: Seq<char>, pos: int) -> (int, Seq<CommandV>) {
    match spec_command(s, pos) {
        Err(_) => (pos, Seq::empty()),
        Ok((p, v)) => if pos < p <= s.len() {
            let rest = spec_commands_more(s, p);
            (rest.0, seq![v] + rest.1)
        } else {
            (pos, Seq::empty())
        },
    }
}

pub proof fn lemma_commands_more_bounds(s: Seq<char>, p: int)
    requires
        0 <= p <= s.len(),
    ensures
        p <= spec_commands_more(s, p).0 <= s.len(),
    decreases s.len() - p,
{
    let w = run_len(s, p, CharClass::Multispace) as int;
    if let Ok((p2, v)) = spec_command(s, p + w) {
        if p < p2 <= s.len() {
            lemma_commands_more_bounds(s, p2);
        }
    }
}

pub proof fn lemma_profile_bounds(s: Seq<char>, pos: int)
    requires
        0 <= pos <= s.len(),
    ensures
        pos <= spec_profile(s, pos).0 <= s.len(),
{
    if let Ok((p, v)) = spec_command(s, pos) {
        if pos < p <= s.len() {
            lemma_commands_more_bounds(s, p);
        }
    }
}

/// Reads a whitespace-separated command list; stops before whatever fails
/// to parse.
pub fn profile(s: &str, pos: usize) -> (r: (usize, Vec<Command>))
    requires
        pos <= s@.len(),
    ensures
        r.0 == spec_profile(s@, pos as int).0,
        commands_view(r.1@) == spec_profile(s@, pos as int).1,
{
    let ghost target = spec_profile(s@, pos as int);
    let mut out: Vec<Command> = Vec::new();
    let mut cur: usize;
    match command(s, pos) {
        Err(_) => {
            proof {
                assert(commands_view(out@) =~= target.1);
            }
            return (pos, out);
        },
        Ok((p, v)) => {
            proof {
                lemma_command_progress(s@, pos as int);
            }
            out.push(v);
            cur = p;
            proof {
                assert(commands_view(out@) =~= seq![out@[0]@]);
            }
        },
    }
    loop
        invariant
            pos <= cur <= s@.len(),
            target == spec_profile(s@, pos as int),
            target.0 == spec_commands_more(s@, cur as int).0,
            target.1 == commands_view(out@) + spec_commands_more(s@, cur as int).1,
        decreases s@.len() - cur,
    {
        proof {
            lemma_run_len_bound(s@, cur as int, CharClass::Multispace);
        }
        let we = scan_run(s, cur, CharClass::Multispace);
        match command(s, we) {
            Err(_) => {
                proof {
                    assert(target.1 =~= commands_view(out@));
                }
                return (cur, out);
            },
            Ok((p2, v)) => {
                proof {
                    lemma_command_progress(s@, we as int);
                }
                let ghost old_out = out@;
                out.push(v);
                cur = p2;
                proof {
                    assert(commands_view(old_out.push(v)) =~= commands_view(old_out).push(v@));
                    assert(target.1 =~= commands_view(out@) + spec_commands_more(
                        s@,
                        cur as int,
                    ).1);
                }
            },
        }
    }
}

} // verus!
