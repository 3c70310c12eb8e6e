//! Parsed profiles and shot-trace synthesis.
//!
//! A [`Profile`] is the parsed command list of one document.  [`analyze`]
//! walks an ordered step list and draws three channels — temperature,
//! pressure, flow — as lists of line segments in (time, value) space,
//! together with the total elapsed time.  The drawing rules:
//!
//! * a channel's property acts only when the step's pump drives that
//!   channel (temperature always acts);
//! * a `Fast` transition jumps vertically then holds; `Smooth` ramps in one
//!   diagonal segment; a channel's first value ramps up from zero;
//! * when the pump changes channel, the abandoned channel's trace is closed
//!   with a vertical drop to zero at its last position;
//! * a flow-kind early exit in the previous step replaces the flow trace's
//!   effective prior value with the exit threshold, after a corrective
//!   vertical segment.
//!
//! The whole computation is a pure function of the step list, stated by
//! [`spec_analyze`]; [`analyze`] returns exactly that value.

use vstd::prelude::*;

use crate::command::{commands_view, spec_profile, Command, CommandV, ProfileType};
use crate::num::{spec_num_add, Num};
use crate::parser::{
    spec_step_exit_flow, spec_step_pump, spec_step_seconds, spec_step_transition, steps_view,
    Prop, PropV, PumpType, Step, TransitionType,
};
use crate::scan::{lemma_run_len_bound, run_len, scan_run, CharClass};
use crate::Error;

verus! {

/// One line piece of a channel's trace, in (time, value) space.
#[derive(Clone, Copy, Debug, PartialEq, Eq, Structural)]
pub struct Segment {
    pub x1: Num,
    pub y1: Num,
    pub x2: Num,
    pub y2: Num,
}

/// The zero value.
pub open spec fn num_zero() -> Num {
    Num { mantissa: 0, scale: 0 }
}

/// The analyzer's carried state: the three traces, each trace's last
/// emitted segment, the elapsed time, and what the previous step handed on.
pub struct AState {
    pub t: Seq<Segment>,
    pub p: Seq<Segment>,
    pub f: Seq<Segment>,
    pub last_t: Option<Segment>,
    pub last_p: Option<Segment>,
    pub last_f: Option<Segment>,
    pub elapsed: Num,
    pub prev_pump: Option<PumpType>,
    pub prev_exit_flow: Option<Num>,
}

/// The analyzer's initial state: empty traces at time zero.
pub open spec fn init_state() -> AState {
    AState {
        t: Seq::empty(),
        p: Seq::empty(),
        f: Seq::empty(),
        last_t: None,
        last_p: None,
        last_f: None,
        elapsed: num_zero(),
        prev_pump: None,
        prev_exit_flow: None,
    }
}

/// The effect of one property on the state, within a step whose transition
/// is `tr`, whose pump is `pump`, and which ends at time `end`.
pub open spec fn spec_apply_prop(
    st: AState,
    pr: PropV,
    tr: TransitionType,
    pump: PumpType,
    end: Num,
) -> AState {
    match pr {
        PropV::Temperature(t) => {
            let run = Segment { x1: st.elapsed, y1: t, x2: end, y2: t };
            match st.last_t {
                Some(lt) => AState {
                    t: st.t + seq![
                        Segment { x1: st.elapsed, y1: lt.y2, x2: st.elapsed, y2: t },
                        run,
                    ],
                    last_t: Some(run),
                    ..st
                },
                None => AState { t: st.t.push(run), last_t: Some(run), ..st },
            }
        },
        PropV::Pressure(v) => {
            if pump != PumpType::Pressure {
                st
            } else {
                let st1 = match (st.prev_pump, st.last_f) {
                    (Some(PumpType::Flow), Some(lf)) => {
                        let shut = Segment { x1: lf.x2, y1: lf.y2, x2: lf.x2, y2: num_zero() };
                        AState { f: st.f.push(shut), last_f: Some(shut), ..st }
                    },
                    _ => st,
                };
                match st1.last_p {
                    Some(lp) => match tr {
                        TransitionType::Fast => {
                            let run = Segment { x1: st.elapsed, y1: v, x2: end, y2: v };
                            AState {
                                p: st1.p + seq![
                                    Segment { x1: st.elapsed, y1: lp.y2, x2: st.elapsed, y2: v },
                                    run,
                                ],
                                last_p: Some(run),
                                ..st1
                            }
                        },
                        TransitionType::Smooth => {
                            let ramp = Segment { x1: st.elapsed, y1: lp.y2, x2: end, y2: v };
                            AState { p: st1.p.push(ramp), last_p: Some(ramp), ..st1 }
                        },
                    },
                    None => {
                        let run = Segment { x1: st.elapsed, y1: v, x2: end, y2: v };
                        AState {
                            p: st1.p + seq![
                                Segment { x1: st.elapsed, y1: num_zero(), x2: st.elapsed, y2: v },
                                run,
                            ],
                            last_p: Some(run),
                            ..st1
                        }
                    },
                }
            }
        },
        PropV::Flow(v) => {
            if pump != PumpType::Flow {
                st
            } else {
                let st1 = match (st.prev_pump, st.last_p) {
                    (Some(PumpType::Pressure), Some(lp)) => {
                        let shut = Segment { x1: lp.x2, y1: lp.y2, x2: lp.x2, y2: num_zero() };
                        AState { p: st.p.push(shut), last_p: Some(shut), ..st }
                    },
                    _ => st,
                };
                match st1.last_f {
                    Some(lf) => {
                        let corr = match st.prev_exit_flow {
                            Some(fv) => seq![
                                Segment { x1: st.elapsed, y1: lf.y2, x2: st.elapsed, y2: fv },
                            ],
                            None => Seq::<Segment>::empty(),
                        };
                        let eff = match st.prev_exit_flow {
                            Some(fv) => fv,
                            None => lf.y2,
                        };
                        match tr {
                            TransitionType::Fast => {
                                let run = Segment { x1: st.elapsed, y1: v, x2: end, y2: v };
                                AState {
                                    f: st1.f + corr + seq![
                                        Segment {
                                            x1: st.elapsed,
                                            y1: eff,
                                            x2: st.elapsed,
                                            y2: v,
                                        },
                                        run,
                                    ],
                                    last_f: Some(run),
                                    ..st1
                                }
                            },
                            TransitionType::Smooth => {
                                let ramp = Segment { x1: st.elapsed, y1: eff, x2: end, y2: v };
                                AState { f: st1.f + corr + seq![ramp], last_f: Some(ramp), ..st1 }
                            },
                        }
                    },
                    None => {
                        let run = Segment { x1: st.elapsed, y1: v, x2: end, y2: v };
                        AState {
                            f: st1.f + seq![
                                Segment { x1: st.elapsed, y1: num_zero(), x2: st.elapsed, y2: v },
                                run,
                            ],
                            last_f: Some(run),
                            ..st1
                        }
                    },
                }
            }
        },
        _ => st,
    }
}

/// The effect of a step's properties from index `i` on, in source order.
pub open spec fn spec_apply_props(
    st: AState,
    props: Seq<PropV>,
    i: int,
    tr: TransitionType,
    pump: PumpType,
    end: Num,
) -> AState
    decreases props.len() - i when 0 <= i <= props.len()
{
    if i < 0 || i >= props.len() {
        st
    } else {
        spec_apply_props(spec_apply_prop(st, props[i], tr, pump, end), props, i + 1, tr, pump, end)
    }
}

/// The analyzer over the steps from index `i` on.
///
/// Each step must resolve a duration, a transition and a pump, else the
/// analysis fails with a required-value error; an elapsed time that cannot
/// be held exactly is malformed.  After a step, the elapsed time has grown
/// by the step's duration and the step's pump and flow-exit threshold are
/// handed to the next step.
pub open spec fn spec_analyze_from(steps: Seq<Seq<PropV>>, i: int, st: AState) -> Result<
    AState,
    Error,
>
    decreases steps.len() - i when 0 <= i <= steps.len()
{
    if i < 0 || i >= steps.len() {
        Ok(st)
    } else {
        let props = steps[i];
        match (spec_step_seconds(props), spec_step_transition(props), spec_step_pump(props)) {
            (Some(dur), Some(tr), Some(pump)) => match spec_num_add(st.elapsed, dur) {
                Some(end) => {
                    let st1 = spec_apply_props(st, props, 0, tr, pump, end);
                    let st2 = AState {
                        elapsed: end,
                        prev_pump: Some(pump),
                        prev_exit_flow: spec_step_exit_flow(props),
                        ..st1
                    };
                    spec_analyze_from(steps, i + 1, st2)
                },
                None => Err(Error::MalformedValue),
            },
            _ => Err(Error::MissingRequiredProp),
        }
    }
}

/// The mathematical value of an analysis: the three traces and the total
/// elapsed time.
pub struct AnalyzedV {
    pub temperature: Seq<Segment>,
    pub pressure: Seq<Segment>,
    pub flow: Seq<Segment>,
    pub elapsed_time: Num,
}

/// The full analysis of a step list.
pub open spec fn spec_analyze(steps: Seq<Seq<PropV>>) -> Result<AnalyzedV, Error> {
    match spec_analyze_from(steps, 0, init_state()) {
        Ok(st) => Ok(
            AnalyzedV {
                temperature: st.t,
                pressure: st.p,
                flow: st.f,
                elapsed_time: st.elapsed,
            },
        ),
        Err(e) => Err(e),
    }
}

/// The plottable traces of one analyzed step sequence.
#[derive(Clone, Debug, PartialEq)]
pub struct AnalyzedProfile {
    pub temperature: Vec<Segment>,
    pub pressure: Vec<Segment>,
    pub flow: Vec<Segment>,
    pub elapsed_time: Num,
}

impl View for AnalyzedProfile {
    type V = AnalyzedV;

    open spec fn view(&self) -> AnalyzedV {
        AnalyzedV {
            temperature: self.temperature@,
            pressure: self.pressure@,
            flow: self.flow@,
            elapsed_time: self.elapsed_time,
        }
    }
}

/// The state a set of analyzer locals denotes.
pub open spec fn mk_state(
    t: Seq<Segment>,
    p: Seq<Segment>,
    f: Seq<Segment>,
    last_t: Option<Segment>,
    last_p: Option<Segment>,
    last_f: Option<Segment>,
    elapsed: Num,
    prev_pump: Option<PumpType>,
    prev_exit_flow: Option<Num>,
) -> AState {
    AState { t, p, f, last_t, last_p, last_f, elapsed, prev_pump, prev_exit_flow }
}

/// Walks the steps in order and draws the three channel traces.
///
/// Returns exactly [`spec_analyze`] of the step list: the same steps always
/// yield the same analysis.
pub fn analyze(steps: &[Step]) -> (r: Result<AnalyzedProfile, Error>)
    ensures
        match r {
            Ok(ap) => spec_analyze(steps_view(steps@)) == Ok::<AnalyzedV, Error>(ap@),
            Err(e) => spec_analyze(steps_view(steps@)) == Err::<AnalyzedV, Error>(e),
        },
{
    let ghost sv = steps_view(steps@);
    let mut temperature_pos: Vec<Segment> = Vec::new();
    let mut pressure_pos: Vec<Segment> = Vec::new();
    let mut flow_pos: Vec<Segment> = Vec::new();
    let mut last_temperature_pos: Option<Segment> = None;
    let mut last_pressure_pos: Option<Segment> = None;
    let mut last_flow_pos: Option<Segment> = None;
    let mut elapsed_time = Num { mantissa: 0, scale: 0 };
    let mut prev_pump: Option<PumpType> = None;
    let mut prev_exit_flow: Option<Num> = None;
    let n = steps.len();
    let mut i: usize = 0;
    while i < n
        invariant
            0 <= i <= n == steps@.len(),
            sv == steps_view(steps@),
            spec_analyze_from(
                sv,
                i as int,
                mk_state(
                    temperature_pos@,
                    pressure_pos@,
                    flow_pos@,
                    last_temperature_pos,
                    last_pressure_pos,
                    last_flow_pos,
                    elapsed_time,
                    prev_pump,
                    prev_exit_flow,
                ),
            ) == spec_analyze_from(sv, 0, init_state()),
        decreases n - i,
    {
        let step = &steps[i];
        proof {
            assert(sv[i as int] == step@);
        }
        let duration = match step.seconds() {
            Ok(v) => v,
            Err(e) => {
                return Err(e);
            },
        };
        let transition = match step.transition() {
            Ok(v) => v,
            Err(e) => {
                return Err(e);
            },
        };
        let pump = match step.pump() {
            Ok(v) => v,
            Err(e) => {
                return Err(e);
            },
        };
        let end = match elapsed_time.add(duration) {
            Ok(v) => v,
            Err(e) => {
                return Err(e);
            },
        };
        let ghost st_enter = mk_state(
            temperature_pos@,
            pressure_pos@,
            flow_pos@,
            last_temperature_pos,
            last_pressure_pos,
            last_flow_pos,
            elapsed_time,
            prev_pump,
            prev_exit_flow,
        );
        let m = step.0.len();
        let mut j: usize = 0;
        while j < m
            invariant
                0 <= j <= m == step.0.len(),
                sv == steps_view(steps@),
                elapsed_time == st_enter.elapsed,
                prev_pump == st_enter.prev_pump,
                prev_exit_flow == st_enter.prev_exit_flow,
                spec_apply_props(
                    mk_state(
                        temperature_pos@,
                        pressure_pos@,
                        flow_pos@,
                        last_temperature_pos,
                        last_pressure_pos,
                        last_flow_pos,
                        elapsed_time,
                        prev_pump,
                        prev_exit_flow,
                    ),
                    step@,
                    j as int,
                    transition,
                    pump,
                    end,
                ) == spec_apply_props(st_enter, step@, 0, transition, pump, end),
            decreases m - j,
        {
            let ghost st_now = mk_state(
                temperature_pos@,
                pressure_pos@,
                flow_pos@,
                last_temperature_pos,
                last_pressure_pos,
                last_flow_pos,
                elapsed_time,
                prev_pump,
                prev_exit_flow,
            );
            proof {
                assert(step@[j as int] == step.0@[j as int]@);
            }
            match &step.0[j] {
                Prop::Temperature(tv) => {
                    let t = *tv;
                    let run = Segment { x1: elapsed_time, y1: t, x2: end, y2: t };
                    match last_temperature_pos {
                        Some(lt) => {
                            temperature_pos.push(
                                Segment { x1: elapsed_time, y1: lt.y2, x2: elapsed_time, y2: t },
                            );
                            temperature_pos.push(run);
                        },
                        None => {
                            temperature_pos.push(run);
                        },
                    }
                    last_temperature_pos = Some(run);
                    proof {
                        assert(temperature_pos@ =~= spec_apply_prop(
                            st_now,
                            step@[j as int],
                            transition,
                            pump,
                            end,
                        ).t);
                    }
                },
                Prop::Pressure(pv) => {
                    if pump == PumpType::Pressure {
                        let v = *pv;
                        match (prev_pump, last_flow_pos) {
                            (Some(PumpType::Flow), Some(lf)) => {
                                let shut = Segment {
                                    x1: lf.x2,
                                    y1: lf.y2,
                                    x2: lf.x2,
                                    y2: Num { mantissa: 0, scale: 0 },
                                };
                                flow_pos.push(shut);
                                last_flow_pos = Some(shut);
                            },
                            _ => {
                            },
                        }
                        match last_pressure_pos {
                            Some(lp) => {
                                match transition {
                                    TransitionType::Fast => {
                                        let run = Segment {
                                            x1: elapsed_time,
                                            y1: v,
                                            x2: end,
                                            y2: v,
                                        };
                                        pressure_pos.push(
                                            Segment {
                                                x1: elapsed_time,
                                                y1: lp.y2,
                                                x2: elapsed_time,
                                                y2: v,
                                            },
                                        );
                                        pressure_pos.push(run);
                                        last_pressure_pos = Some(run);
                                    },
                                    TransitionType::Smooth => {
                                        let ramp = Segment {
                                            x1: elapsed_time,
                                            y1: lp.y2,
                                            x2: end,
                                            y2: v,
                                        };
                                        pressure_pos.push(ramp);
                                        last_pressure_pos = Some(ramp);
                                    },
                                }
                            },
                            None => {
                                let run = Segment { x1: elapsed_time, y1: v, x2: end, y2: v };
                                pressure_pos.push(
                                    Segment {
                                        x1: elapsed_time,
                                        y1: Num { mantissa: 0, scale: 0 },
                                        x2: elapsed_time,
                                        y2: v,
                                    },
                                );
                                pressure_pos.push(run);
                                last_pressure_pos = Some(run);
                            },
                        }
                        proof {
                            let stx = spec_apply_prop(
                                st_now,
                                step@[j as int],
                                transition,
                                pump,
                                end,
                            );
                            assert(pressure_pos@ =~= stx.p);
                            assert(flow_pos@ =~= stx.f);
                        }
                    }
                },
                Prop::Flow(fv) => {
                    if pump == PumpType::Flow {
                        let v = *fv;
                        match (prev_pump, last_pressure_pos) {
                            (Some(PumpType::Pressure), Some(lp)) => {
                                let shut = Segment {
                                    x1: lp.x2,
                                    y1: lp.y2,
                                    x2: lp.x2,
                                    y2: Num { mantissa: 0, scale: 0 },
                                };
                                pressure_pos.push(shut);
                                last_pressure_pos = Some(shut);
                            },
                            _ => {
                            },
                        }
                        match last_flow_pos {
                            Some(lf) => {
                                let mut prev_v = lf.y2;
                                match prev_exit_flow {
                                    Some(t) => {
                                        flow_pos.push(
                                            Segment {
                                                x1: elapsed_time,
                                                y1: prev_v,
                                                x2: elapsed_time,
                                                y2: t,
                                            },
                                        );
                                        prev_v = t;
                                    },
                                    None => {
                                    },
                                }
                                match transition {
                                    TransitionType::Fast => {
                                        let run = Segment {
                                            x1: elapsed_time,
                                            y1: v,
                                            x2: end,
                                            y2: v,
                                        };
                                        flow_pos.push(
                                            Segment {
                                                x1: elapsed_time,
                                                y1: prev_v,
                                                x2: elapsed_time,
                                                y2: v,
                                            },
                                        );
                                        flow_pos.push(run);
                                        last_flow_pos = Some(run);
                                    },
                                    TransitionType::Smooth => {
                                        let ramp = Segment {
                                            x1: elapsed_time,
                                            y1: prev_v,
                                            x2: end,
                                            y2: v,
                                        };
                                        flow_pos.push(ramp);
                                        last_flow_pos = Some(ramp);
                                    },
                                }
                            },
                            None => {
                                let run = Segment { x1: elapsed_time, y1: v, x2: end, y2: v };
                                flow_pos.push(
                                    Segment {
                                        x1: elapsed_time,
                                        y1: Num { mantissa: 0, scale: 0 },
                                        x2: elapsed_time,
                                        y2: v,
                                    },
                                );
                                flow_pos.push(run);
                                last_flow_pos = Some(run);
                            },
                        }
                        proof {
                            let stx = spec_apply_prop(
                                st_now,
                                step@[j as int],
                                transition,
                                pump,
                                end,
                            );
                            assert(flow_pos@ =~= stx.f);
                            assert(pressure_pos@ =~= stx.p);
                        }
                    }
                },
                _ => {
                },
            }
            j = j + 1;
        }
        elapsed_time = end;
        prev_pump = Some(pump);
        prev_exit_flow = step.exit_flow();
        i = i + 1;
    }
    Ok(
        AnalyzedProfile {
            temperature: temperature_pos,
            pressure: pressure_pos,
            flow: flow_pos,
            elapsed_time,
        },
    )
}


// ---------------------------------------------------------------------------
// Parsed documents
// ---------------------------------------------------------------------------

/// The parsed form of one document: its ordered command list.
#[derive(Clone, Debug, PartialEq)]
pub struct Profile(pub Vec<Command>);

impl View for Profile {
    type V = Seq<CommandV>;

    open spec fn view(&self) -> Seq<CommandV> {
        commands_view(self.0@)
    }
}

/// Whether some command sets this profile type.
pub open spec fn spec_has_profile_type(cmds: Seq<CommandV>, ty: ProfileType) -> bool {
    exists|k: int| 0 <= k < cmds.len() && cmds[k] == CommandV::SettingsProfileType(ty)
}

/// The first `ProfileTitle` payload at or after `i`.
pub open spec fn spec_title_from(cmds: Seq<CommandV>, i: int) -> Option<Seq<char>>
    decreases cmds.len() - i when 0 <= i <= cmds.len()
{
    if i < 0 || i >= cmds.len() {
        None
    } else if cmds[i] is ProfileTitle {
        Some(cmds[i]->ProfileTitle_0)
    } else {
        spec_title_from(cmds, i + 1)
    }
}

/// The first `ProfileNotes` payload at or after `i`.
pub open spec fn spec_notes_from(cmds: Seq<CommandV>, i: int) -> Option<Seq<char>>
    decreases cmds.len() - i when 0 <= i <= cmds.len()
{
    if i < 0 || i >= cmds.len() {
        None
    } else if cmds[i] is ProfileNotes {
        Some(cmds[i]->ProfileNotes_0)
    } else {
        spec_notes_from(cmds, i + 1)
    }
}

/// The first `AdvancedShot` payload at or after `i`.
pub open spec fn spec_shot_from(cmds: Seq<CommandV>, i: int) -> Option<Seq<char>>
    decreases cmds.len() - i when 0 <= i <= cmds.len()
{
    if i < 0 || i >= cmds.len() {
        None
    } else if cmds[i] is AdvancedShot {
        Some(cmds[i]->AdvancedShot_0)
    } else {
        spec_shot_from(cmds, i + 1)
    }
}

/// The document's title: its first `profile_title` command.
pub open spec fn spec_profile_title(cmds: Seq<CommandV>) -> Option<Seq<char>> {
    spec_title_from(cmds, 0)
}

/// The document's notes: its first `profile_notes` command.
pub open spec fn spec_profile_notes(cmds: Seq<CommandV>) -> Option<Seq<char>> {
    spec_notes_from(cmds, 0)
}

/// The document's raw step text with a closing newline, from its first
/// `advanced_shot` command.
pub open spec fn spec_profile_shot(cmds: Seq<CommandV>) -> Option<Seq<char>> {
    match spec_shot_from(cmds, 0) {
        Some(v) => Some(v + "\n"@),
        None => None,
    }
}

impl Profile {
    /// Whether some command sets this profile type.
    pub fn is_profile_type(&self, ty: ProfileType) -> (r: bool)
        ensures
            r == spec_has_profile_type(self@, ty),
    {
        let n = self.0.len();
        let mut i: usize = 0;
        while i < n
            invariant
                0 <= i <= n == self.0.len(),
                forall|k: int| 0 <= k < i ==> self@[k] != CommandV::SettingsProfileType(ty),
            decreases n - i,
        {
            match &self.0[i] {
                Command::SettingsProfileType(pt) => {
                    if *pt == ty {
                        proof {
                            assert(self@[i as int] == CommandV::SettingsProfileType(ty));
                        }
                        return true;
                    }
                },
                _ => {
                },
            }
            proof {
                assert(self@[i as int] == self.0@[i as int]@);
            }
            i = i + 1;
        }
        false
    }

    /// The document's title, if any.
    pub fn title(&self) -> (r: Option<String>)
        ensures
            match r {
                Some(t) => spec_profile_title(self@) == Some(t@),
                None => spec_profile_title(self@) is None,
            },
    {
        let n = self.0.len();
        let mut i: usize = 0;
        while i < n
            invariant
                0 <= i <= n == self.0.len(),
                spec_profile_title(self@) == spec_title_from(self@, i as int),
            decreases n - i,
        {
            match &self.0[i] {
                Command::ProfileTitle(t) => {
                    return Some(t.clone());
                },
                _ => {
                },
            }
            i = i + 1;
        }
        None
    }

    /// The document's notes, if any.
    pub fn notes(&self) -> (r: Option<String>)
        ensures
            match r {
                Some(t) => spec_profile_notes(self@) == Some(t@),
                None => spec_profile_notes(self@) is None,
            },
    {
        let n = self.0.len();
        let mut i: usize = 0;
        while i < n
            invariant
                0 <= i <= n == self.0.len(),
                spec_profile_notes(self@) == spec_notes_from(self@, i as int),
            decreases n - i,
        {
            match &self.0[i] {
                Command::ProfileNotes(t) => {
                    return Some(t.clone());
                },
                _ => {
                },
            }
            i = i + 1;
        }
        None
    }

    /// The document's raw step text with a closing newline, if any.
    pub fn advanced_shot(&self) -> (r: Option<String>)
        ensures
            match r {
                Some(t) => spec_profile_shot(self@) == Some(t@),
                None => spec_profile_shot(self@) is None,
            },
    {
        let n = self.0.len();
        let mut i: usize = 0;
        while i < n
            invariant
                0 <= i <= n == self.0.len(),
                spec_shot_from(self@, 0) == spec_shot_from(self@, i as int),
            decreases n - i,
        {
            match &self.0[i] {
                Command::AdvancedShot(t) => {
                    let mut out = t.clone();
                    out.append("\n");
                    return Some(out);
                },
                _ => {
                },
            }
            i = i + 1;
        }
        None
    }
}

/// A whole document: its command list, then nothing but whitespace.
///
/// Anything else left over means some command failed to parse, which
/// rejects the document wholesale.
pub open spec fn spec_parse_profile(s: Seq<char>) -> Result<Seq<CommandV>, Error> {
    let pr = spec_profile(s, 0);
    let w = run_len(s, pr.0, CharClass::Multispace) as int;
    if pr.0 + w == s.len() {
        Ok(pr.1)
    } else {
        Err(Error::MalformedValue)
    }
}

/// Parses one whole document.
pub fn parse_profile(doc: &str) -> (r: Result<Profile, Error>)
    ensures
        match r {
            Ok(p) => spec_parse_profile(doc@) == Ok::<Seq<CommandV>, Error>(p@),
            Err(e) => spec_parse_profile(doc@) == Err::<Seq<CommandV>, Error>(e),
        },
{
    let n = doc.unicode_len();
    let (p, cmds) = crate::command::profile(doc, 0);
    proof {
        crate::command::lemma_profile_bounds(doc@, 0);
        lemma_run_len_bound(doc@, p as int, CharClass::Multispace);
    }
    let w = scan_run(doc, p, CharClass::Multispace);
    if w == n {
        Ok(Profile(cmds))
    } else {
        Err(Error::MalformedValue)
    }
}

/// One accepted document, ready for listing and analysis.
#[derive(Clone, Debug, PartialEq)]
pub struct Preset {
    pub name: String,
    pub title: String,
    pub notes: String,
    pub data: String,
}

/// The mathematical value of a [`Preset`].
pub struct PresetV {
    pub name: Seq<char>,
    pub title: Seq<char>,
    pub notes: Seq<char>,
    pub data: Seq<char>,
}

impl View for Preset {
    type V = PresetV;

    open spec fn view(&self) -> PresetV {
        PresetV { name: self.name@, title: self.title@, notes: self.notes@, data: self.data@ }
    }
}


// ---------------------------------------------------------------------------
// Laws of the analyzer
// ---------------------------------------------------------------------------

/// A trace and its recorded last segment agree: the record is exactly the
/// trace's last element, or nothing for an empty trace.
pub open spec fn trace_wf(tr: Seq<Segment>, last: Option<Segment>) -> bool {
    match last {
        None => tr.len() == 0,
        Some(sg) => tr.len() > 0 && sg == tr.last(),
    }
}

/// All three trace records agree with their traces.
pub open spec fn st_wf(st: AState) -> bool {
    trace_wf(st.t, st.last_t) && trace_wf(st.p, st.last_p) && trace_wf(st.f, st.last_f)
}

/// One property only appends to the traces, keeps the records in step, and
/// never touches the step-level state.
pub proof fn lemma_apply_prop_extends(
    st: AState,
    pr: PropV,
    tr: TransitionType,
    pump: PumpType,
    end: Num,
)
    ensures
        ({
            let st2 = spec_apply_prop(st, pr, tr, pump, end);
            &&& st2.t.len() >= st.t.len() && st2.t.subrange(0, st.t.len() as int) == st.t
            &&& st2.p.len() >= st.p.len() && st2.p.subrange(0, st.p.len() as int) == st.p
            &&& st2.f.len() >= st.f.len() && st2.f.subrange(0, st.f.len() as int) == st.f
            &&& st2.elapsed == st.elapsed && st2.prev_pump == st.prev_pump
                && st2.prev_exit_flow == st.prev_exit_flow
            &&& st_wf(st) ==> st_wf(st2)
        }),
{
    let st2 = spec_apply_prop(st, pr, tr, pump, end);
    assert(st2.t.subrange(0, st.t.len() as int) =~= st.t);
    assert(st2.p.subrange(0, st.p.len() as int) =~= st.p);
    assert(st2.f.subrange(0, st.f.len() as int) =~= st.f);
}

/// A run of properties only appends to the traces and never touches the
/// step-level state.
pub proof fn lemma_apply_props_extends(
    st: AState,
    props: Seq<PropV>,
    i: int,
    tr: TransitionType,
    pump: PumpType,
    end: Num,
)
    requires
        0 <= i <= props.len(),
    ensures
        ({
            let st2 = spec_apply_props(st, props, i, tr, pump, end);
            &&& st2.t.len() >= st.t.len() && st2.t.subrange(0, st.t.len() as int) == st.t
            &&& st2.p.len() >= st.p.len() && st2.p.subrange(0, st.p.len() as int) == st.p
            &&& st2.f.len() >= st.f.len() && st2.f.subrange(0, st.f.len() as int) == st.f
            &&& st2.elapsed == st.elapsed && st2.prev_pump == st.prev_pump
                && st2.prev_exit_flow == st.prev_exit_flow
            &&& st_wf(st) ==> st_wf(st2)
        }),
    decreases props.len() - i,
{
    if i < props.len() {
        let st1 = spec_apply_prop(st, props[i], tr, pump, end);
        lemma_apply_prop_extends(st, props[i], tr, pump, end);
        lemma_apply_props_extends(st1, props, i + 1, tr, pump, end);
        let st2 = spec_apply_props(st, props, i, tr, pump, end);
        assert(st2.t.subrange(0, st.t.len() as int) =~= st1.t.subrange(
            0,
            st.t.len() as int,
        ));
        assert(st2.p.subrange(0, st.p.len() as int) =~= st1.p.subrange(
            0,
            st.p.len() as int,
        ));
        assert(st2.f.subrange(0, st.f.len() as int) =~= st1.f.subrange(
            0,
            st.f.len() as int,
        ));
    }
}

/// Law: the analyzer is deterministic.
///
/// Analyzing the same step list twice yields the very same result: the
/// analysis is a function of the steps alone, with no hidden state.
pub proof fn lemma_analyze_deterministic(
    steps: Seq<Seq<PropV>>,
    r1: Result<AnalyzedV, Error>,
    r2: Result<AnalyzedV, Error>,
)
    requires
        r1 == spec_analyze(steps),
        r2 == spec_analyze(steps),
    ensures
        r1 == r2,
{
}

/// In a pressure-driven step whose state holds no open flow trace from a
/// flow-driven predecessor, no property touches the flow trace.
pub proof fn lemma_props_gate_flow(
    st: AState,
    props: Seq<PropV>,
    i: int,
    tr: TransitionType,
    end: Num,
)
    requires
        0 <= i <= props.len(),
        st.prev_pump != Some(PumpType::Flow) || st.last_f is None,
    ensures
        ({
            let st2 = spec_apply_props(st, props, i, tr, PumpType::Pressure, end);
            st2.f == st.f && st2.last_f == st.last_f
        }),
    decreases props.len() - i,
{
    if i < props.len() {
        let st1 = spec_apply_prop(st, props[i], tr, PumpType::Pressure, end);
        lemma_apply_prop_extends(st, props[i], tr, PumpType::Pressure, end);
        lemma_props_gate_flow(st1, props, i + 1, tr, end);
    }
}

/// Law: channel gating.
///
/// A first step driven by the pressure pump contributes nothing to the
/// flow trace, however many flow properties it carries: its analysis has an
/// empty flow trace.
pub proof fn lemma_channel_gating(props: Seq<PropV>, r: AnalyzedV)
    requires
        spec_step_pump(props) == Some(PumpType::Pressure),
        spec_analyze(seq![props]) == Ok::<AnalyzedV, Error>(r),
    ensures
        r.flow == Seq::<Segment>::empty(),
{
    let steps = seq![props];
    assert(steps[0] == props);
    let st = init_state();
    let dur = spec_step_seconds(props)->Some_0;
    let t = spec_step_transition(props)->Some_0;
    let end = spec_num_add(st.elapsed, dur)->Some_0;
    lemma_props_gate_flow(st, props, 0, t, end);
    let st1 = spec_apply_props(st, props, 0, t, PumpType::Pressure, end);
    let st2 = AState {
        elapsed: end,
        prev_pump: Some(PumpType::Pressure),
        prev_exit_flow: spec_step_exit_flow(props),
        ..st1
    };
    assert(spec_analyze_from(steps, 1, st2) == Ok::<AState, Error>(st2));
}

/// A flow-driven step with at least one flow property always extends the
/// flow trace.
pub proof fn lemma_flow_prop_draws(
    st: AState,
    props: Seq<PropV>,
    i: int,
    tr: TransitionType,
    end: Num,
)
    requires
        0 <= i <= props.len(),
        exists|j: int| i <= j < props.len() && props[j] is Flow,
    ensures
        spec_apply_props(st, props, i, tr, PumpType::Flow, end).f.len() > st.f.len(),
    decreases props.len() - i,
{
    let j = choose|j: int| i <= j < props.len() && props[j] is Flow;
    let st1 = spec_apply_prop(st, props[i], tr, PumpType::Flow, end);
    lemma_apply_prop_extends(st, props[i], tr, PumpType::Flow, end);
    if props[i] is Flow {
        lemma_apply_props_extends(st1, props, i + 1, tr, PumpType::Flow, end);
        assert(st1.f.len() > st.f.len());
    } else {
        assert(i < j);
        lemma_flow_prop_draws(st1, props, i + 1, tr, end);
    }
}

/// Within a pressure-driven step after a flow-driven one, the first
/// pressure property closes the flow trace: the first flow segment the
/// step appends drops to zero at the open trace's last position.
pub proof fn lemma_props_handoff(
    st: AState,
    props: Seq<PropV>,
    i: int,
    tr: TransitionType,
    end: Num,
    lf: Segment,
)
    requires
        0 <= i <= props.len(),
        st.prev_pump == Some(PumpType::Flow),
        st.last_f == Some(lf),
        exists|j: int| i <= j < props.len() && props[j] is Pressure,
    ensures
        ({
            let st2 = spec_apply_props(st, props, i, tr, PumpType::Pressure, end);
            &&& st2.f.len() > st.f.len()
            &&& st2.f[st.f.len() as int] == (Segment {
                x1: lf.x2,
                y1: lf.y2,
                x2: lf.x2,
                y2: num_zero(),
            })
            &&& st2.f.subrange(0, st.f.len() as int) == st.f
        }),
    decreases props.len() - i,
{
    let j = choose|j: int| i <= j < props.len() && props[j] is Pressure;
    let st1 = spec_apply_prop(st, props[i], tr, PumpType::Pressure, end);
    lemma_apply_prop_extends(st, props[i], tr, PumpType::Pressure, end);
    if props[i] is Pressure {
        let shut = Segment { x1: lf.x2, y1: lf.y2, x2: lf.x2, y2: num_zero() };
        assert(st1.f == st.f.push(shut));
        lemma_apply_props_extends(st1, props, i + 1, tr, PumpType::Pressure, end);
        let st2 = spec_apply_props(st, props, i, tr, PumpType::Pressure, end);
        assert(st2.f[st.f.len() as int] == st2.f.subrange(0, st1.f.len() as int)[st.f.len() as int]);
    } else {
        assert(st1.f == st.f && st1.last_f == st.last_f);
        assert(i < j);
        lemma_props_handoff(st1, props, i + 1, tr, end, lf);
    }
}

/// Properties preserve the agreement of traces and their records.
pub proof fn lemma_apply_props_wf(
    st: AState,
    props: Seq<PropV>,
    i: int,
    tr: TransitionType,
    pump: PumpType,
    end: Num,
)
    requires
        0 <= i <= props.len(),
        st_wf(st),
    ensures
        st_wf(spec_apply_props(st, props, i, tr, pump, end)),
    decreases props.len() - i,
{
    lemma_apply_props_extends(st, props, i, tr, pump, end);
}

/// Law: pump handoff.
///
/// When a flow-driven step that drew flow is followed by a pressure-driven
/// step that drives pressure, the second step's first addition to the flow
/// trace — before any of its pressure segments — is a vertical drop to
/// zero at the position where the first step's flow trace ended.
pub proof fn lemma_pump_handoff(s1: Seq<PropV>, s2: Seq<PropV>, r: AnalyzedV, r1: AnalyzedV)
    requires
        spec_step_pump(s1) == Some(PumpType::Flow),
        spec_step_pump(s2) == Some(PumpType::Pressure),
        exists|j: int| 0 <= j < s1.len() && s1[j] is Flow,
        exists|j: int| 0 <= j < s2.len() && s2[j] is Pressure,
        spec_analyze(seq![s1, s2]) == Ok::<AnalyzedV, Error>(r),
        spec_analyze(seq![s1]) == Ok::<AnalyzedV, Error>(r1),
    ensures
        r1.flow.len() > 0,
        r.flow.len() > r1.flow.len(),
        r.flow.subrange(0, r1.flow.len() as int) == r1.flow,
        r.flow[r1.flow.len() as int] == (Segment {
            x1: r1.flow.last().x2,
            y1: r1.flow.last().y2,
            x2: r1.flow.last().x2,
            y2: num_zero(),
        }),
{
    let both = seq![s1, s2];
    let one = seq![s1];
    assert(both[0] == s1 && both[1] == s2 && one[0] == s1);
    let st = init_state();
    let dur1 = spec_step_seconds(s1)->Some_0;
    let t1 = spec_step_transition(s1)->Some_0;
    let end1 = spec_num_add(st.elapsed, dur1)->Some_0;
    let stA = spec_apply_props(st, s1, 0, t1, PumpType::Flow, end1);
    let stB = AState {
        elapsed: end1,
        prev_pump: Some(PumpType::Flow),
        prev_exit_flow: spec_step_exit_flow(s1),
        ..stA
    };
    assert(spec_analyze_from(one, 1, stB) == Ok::<AState, Error>(stB));
    assert(spec_analyze_from(one, 0, init_state()) == spec_analyze_from(one, 1, stB));
    assert(r1.flow == stB.f);
    lemma_flow_prop_draws(st, s1, 0, t1, end1);
    lemma_apply_props_wf(st, s1, 0, t1, PumpType::Flow, end1);
    let lf = stA.f.last();
    assert(stB.last_f == Some(lf));
    let dur2 = spec_step_seconds(s2)->Some_0;
    let t2 = spec_step_transition(s2)->Some_0;
    let end2 = spec_num_add(stB.elapsed, dur2)->Some_0;
    let stC = spec_apply_props(stB, s2, 0, t2, PumpType::Pressure, end2);
    let stD = AState {
        elapsed: end2,
        prev_pump: Some(PumpType::Pressure),
        prev_exit_flow: spec_step_exit_flow(s2),
        ..stC
    };
    assert(spec_analyze_from(both, 2, stD) == Ok::<AState, Error>(stD));
    assert(spec_analyze_from(both, 0, init_state()) == spec_analyze_from(both, 1, stB));
    assert(spec_analyze_from(both, 1, stB) == spec_analyze_from(both, 2, stD));
    assert(r.flow == stC.f);
    lemma_props_handoff(stB, s2, 0, t2, end2, lf);
}

/// Law: exit-flow correction.
///
/// In a flow-driven step whose predecessor exited early on a flow
/// condition, the first flow property first draws a corrective vertical
/// segment from the trace's last value to the exit threshold, and the
/// segment it then draws starts from that threshold — never from the
/// trace's own last value.
pub proof fn lemma_exit_flow_correction(
    st: AState,
    props: Seq<PropV>,
    i: int,
    tr: TransitionType,
    end: Num,
    lf: Segment,
    threshold: Num,
)
    requires
        0 <= i <= props.len(),
        st.last_f == Some(lf),
        st.prev_pump == Some(PumpType::Flow),
        st.prev_exit_flow == Some(threshold),
        exists|j: int| i <= j < props.len() && props[j] is Flow,
    ensures
        ({
            let st2 = spec_apply_props(st, props, i, tr, PumpType::Flow, end);
            &&& st2.f.len() >= st.f.len() + 2
            &&& st2.f[st.f.len() as int] == (Segment {
                x1: st.elapsed,
                y1: lf.y2,
                x2: st.elapsed,
                y2: threshold,
            })
            &&& st2.f[st.f.len() as int + 1].y1 == threshold
        }),
    decreases props.len() - i,
{
    let j = choose|j: int| i <= j < props.len() && props[j] is Flow;
    let st1 = spec_apply_prop(st, props[i], tr, PumpType::Flow, end);
    lemma_apply_prop_extends(st, props[i], tr, PumpType::Flow, end);
    if props[i] is Flow {
        lemma_apply_props_extends(st1, props, i + 1, tr, PumpType::Flow, end);
        let st2 = spec_apply_props(st, props, i, tr, PumpType::Flow, end);
        assert(st2.f[st.f.len() as int] == st2.f.subrange(0, st1.f.len() as int)[st.f.len() as int]);
        assert(st2.f[st.f.len() as int + 1] == st2.f.subrange(0, st1.f.len() as int)[st.f.len() as int + 1]);
    } else {
        assert(st1.f == st.f && st1.last_f == st.last_f);
        assert(i < j);
        lemma_exit_flow_correction(st1, props, i + 1, tr, end, lf, threshold);
    }
}

} // verus!
