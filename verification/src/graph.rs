//! Viewport geometry for the three channel traces.
//!
//! The graph is drawn in a 1024 by 480 viewport whose plotting area runs
//! from (30, 20) to (1004, 450).  Time maps onto the horizontal span, a
//! channel's value onto the vertical span top-down (temperature over 20 to
//! 100 units, pressure and flow over 0 to 12), and the time axis carries a
//! tick every ten time units, the first always drawn.  All positions are
//! exact rationals from [`crate::scale::scale`].

use vstd::arithmetic::div_mod::lemma_fundamental_div_mod;
use vstd::prelude::*;

use crate::num::{pow10, Num};
use crate::profile::{AnalyzedProfile, Segment};
use crate::scale::{
    dec_le, dec_ok, dec_of_num, dec_up, scale, spec_dec_of_num, spec_scale, Dec, Rat,
    DEC_MAX_MANTISSA, DEC_MAX_SCALE,
};
use crate::Error;

verus! {

/// A trace segment mapped into the viewport: exact rational endpoints.
#[derive(Clone, Copy, Debug, PartialEq, Eq, Structural)]
pub struct RatSeg {
    pub x1: Rat,
    pub y1: Rat,
    pub x2: Rat,
    pub y2: Rat,
}

/// Which way an axis runs.
#[derive(Clone, Copy, Debug, PartialEq, Eq, Structural)]
pub enum Direction {
    Horizontal,
    Vertical,
}

/// One axis of the graph: a data domain mapped onto a viewport range, with
/// the spacing of its ticks in data units.
#[derive(Clone, Copy, Debug, PartialEq)]
pub struct Axis {
    pub domain: (Dec, Dec),
    pub range: (Dec, Dec),
    pub dir: Direction,
    pub min_unit: Dec,
}

/// The zero decimal.
pub open spec fn dec_zero() -> Dec {
    Dec { mantissa: 0, scale: 0 }
}

/// The trace segments from index `i` on, mapped through the time map and a
/// channel's value map; a coordinate outside the exact scaling range fails.
pub open spec fn spec_channel_from(
    segs: Seq<Segment>,
    i: int,
    xd: (Dec, Dec),
    xc: (Dec, Dec),
    yd: (Dec, Dec),
    yc: (Dec, Dec),
) -> Result<Seq<RatSeg>, Error>
    decreases segs.len() - i when 0 <= i <= segs.len()
{
    if i < 0 || i >= segs.len() {
        Ok(Seq::empty())
    } else {
        match (spec_dec_of_num(segs[i].x1), spec_dec_of_num(segs[i].y1), spec_dec_of_num(
            segs[i].x2,
        ), spec_dec_of_num(segs[i].y2)) {
            (Some(dx1), Some(dy1), Some(dx2), Some(dy2)) => {
                let mapped = RatSeg {
                    x1: spec_scale(xd, xc, dx1),
                    y1: spec_scale(yd, yc, dy1),
                    x2: spec_scale(xd, xc, dx2),
                    y2: spec_scale(yd, yc, dy2),
                };
                match spec_channel_from(segs, i + 1, xd, xc, yd, yc) {
                    Ok(rest) => Ok(seq![mapped] + rest),
                    Err(e) => Err(e),
                }
            },
            _ => Err(Error::MalformedValue),
        }
    }
}

/// A channel's trace mapped into the viewport: time over the horizontal
/// plotting span, values over the given vertical map.
pub open spec fn spec_view_channel(
    segs: Seq<Segment>,
    elapsed: Num,
    yd: (Dec, Dec),
    yc: (Dec, Dec),
) -> Result<Seq<RatSeg>, Error> {
    match spec_dec_of_num(elapsed) {
        None => Err(Error::MalformedValue),
        Some(ed) => spec_channel_from(
            segs,
            0,
            (dec_zero(), ed),
            (Dec { mantissa: 30, scale: 0 }, Dec { mantissa: 1004, scale: 0 }),
            yd,
            yc,
        ),
    }
}

/// The vertical map of the temperature channel: 20 to 100 units, top-down.
pub open spec fn temperature_y_map() -> ((Dec, Dec), (Dec, Dec)) {
    (
        (Dec { mantissa: 20, scale: 0 }, Dec { mantissa: 100, scale: 0 }),
        (Dec { mantissa: 450, scale: 0 }, Dec { mantissa: 20, scale: 0 }),
    )
}

/// The vertical map of the pressure and flow channels: 0 to 12 units,
/// top-down.
pub open spec fn bar_y_map() -> ((Dec, Dec), (Dec, Dec)) {
    (
        (Dec { mantissa: 0, scale: 0 }, Dec { mantissa: 12, scale: 0 }),
        (Dec { mantissa: 450, scale: 0 }, Dec { mantissa: 20, scale: 0 }),
    )
}

/// Maps one channel's trace into the viewport.
fn view_channel(segs: &Vec<Segment>, elapsed: Num, yd: (Dec, Dec), yc: (Dec, Dec)) -> (r: Result<
    Vec<RatSeg>,
    Error,
>)
    requires
        dec_ok(yd.0) && dec_ok(yd.1) && dec_ok(yc.0) && dec_ok(yc.1),
        dec_le(yd.0, yd.1),
    ensures
        match r {
            Ok(v) => spec_view_channel(segs@, elapsed, yd, yc) == Ok::<Seq<RatSeg>, Error>(v@),
            Err(e) => spec_view_channel(segs@, elapsed, yd, yc) == Err::<Seq<RatSeg>, Error>(e),
        },
{
    let ed = match dec_of_num(elapsed) {
        Ok(d) => d,
        Err(e) => {
            return Err(e);
        },
    };
    let xd = (Dec { mantissa: 0, scale: 0 }, ed);
    let xc = (Dec { mantissa: 30, scale: 0 }, Dec { mantissa: 1004, scale: 0 });
    proof {
        crate::num::lemma_pow10_pos((DEC_MAX_SCALE - ed.scale) as nat);
        let pe = pow10((DEC_MAX_SCALE - ed.scale) as nat) as int;
        assert(ed.mantissa * pe >= 0) by (nonlinear_arith)
            requires
                ed.mantissa >= 0,
                pe >= 1,
        ;
        let pz = pow10(DEC_MAX_SCALE as nat) as int;
        assert(0 * pz == 0) by (nonlinear_arith);
        assert(dec_up(xd.0) == 0);
        assert(dec_le(xd.0, xd.1));
    }
    let n = segs.len();
    let mut out: Vec<RatSeg> = Vec::new();
    let mut i: usize = 0;
    proof {
        if let Ok(whole) = spec_channel_from(segs@, 0, xd, xc, yd, yc) {
            assert(whole =~= out@ + whole);
        }
    }
    while i < n
        invariant
            0 <= i <= n == segs@.len(),
            dec_ok(xd.0) && dec_ok(xd.1) && dec_ok(xc.0) && dec_ok(xc.1),
            dec_ok(yd.0) && dec_ok(yd.1) && dec_ok(yc.0) && dec_ok(yc.1),
            dec_le(xd.0, xd.1) && dec_le(yd.0, yd.1),
            xd == ((Dec { mantissa: 0, scale: 0 }), ed),
            xc == ((Dec { mantissa: 30, scale: 0 }), (Dec { mantissa: 1004, scale: 0 })),
            spec_dec_of_num(elapsed) == Some(ed),
            match spec_channel_from(segs@, i as int, xd, xc, yd, yc) {
                Ok(rest) => spec_channel_from(segs@, 0, xd, xc, yd, yc) == Ok::<
                    Seq<RatSeg>,
                    Error,
                >(out@ + rest),
                Err(e) => spec_channel_from(segs@, 0, xd, xc, yd, yc) == Err::<
                    Seq<RatSeg>,
                    Error,
                >(e),
            },
        decreases n - i,
    {
        let sg = segs[i];
        let dx1 = match dec_of_num(sg.x1) {
            Ok(d) => d,
            Err(e) => {
                return Err(e);
            },
        };
        let dy1 = match dec_of_num(sg.y1) {
            Ok(d) => d,
            Err(e) => {
                return Err(e);
            },
        };
        let dx2 = match dec_of_num(sg.x2) {
            Ok(d) => d,
            Err(e) => {
                return Err(e);
            },
        };
        let dy2 = match dec_of_num(sg.y2) {
            Ok(d) => d,
            Err(e) => {
                return Err(e);
            },
        };
        let mapped = RatSeg {
            x1: scale(xd, xc, dx1),
            y1: scale(yd, yc, dy1),
            x2: scale(xd, xc, dx2),
            y2: scale(yd, yc, dy2),
        };
        let ghost old_out = out@;
        out.push(mapped);
        proof {
            assert(out@ =~= old_out.push(mapped));
            if let Ok(rest) = spec_channel_from(segs@, (i + 1) as int, xd, xc, yd, yc) {
                assert(old_out + (seq![mapped] + rest) =~= out@ + rest);
            }
        }
        i = i + 1;
    }
    proof {
        assert(out@ + Seq::<RatSeg>::empty() =~= out@);
    }
        Ok(out)
}

/// The graph of one analyzed profile.
#[derive(Clone, Debug, PartialEq)]
pub struct Graph {
    pub data: AnalyzedProfile,
}

impl Graph {
    /// The two axes of the plot: time along the bottom with a tick every
    /// ten units, and a vertical value axis.
    pub fn view_axis(&self) -> (r: Result<(Axis, Axis), Error>)
        ensures
            match r {
                Ok(axes) => spec_dec_of_num(self.data.elapsed_time) matches Some(ed) && axes
                    == ((
                    Axis {
                        domain: (dec_zero(), ed),
                        range: (dec_zero(), Dec { mantissa: 974, scale: 0 }),
                        dir: Direction::Horizontal,
                        min_unit: Dec { mantissa: 10, scale: 0 },
                    },
                    Axis {
                        domain: (dec_zero(), Dec { mantissa: 12, scale: 0 }),
                        range: (dec_zero(), Dec { mantissa: -430i64, scale: 0 }),
                        dir: Direction::Vertical,
                        min_unit: Dec { mantissa: 1, scale: 0 },
                    },
                )),
                Err(e) => spec_dec_of_num(self.data.elapsed_time) is None && e
                    == Error::MalformedValue,
            },
    {
        let ed = match dec_of_num(self.data.elapsed_time) {
            Ok(d) => d,
            Err(e) => {
                return Err(e);
            },
        };
        Ok(
            (
                Axis {
                    domain: (Dec { mantissa: 0, scale: 0 }, ed),
                    range: (Dec { mantissa: 0, scale: 0 }, Dec { mantissa: 974, scale: 0 }),
                    dir: Direction::Horizontal,
                    min_unit: Dec { mantissa: 10, scale: 0 },
                },
                Axis {
                    domain: (Dec { mantissa: 0, scale: 0 }, Dec { mantissa: 12, scale: 0 }),
                    range: (Dec { mantissa: 0, scale: 0 }, Dec { mantissa: -430, scale: 0 }),
                    dir: Direction::Vertical,
                    min_unit: Dec { mantissa: 1, scale: 0 },
                },
            ),
        )
    }

    /// The temperature trace mapped into the viewport.
    pub fn view_graph_temperature(&self) -> (r: Result<Vec<RatSeg>, Error>)
        ensures
            match r {
                Ok(v) => spec_view_channel(
                    self.data.temperature@,
                    self.data.elapsed_time,
                    temperature_y_map().0,
                    temperature_y_map().1,
                ) == Ok::<Seq<RatSeg>, Error>(v@),
                Err(e) => spec_view_channel(
                    self.data.temperature@,
                    self.data.elapsed_time,
                    temperature_y_map().0,
                    temperature_y_map().1,
                ) == Err::<Seq<RatSeg>, Error>(e),
            },
    {
        view_channel(
            &self.data.temperature,
            self.data.elapsed_time,
            (Dec { mantissa: 20, scale: 0 }, Dec { mantissa: 100, scale: 0 }),
            (Dec { mantissa: 450, scale: 0 }, Dec { mantissa: 20, scale: 0 }),
        )
    }

    /// The pressure trace mapped into the viewport.
    pub fn view_graph_pressure(&self) -> (r: Result<Vec<RatSeg>, Error>)
        ensures
            match r {
                Ok(v) => spec_view_channel(
                    self.data.pressure@,
                    self.data.elapsed_time,
                    bar_y_map().0,
                    bar_y_map().1,
                ) == Ok::<Seq<RatSeg>, Error>(v@),
                Err(e) => spec_view_channel(
                    self.data.pressure@,
                    self.data.elapsed_time,
                    bar_y_map().0,
                    bar_y_map().1,
                ) == Err::<Seq<RatSeg>, Error>(e),
            },
    {
        view_channel(
            &self.data.pressure,
            self.data.elapsed_time,
            (Dec { mantissa: 0, scale: 0 }, Dec { mantissa: 12, scale: 0 }),
            (Dec { mantissa: 450, scale: 0 }, Dec { mantissa: 20, scale: 0 }),
        )
    }

    /// The flow trace mapped into the viewport.
    pub fn view_graph_flow(&self) -> (r: Result<Vec<RatSeg>, Error>)
        ensures
            match r {
                Ok(v) => spec_view_channel(
                    self.data.flow@,
                    self.data.elapsed_time,
                    bar_y_map().0,
                    bar_y_map().1,
                ) == Ok::<Seq<RatSeg>, Error>(v@),
                Err(e) => spec_view_channel(
                    self.data.flow@,
                    self.data.elapsed_time,
                    bar_y_map().0,
                    bar_y_map().1,
                ) == Err::<Seq<RatSeg>, Error>(e),
            },
    {
        view_channel(
            &self.data.flow,
            self.data.elapsed_time,
            (Dec { mantissa: 0, scale: 0 }, Dec { mantissa: 12, scale: 0 }),
            (Dec { mantissa: 450, scale: 0 }, Dec { mantissa: 20, scale: 0 }),
        )
    }
}

/// How many ticks the time axis draws: one every unit of tick spacing up
/// to the domain's end, and always at least the first.
pub open spec fn spec_tick_count(d1: Dec, mu: Dec) -> int {
    let q = (d1.mantissa as int) / (pow10(d1.scale as nat) * mu.mantissa);
    if d1.mantissa <= 0 || q < 1 {
        1
    } else {
        q
    }
}

/// The position of the `k`-th tick in data units.
pub open spec fn spec_tick(mu: Dec, k: int) -> Dec {
    Dec { mantissa: (mu.mantissa * k) as i64, scale: 0 }
}

impl Axis {
    /// The tick positions along a horizontal axis, mapped through the
    /// axis's own scale; a vertical axis draws none.
    ///
    /// A tick stands at each whole multiple of the tick spacing; the first
    /// is always drawn, even beyond a shorter domain.
    pub fn view_scale(&self) -> (r: Vec<Rat>)
        requires
            self.dir is Horizontal ==> {
                &&& dec_ok(self.domain.0) && dec_ok(self.domain.1)
                &&& dec_ok(self.range.0) && dec_ok(self.range.1)
                &&& dec_le(self.domain.0, self.domain.1)
                &&& self.min_unit.scale == 0
                &&& 1 <= self.min_unit.mantissa <= DEC_MAX_MANTISSA
                &&& self.domain.1.mantissa >= 0
            },
        ensures
            self.dir is Vertical ==> r@ == Seq::<Rat>::empty(),
            self.dir is Horizontal ==> {
                &&& r@.len() == spec_tick_count(self.domain.1, self.min_unit)
                &&& forall|k: int|
                    0 <= k < r@.len() ==> r@[k] == spec_scale(
                        self.domain,
                        self.range,
                        spec_tick(self.min_unit, k + 1),
                    )
            },
    {
        match self.dir {
            Direction::Vertical => {
                let r: Vec<Rat> = Vec::new();
                proof {
                    assert(r@ =~= Seq::<Rat>::empty());
                }
                r
            },
            Direction::Horizontal => {
                let d1 = self.domain.1;
                let mu = self.min_unit;
                proof {
                    crate::num::lemma_pow10_pos(d1.scale as nat);
                    crate::num::lemma_pow10_mono(d1.scale as nat, DEC_MAX_SCALE as nat);
                    assert(pow10(DEC_MAX_SCALE as nat) == 1_000_000_000) by {
                        reveal_with_fuel(pow10, 10);
                    }
                }
                let p = crate::num::pow10_u64(d1.scale) as i64;
                proof {
                    assert(p * mu.mantissa <= 1_000_000_000_000_000_000 && p * mu.mantissa >= 1)
                        by (nonlinear_arith)
                        requires
                            1 <= p <= 1_000_000_000,
                            1 <= mu.mantissa <= 1_000_000_000,
                    ;
                }
                let divisor: i64 = p * mu.mantissa;
                let total: usize = if d1.mantissa <= 0 {
                    1
                } else {
                    let q = d1.mantissa / divisor;
                    proof {
                        lemma_fundamental_div_mod(d1.mantissa as int, divisor as int);
                        let qi = (d1.mantissa as int) / (divisor as int);
                        let ri = (d1.mantissa as int) % (divisor as int);
                        assert(0 <= qi <= d1.mantissa) by (nonlinear_arith)
                            requires
                                d1.mantissa == (divisor as int) * qi + ri,
                                0 <= ri < divisor,
                                divisor >= 1,
                                d1.mantissa >= 1,
                        ;
                    }
                    if q < 1 {
                        1
                    } else {
                        q as usize
                    }
                };
                proof {
                    assert(total == spec_tick_count(d1, mu));
                    assert(total <= 1_000_000_000);
                    if d1.mantissa > 0 && (d1.mantissa as int) / (divisor as int) >= 1 {
                        lemma_fundamental_div_mod(d1.mantissa as int, divisor as int);
                        let qi = (d1.mantissa as int) / (divisor as int);
                        let ri = (d1.mantissa as int) % (divisor as int);
                        assert(qi * divisor <= d1.mantissa) by (nonlinear_arith)
                            requires
                                d1.mantissa == (divisor as int) * qi + ri,
                                0 <= ri,
                        ;
                        assert(mu.mantissa * qi <= mu.mantissa * qi * p && mu.mantissa * qi * p
                            == qi * divisor) by (nonlinear_arith)
                            requires
                                p >= 1,
                                mu.mantissa >= 1,
                                qi >= 1,
                                divisor == p * mu.mantissa,
                        ;
                        assert(mu.mantissa * (total as int) <= 1_000_000_000);
                    }
                    assert(mu.mantissa * (total as int) <= 1_000_000_000 || total == 1);
                }
                let mut out: Vec<Rat> = Vec::new();
                let mut k: usize = 1;
                while k <= total
                    invariant
                        1 <= k <= total + 1,
                        total == spec_tick_count(d1, mu),
                        total <= 1_000_000_000,
                        d1 == self.domain.1,
                        mu == self.min_unit,
                        self.dir is Horizontal,
                        dec_ok(self.domain.0) && dec_ok(self.domain.1),
                        dec_ok(self.range.0) && dec_ok(self.range.1),
                        dec_le(self.domain.0, self.domain.1),
                        mu.scale == 0 && 1 <= mu.mantissa <= DEC_MAX_MANTISSA,
                        mu.mantissa * (total as int) <= 1_000_000_000 || total == 1,
                        out@.len() == k - 1,
                        forall|j: int|
                            0 <= j < k - 1 ==> out@[j] == spec_scale(
                                self.domain,
                                self.range,
                                spec_tick(mu, j + 1),
                            ),
                    decreases total + 1 - k,
                {
                    proof {
                        assert(1 <= mu.mantissa * (k as int) <= 1_000_000_000) by (nonlinear_arith)
                            requires
                                1 <= mu.mantissa <= 1_000_000_000,
                                1 <= k <= total,
                                mu.mantissa * (total as int) <= 1_000_000_000 || total == 1,
                        ;
                    }
                    let t = Dec { mantissa: mu.mantissa * (k as i64), scale: 0 };
                    let pos = scale(self.domain, self.range, t);
                    out.push(pos);
                    k = k + 1;
                }
                out
            },
        }
    }
}

} // verus!
