use vstd::prelude::*;

use crate::decimal::{lemma_pow10_pos, pow10, pow10_u64};
use crate::rules::{DimensionVal, MonitorTarget, NamedPosition, PositionTarget, SizeTarget};
use crate::strutil::str_eq;

verus! {

/// One physical output: its name and its pixel rectangle, as discovered
/// once at startup.
pub struct MonitorGeometry {
    pub name: String,
    pub x: i32,
    pub y: i32,
    pub width: u32,
    pub height: u32,
}

impl Clone for MonitorGeometry {
    fn clone(&self) -> (r: Self)
        ensures
            r == *self,
    {
        MonitorGeometry {
            name: self.name.clone(),
            x: self.x,
            y: self.y,
            width: self.width,
            height: self.height,
        }
    }
}

/// A window's absolute screen rectangle.
#[derive(Debug, Clone, Copy, PartialEq, Eq, Structural)]
pub struct WindowGeometry {
    pub x: i32,
    pub y: i32,
    pub width: u32,
    pub height: u32,
}

// BASIC ARITHMETIC

/// Division truncating toward zero, for a positive divisor: what machine
/// division does on signed values.
pub open spec fn trunc_div(a: int, b: int) -> int {
    if a >= 0 {
        a / b
    } else {
        -((-a) / b)
    }
}

pub open spec fn clamp_i32(v: int) -> int {
    if v < i32::MIN {
        i32::MIN as int
    } else if v > i32::MAX {
        i32::MAX as int
    } else {
        v
    }
}

/// A monitor extent as a signed total: extents beyond the signed 32-bit
/// range (which no windowing protocol produces) saturate.
pub open spec fn spec_extent(w: u32) -> int {
    if w > 0x7fffffff {
        0x7fffffff
    } else {
        w as int
    }
}

fn extent_of(w: u32) -> (r: i32)
    ensures
        r as int == spec_extent(w),
        r >= 0,
{
    if w > 0x7fffffff {
        0x7fffffff
    } else {
        w as i32
    }
}

fn clamp_to_i32(v: i64) -> (r: i32)
    ensures
        r as int == clamp_i32(v as int),
{
    if v < -0x80000000i64 {
        i32::MIN
    } else if v > 0x7fffffffi64 {
        i32::MAX
    } else {
        v as i32
    }
}

fn half_toward_zero(v: i64) -> (r: i64)
    requires
        -0x4000000000000000 <= v <= 0x4000000000000000,
    ensures
        r as int == trunc_div(v as int, 2),
{
    if v >= 0 {
        ((v as u64) / 2) as i64
    } else {
        -((((-v) as u64) / 2) as i64)
    }
}

// DIMENSION RESOLUTION

/// A dimension against a total extent: pixels stand as they are; a
/// percentage is the exact product truncated toward zero, delivered in the
/// signed 32-bit range.
pub open spec fn spec_resolve_dim(val: DimensionVal, total: int) -> int {
    match val {
        DimensionVal::Pixels(px) => px as int,
        DimensionVal::Percent(d) => clamp_i32(
            trunc_div(total * d.num as int, pow10(d.scale as nat) as int),
        ),
    }
}

pub fn resolve_dim(val: DimensionVal, total: i32) -> (r: i32)
    requires
        val.wf(),
    ensures
        r as int == spec_resolve_dim(val, total as int),
{
    match val {
        DimensionVal::Pixels(px) => px,
        DimensionVal::Percent(d) => {
            let den = pow10_u64(d.scale) as u128;
            proof {
                lemma_pow10_pos(d.scale as nat);
            }
            let ta: u64 = if total >= 0 {
                total as u64
            } else {
                (-(total as i64)) as u64
            };
            let na: u64 = if d.num >= 0 {
                d.num as u64
            } else if d.num == i64::MIN {
                0x8000000000000000u64
            } else {
                (-d.num) as u64
            };
            let neg = (total < 0) != (d.num < 0);
            proof {
                assert((ta as int) * (na as int) <= 0x80000000 * 0x8000000000000000)
                    by (nonlinear_arith)
                    requires
                        ta <= 0x80000000u64,
                        na <= 0x8000000000000000u64,
                ;
            }
            let prod: u128 = (ta as u128) * (na as u128);
            let q: u128 = prod / den;
            proof {
                let t = total as int;
                let m = d.num as int;
                if t >= 0 && m >= 0 {
                    assert(t * m == prod);
                } else if t < 0 && m >= 0 {
                    assert((ta as int) * (na as int) == (-t) * m);
                    assert((-t) * m == -(t * m)) by (nonlinear_arith);
                } else if t >= 0 && m < 0 {
                    assert((ta as int) * (na as int) == t * (-m));
                    assert(t * (-m) == -(t * m)) by (nonlinear_arith);
                } else {
                    assert((ta as int) * (na as int) == (-t) * (-m));
                    assert((-t) * (-m) == t * m) by (nonlinear_arith);
                }
            }
            if neg {
                if q >= 0x80000000u128 {
                    i32::MIN
                } else {
                    -(q as i32)
                }
            } else {
                if q > 0x7fffffffu128 {
                    i32::MAX
                } else {
                    q as i32
                }
            }
        },
    }
}

// SIZE RESOLUTION

/// A monitor reduced to what resolution reads of it: origin and extents.
pub open spec fn rect_of(m: MonitorGeometry) -> (int, int, int, int) {
    (m.x as int, m.y as int, spec_extent(m.width), spec_extent(m.height))
}

/// The rectangle of the synthetic monitor used when none was discovered.
pub open spec fn spec_default_rect() -> (int, int, int, int) {
    (0, 0, 1920, 1080)
}

/// A size target against a monitor: absolute sizes stand verbatim; each
/// flexible axis resolves against the monitor's extent, floored at one
/// pixel.
pub open spec fn spec_resolve_size(sz: SizeTarget, mon: (int, int, int, int)) -> (int, int) {
    match sz {
        SizeTarget::Absolute(w, h) => (w as int, h as int),
        SizeTarget::Flexible(wv, hv) => {
            let w = spec_resolve_dim(wv, mon.2);
            let h = spec_resolve_dim(hv, mon.3);
            (if w < 1 { 1int } else { w }, if h < 1 { 1int } else { h })
        },
    }
}

pub fn resolve_size(sz: &SizeTarget, monitor: &MonitorGeometry) -> (r: (u32, u32))
    requires
        sz.wf(),
    ensures
        r.0 as int == spec_resolve_size(*sz, rect_of(*monitor)).0,
        r.1 as int == spec_resolve_size(*sz, rect_of(*monitor)).1,
{
    match sz {
        SizeTarget::Absolute(w, h) => (*w, *h),
        SizeTarget::Flexible(wv, hv) => {
            let w = resolve_dim(*wv, extent_of(monitor.width));
            let h = resolve_dim(*hv, extent_of(monitor.height));
            let w1: u32 = if w < 1 {
                1
            } else {
                w as u32
            };
            let h1: u32 = if h < 1 {
                1
            } else {
                h as u32
            };
            (w1, h1)
        },
    }
}

// POSITION RESOLUTION

/// A position target against a monitor and a window size. Absolute
/// coordinates stand verbatim (they are not monitor-relative). A named
/// anchor is computed from the monitor's origin and extent minus the
/// window's extent, halved for centering axes, each coordinate delivered
/// in the signed 32-bit range. A flexible axis resolves against the
/// monitor's extent and is shifted by the monitor's origin.
pub open spec fn spec_resolve_position(
    pos: PositionTarget,
    mon: (int, int, int, int),
    win: Option<(u32, u32)>,
) -> (int, int) {
    let mx = mon.0;
    let my = mon.1;
    let mw = mon.2;
    let mh = mon.3;
    let ww = match win {
        Some(s) => s.0 as int,
        None => 0,
    };
    let wh = match win {
        Some(s) => s.1 as int,
        None => 0,
    };
    match pos {
        PositionTarget::Absolute(x, y) => (x as int, y as int),
        PositionTarget::Named(anchor) => match anchor {
            NamedPosition::Center => (
                clamp_i32(mx + trunc_div(mw - ww, 2)),
                clamp_i32(my + trunc_div(mh - wh, 2)),
            ),
            NamedPosition::TopLeft => (mx, my),
            NamedPosition::TopRight => (clamp_i32(mx + mw - ww), my),
            NamedPosition::BottomLeft => (mx, clamp_i32(my + mh - wh)),
            NamedPosition::BottomRight => (clamp_i32(mx + mw - ww), clamp_i32(my + mh - wh)),
            NamedPosition::Left => (mx, clamp_i32(my + trunc_div(mh - wh, 2))),
            NamedPosition::Right => (clamp_i32(mx + mw - ww), clamp_i32(my + trunc_div(mh - wh, 2))),
            NamedPosition::Top => (clamp_i32(mx + trunc_div(mw - ww, 2)), my),
            NamedPosition::Bottom => (clamp_i32(mx + trunc_div(mw - ww, 2)), clamp_i32(my + mh - wh)),
        },
        PositionTarget::Flexible(xv, yv) => (
            clamp_i32(spec_resolve_dim(xv, mw) + mx),
            clamp_i32(spec_resolve_dim(yv, mh) + my),
        ),
    }
}

pub fn resolve_position(
    pos: &PositionTarget,
    monitor: &MonitorGeometry,
    win_size: Option<(u32, u32)>,
) -> (r: (i32, i32))
    requires
        pos.wf(),
    ensures
        r.0 as int == spec_resolve_position(*pos, rect_of(*monitor), win_size).0,
        r.1 as int == spec_resolve_position(*pos, rect_of(*monitor), win_size).1,
{
    let (win_w, win_h) = match win_size {
        Some(s) => s,
        None => (0, 0),
    };
    let mx = monitor.x as i64;
    let my = monitor.y as i64;
    let mw = extent_of(monitor.width) as i64;
    let mh = extent_of(monitor.height) as i64;
    let ww = win_w as i64;
    let wh = win_h as i64;

    match pos {
        PositionTarget::Absolute(x, y) => (*x, *y),
        PositionTarget::Named(anchor) => match anchor {
            NamedPosition::Center => (
                clamp_to_i32(mx + half_toward_zero(mw - ww)),
                clamp_to_i32(my + half_toward_zero(mh - wh)),
            ),
            NamedPosition::TopLeft => (monitor.x, monitor.y),
            NamedPosition::TopRight => (clamp_to_i32(mx + mw - ww), monitor.y),
            NamedPosition::BottomLeft => (monitor.x, clamp_to_i32(my + mh - wh)),
            NamedPosition::BottomRight => (
                clamp_to_i32(mx + mw - ww),
                clamp_to_i32(my + mh - wh),
            ),
            NamedPosition::Left => (monitor.x, clamp_to_i32(my + half_toward_zero(mh - wh))),
            NamedPosition::Right => (
                clamp_to_i32(mx + mw - ww),
                clamp_to_i32(my + half_toward_zero(mh - wh)),
            ),
            NamedPosition::Top => (clamp_to_i32(mx + half_toward_zero(mw - ww)), monitor.y),
            NamedPosition::Bottom => (
                clamp_to_i32(mx + half_toward_zero(mw - ww)),
                clamp_to_i32(my + mh - wh),
            ),
        },
        PositionTarget::Flexible(xv, yv) => {
            let x = resolve_dim(*xv, extent_of(monitor.width));
            let y = resolve_dim(*yv, extent_of(monitor.height));
            (clamp_to_i32(x as i64 + mx), clamp_to_i32(y as i64 + my))
        },
    }
}

// MONITOR RESOLUTION

/// The window's center point.
pub open spec fn spec_center(g: WindowGeometry) -> (int, int) {
    (g.x as int + g.width as int / 2, g.y as int + g.height as int / 2)
}

/// Whether the monitor's rectangle contains the point.
pub open spec fn monitor_contains(m: MonitorGeometry, cx: int, cy: int) -> bool {
    &&& cx >= m.x as int
    &&& cx < m.x as int + spec_extent(m.width)
    &&& cy >= m.y as int
    &&& cy < m.y as int + spec_extent(m.height)
}

/// Index of the first monitor whose name equals `name`, if any.
pub open spec fn first_name_match(mons: Seq<MonitorGeometry>, name: Seq<char>) -> Option<int>
    decreases mons.len(),
{
    if mons.len() == 0 {
        None
    } else if mons[0].name@ == name {
        Some(0)
    } else {
        match first_name_match(mons.drop_first(), name) {
            Some(i) => Some(i + 1),
            None => None,
        }
    }
}

/// Index of the first monitor containing the point, if any.
pub open spec fn first_containing(mons: Seq<MonitorGeometry>, cx: int, cy: int) -> Option<int>
    decreases mons.len(),
{
    if mons.len() == 0 {
        None
    } else if monitor_contains(mons[0], cx, cy) {
        Some(0)
    } else {
        match first_containing(mons.drop_first(), cx, cy) {
            Some(i) => Some(i + 1),
            None => None,
        }
    }
}

/// Which monitor a rule application works against, by index into the
/// discovered list; `None` means no monitor exists at all and a synthetic
/// default is used. Precedence: an explicit valid index, then an explicit
/// matching name, then geometric containment of the window's center, then
/// the first monitor.
pub open spec fn spec_monitor_choice(
    target: Option<MonitorTarget>,
    mons: Seq<MonitorGeometry>,
    win: Option<WindowGeometry>,
) -> Option<int> {
    let fallback = spec_fallback_choice(mons, win);
    match target {
        Some(MonitorTarget::Index(i)) => if (i as int) < mons.len() {
            Some(i as int)
        } else {
            fallback
        },
        Some(MonitorTarget::Name(n)) => match first_name_match(mons, n@) {
            Some(j) => Some(j),
            None => fallback,
        },
        None => fallback,
    }
}

/// The fallback choice: the monitor under the window's center, else the
/// first monitor, else none.
pub open spec fn spec_fallback_choice(
    mons: Seq<MonitorGeometry>,
    win: Option<WindowGeometry>,
) -> Option<int> {
    let contained = match win {
        Some(g) => first_containing(mons, spec_center(g).0, spec_center(g).1),
        None => None,
    };
    match contained {
        Some(j) => Some(j),
        None => if mons.len() > 0 {
            Some(0)
        } else {
            None
        },
    }
}

/// The rectangle a rule application resolves against: the chosen monitor's,
/// or the synthetic default when none was discovered.
pub open spec fn spec_chosen_rect(
    target: Option<MonitorTarget>,
    mons: Seq<MonitorGeometry>,
    win: Option<WindowGeometry>,
) -> (int, int, int, int) {
    match spec_monitor_choice(target, mons, win) {
        Some(j) => rect_of(mons[j]),
        None => spec_default_rect(),
    }
}

/// The synthetic monitor used when none was discovered.
pub open spec fn is_default_monitor(m: MonitorGeometry) -> bool {
    &&& m.name@ == Seq::<char>::empty()
    &&& m.x == 0
    &&& m.y == 0
    &&& m.width == 1920
    &&& m.height == 1080
}

proof fn lemma_first_name_match_found(mons: Seq<MonitorGeometry>, name: Seq<char>, i: int)
    requires
        0 <= i < mons.len(),
        mons[i].name@ == name,
        forall|j: int| 0 <= j < i ==> (#[trigger] mons[j]).name@ != name,
    ensures
        first_name_match(mons, name) == Some(i),
    decreases mons.len(),
{
    if i > 0 {
        lemma_first_name_match_found(mons.drop_first(), name, i - 1);
    }
}

proof fn lemma_first_name_match_absent(mons: Seq<MonitorGeometry>, name: Seq<char>)
    requires
        forall|j: int| 0 <= j < mons.len() ==> (#[trigger] mons[j]).name@ != name,
    ensures
        first_name_match(mons, name) is None,
    decreases mons.len(),
{
    if mons.len() > 0 {
        lemma_first_name_match_absent(mons.drop_first(), name);
    }
}

proof fn lemma_first_containing_found(mons: Seq<MonitorGeometry>, cx: int, cy: int, i: int)
    requires
        0 <= i < mons.len(),
        monitor_contains(mons[i], cx, cy),
        forall|j: int| 0 <= j < i ==> !monitor_contains(#[trigger] mons[j], cx, cy),
    ensures
        first_containing(mons, cx, cy) == Some(i),
    decreases mons.len(),
{
    if i > 0 {
        lemma_first_containing_found(mons.drop_first(), cx, cy, i - 1);
    }
}

proof fn lemma_first_containing_absent(mons: Seq<MonitorGeometry>, cx: int, cy: int)
    requires
        forall|j: int| 0 <= j < mons.len() ==> !monitor_contains(#[trigger] mons[j], cx, cy),
    ensures
        first_containing(mons, cx, cy) is None,
    decreases mons.len(),
{
    if mons.len() > 0 {
        lemma_first_containing_absent(mons.drop_first(), cx, cy);
    }
}

fn monitor_contains_point(m: &MonitorGeometry, cx: i64, cy: i64) -> (r: bool)
    ensures
        r == monitor_contains(*m, cx as int, cy as int),
{
    cx >= m.x as i64 && cx < m.x as i64 + extent_of(m.width) as i64 && cy >= m.y as i64 && cy
        < m.y as i64 + extent_of(m.height) as i64
}

/// Picks the monitor a rule applies against. Precedence: an explicit valid
/// index always wins; an explicit name that matches a discovered output
/// wins next; otherwise the monitor under the window's center; otherwise
/// the first discovered monitor; otherwise a synthetic default.
pub fn resolve_monitor(
    target: &Option<MonitorTarget>,
    monitors: &Vec<MonitorGeometry>,
    win: &Option<WindowGeometry>,
) -> (r: MonitorGeometry)
    ensures
        match spec_monitor_choice(*target, monitors@, *win) {
            Some(j) => 0 <= j < monitors@.len() && r == monitors@[j],
            None => is_default_monitor(r),
        },
        rect_of(r) == spec_chosen_rect(*target, monitors@, *win),
{
    match target {
        Some(MonitorTarget::Index(idx)) => {
            let i = *idx as usize;
            if i < monitors.len() {
                let m = &monitors[i];
                return m.clone();
            }
        },
        Some(MonitorTarget::Name(name)) => {
            let n = monitors.len();
            let mut j: usize = 0;
            while j < n
                invariant
                    *target == Some(MonitorTarget::Name(*name)),
                    n == monitors@.len(),
                    j <= n,
                    forall|jj: int| 0 <= jj < j ==> (#[trigger] monitors@[jj]).name@ != name@,
                decreases n - j,
            {
                if str_eq(monitors[j].name.as_str(), name.as_str()) {
                    proof {
                        lemma_first_name_match_found(monitors@, name@, j as int);
                    }
                    let m = &monitors[j];
                    return m.clone();
                }
                j = j + 1;
            }
            proof {
                lemma_first_name_match_absent(monitors@, name@);
            }
        },
        None => (),
    }

    fallback_monitor(monitors, win)
}

/// The fallback choice of `resolve_monitor`, when no explicit target
/// settles it.
fn fallback_monitor(monitors: &Vec<MonitorGeometry>, win: &Option<WindowGeometry>) -> (r:
    MonitorGeometry)
    ensures
        match spec_fallback_choice(monitors@, *win) {
            Some(j) => 0 <= j < monitors@.len() && r == monitors@[j],
            None => is_default_monitor(r),
        },
{
    match win {
        Some(g) => {
            let cx = g.x as i64 + (g.width / 2) as i64;
            let cy = g.y as i64 + (g.height / 2) as i64;
            let n = monitors.len();
            let mut j: usize = 0;
            while j < n
                invariant
                    *win == Some(*g),
                    n == monitors@.len(),
                    j <= n,
                    cx as int == spec_center(*g).0,
                    cy as int == spec_center(*g).1,
                    forall|jj: int|
                        0 <= jj < j ==> !monitor_contains(
                            #[trigger] monitors@[jj],
                            cx as int,
                            cy as int,
                        ),
                decreases n - j,
            {
                if monitor_contains_point(&monitors[j], cx, cy) {
                    proof {
                        lemma_first_containing_found(monitors@, cx as int, cy as int, j as int);
                    }
                    let m = &monitors[j];
                    return m.clone();
                }
                j = j + 1;
            }
            proof {
                lemma_first_containing_absent(monitors@, cx as int, cy as int);
            }
        },
        None => (),
    }
    if monitors.len() > 0 {
        let m = &monitors[0];
        m.clone()
    } else {
        MonitorGeometry { name: String::new(), x: 0, y: 0, width: 1920, height: 1080 }
    }
}


// MONITOR DISCOVERY

/// One output as discovery reports it: which display pipe it drives (zero
/// when none), whether it is connected, its name, and its pixel rectangle
/// when one was readable.
pub struct OutputCandidate {
    pub crtc: u32,
    pub connected: bool,
    pub name: String,
    pub rect: Option<CrtcRect>,
}

/// A display pipe's rectangle, in the protocol's units.
#[derive(Debug, Clone, Copy, PartialEq, Eq, Structural)]
pub struct CrtcRect {
    pub x: i16,
    pub y: i16,
    pub width: u16,
    pub height: u16,
}

/// Whether discovery keeps an output: it must drive a display pipe, be
/// connected, and have a readable rectangle.
pub open spec fn candidate_kept(c: OutputCandidate) -> bool {
    c.crtc != 0 && c.connected && c.rect is Some
}

pub open spec fn monitor_of_candidate(c: OutputCandidate) -> MonitorGeometry {
    MonitorGeometry {
        name: c.name,
        x: c.rect->Some_0.x as i32,
        y: c.rect->Some_0.y as i32,
        width: c.rect->Some_0.width as u32,
        height: c.rect->Some_0.height as u32,
    }
}

/// The monitors discovery yields from the outputs, in enumeration order.
pub open spec fn spec_selected_monitors(cands: Seq<OutputCandidate>) -> Seq<MonitorGeometry>
    decreases cands.len(),
{
    if cands.len() == 0 {
        Seq::empty()
    } else {
        (if candidate_kept(cands[0]) {
            seq![monitor_of_candidate(cands[0])]
        } else {
            Seq::<MonitorGeometry>::empty()
        }) + spec_selected_monitors(cands.drop_first())
    }
}

/// Turns the enumerated outputs into the monitor list: disconnected or
/// pipeless outputs are skipped; when nothing remains, a single fallback
/// monitor is synthesized from the root window's pixel dimensions.
pub fn select_monitors(outputs: &Vec<OutputCandidate>, fallback_width: u16, fallback_height: u16) -> (r: Vec<
    MonitorGeometry,
>)
    ensures
        spec_selected_monitors(outputs@).len() > 0 ==> r@ == spec_selected_monitors(outputs@),
        spec_selected_monitors(outputs@).len() == 0 ==> r@.len() == 1 && r@[0].name@ == "default"@
            && r@[0].x == 0 && r@[0].y == 0 && r@[0].width == fallback_width && r@[0].height
            == fallback_height,
{
    let ghost full = spec_selected_monitors(outputs@);
    let n = outputs.len();
    let mut out: Vec<MonitorGeometry> = Vec::new();
    let mut i: usize = 0;
    proof {
        assert(outputs@.skip(0) =~= outputs@);
        assert(out@ + full =~= full);
    }
    while i < n
        invariant
            n == outputs@.len(),
            i <= n,
            full == out@ + spec_selected_monitors(outputs@.skip(i as int)),
        decreases n - i,
    {
        let c = &outputs[i];
        proof {
            assert(outputs@.skip(i as int)[0] == outputs@[i as int]);
            assert(outputs@.skip(i as int).drop_first() =~= outputs@.skip(i as int + 1));
        }
        if c.crtc != 0 && c.connected {
            match &c.rect {
                Some(rect) => {
                    let m = MonitorGeometry {
                        name: c.name.clone(),
                        x: rect.x as i32,
                        y: rect.y as i32,
                        width: rect.width as u32,
                        height: rect.height as u32,
                    };
                    let ghost before = out@;
                    out.push(m);
                    proof {
                        assert(before + (seq![monitor_of_candidate(outputs@[i as int])]
                            + spec_selected_monitors(outputs@.skip(i as int + 1))) =~= out@
                            + spec_selected_monitors(outputs@.skip(i as int + 1)));
                    }
                },
                None => (),
            }
        }
        i = i + 1;
    }
    proof {
        assert(spec_selected_monitors(outputs@.skip(n as int)) =~= Seq::<MonitorGeometry>::empty());
        assert(out@ + Seq::<MonitorGeometry>::empty() =~= out@);
    }
    if out.len() == 0 {
        let mut fallback: Vec<MonitorGeometry> = Vec::new();
        fallback.push(
            MonitorGeometry {
                name: String::from_str("default"),
                x: 0,
                y: 0,
                width: fallback_width as u32,
                height: fallback_height as u32,
            },
        );
        fallback
    } else {
        out
    }
}

// LAWS OF MONITOR RESOLUTION

/// An explicit index that resolves to an existing monitor always wins,
/// whatever geometric containment would have said.
pub proof fn lemma_index_wins(
    i: u32,
    mons: Seq<MonitorGeometry>,
    win: Option<WindowGeometry>,
)
    requires
        (i as int) < mons.len(),
    ensures
        spec_monitor_choice(Some(MonitorTarget::Index(i)), mons, win) == Some(i as int),
{
}

/// An explicit name that matches no discovered monitor falls through to
/// the same choice an absent target makes (geometric containment, then the
/// first monitor) — not to a hard error.
pub proof fn lemma_unmatched_name_falls_through(
    n: String,
    mons: Seq<MonitorGeometry>,
    win: Option<WindowGeometry>,
)
    requires
        forall|j: int| 0 <= j < mons.len() ==> (#[trigger] mons[j]).name@ != n@,
    ensures
        spec_monitor_choice(Some(MonitorTarget::Name(n)), mons, win) == spec_monitor_choice(
            None,
            mons,
            win,
        ),
{
    lemma_first_name_match_absent(mons, n@);
}

} // verus!
