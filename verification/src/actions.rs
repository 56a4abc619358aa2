use vstd::prelude::*;

use crate::decimal::{Decimal, lemma_pow10_15, lemma_pow10_monotone, lemma_pow10_pos, pow10, pow10_u64};
use crate::geometry::{
    MonitorGeometry, WindowGeometry, rect_of, resolve_monitor, resolve_position, resolve_size,
    spec_chosen_rect, spec_resolve_position, spec_resolve_size,
};
use crate::rules::CompiledRule;

verus! {

/// The interned protocol atoms the planner names in requests. Their values
/// come from the windowing server at connection time.
#[derive(Debug, Clone, Copy, PartialEq, Eq, Structural)]
pub struct ActionAtoms {
    pub wm_change_state: u32,
    pub net_wm_desktop: u32,
    pub net_wm_state: u32,
    pub state_maximized_vert: u32,
    pub state_maximized_horz: u32,
    pub state_above: u32,
    pub state_below: u32,
    pub state_sticky: u32,
    pub state_fullscreen: u32,
    pub state_shaded: u32,
    pub window_opacity: u32,
    pub active_window: u32,
    pub motif_hints: u32,
}

/// One protocol write against a window: a resize or move of its rectangle,
/// a client message broadcast to the root (five 32-bit words of payload),
/// a 32-bit cardinal property write, or a decoration-hints property write
/// (five 32-bit words).
#[derive(Debug, Clone, Copy, PartialEq, Eq)]
pub enum Request {
    Resize { width: u32, height: u32 },
    Move { x: i32, y: i32 },
    ClientMessage { message_type: u32, data: (u32, u32, u32, u32, u32) },
    SetCardinal { property: u32, value: u32 },
    SetMotifHints { property: u32, hints: (u32, u32, u32, u32, u32) },
}

// OPACITY

/// The 32-bit opacity property value: the fraction clamped into [0, 1],
/// scaled by `0xFFFFFFFF`, rounded to the nearest integer (half away from
/// zero).
pub open spec fn spec_opacity_value(d: Decimal) -> int {
    let den = pow10(d.scale as nat) as int;
    if d.num <= 0 {
        0
    } else if d.num >= den {
        0xFFFFFFFF
    } else {
        (2 * d.num * 0xFFFFFFFF + den) / (2 * den)
    }
}

pub fn opacity_value(d: &Decimal) -> (r: u32)
    requires
        d.wf(),
    ensures
        r as int == spec_opacity_value(*d),
{
    let den = pow10_u64(d.scale);
    proof {
        lemma_pow10_pos(d.scale as nat);
        lemma_pow10_15();
        lemma_pow10_monotone(d.scale as nat, 15);
    }
    if d.num <= 0 {
        0
    } else if d.num as u64 >= den {
        0xFFFFFFFFu32
    } else {
        let n = d.num as u128;
        let dn = den as u128;
        proof {
            assert(2 * (n as int) * 0xFFFFFFFF <= 2 * 0x38d7ea4c68000int * 0xFFFFFFFF)
                by (nonlinear_arith)
                requires
                    0 <= n <= 0x38d7ea4c68000u128,
            ;
            assert((2 * (n as int) * 0xFFFFFFFF + dn) / (2 * (dn as int)) <= 0xFFFFFFFF)
                by (nonlinear_arith)
                requires
                    0 < n < dn,
            ;
        }
        let v = (2 * n * 0xFFFFFFFFu128 + dn) / (2 * dn);
        v as u32
    }
}

/// Out-of-range opacity inputs are clamped into [0, 1] before conversion:
/// nothing below zero maps above zero, nothing above one maps below the
/// full value.
pub proof fn lemma_opacity_clamped(d: Decimal)
    ensures
        d.num <= 0 ==> spec_opacity_value(d) == 0,
        d.num >= pow10(d.scale as nat) ==> spec_opacity_value(d) == 0xFFFFFFFF,
{
    lemma_pow10_pos(d.scale as nat);
}

// THE PLAN OF ONE RULE

pub open spec fn spec_state_msg(state_atom: u32, p1: u32, p2: u32) -> Request {
    Request::ClientMessage { message_type: state_atom, data: (1, p1, p2, 1, 0) }
}

/// The window size a position resolution sees: the size this same rule
/// just resolved, else the window's live size, else nothing.
pub open spec fn spec_plan_win_size(
    r: CompiledRule,
    mon: (int, int, int, int),
    win: Option<WindowGeometry>,
) -> Option<(u32, u32)> {
    match r.size {
        Some(sz) => {
            let s = spec_resolve_size(sz, mon);
            Some((s.0 as u32, s.1 as u32))
        },
        None => match win {
            Some(g) => Some((g.width, g.height)),
            None => None,
        },
    }
}

/// The geometry writes of a rule: the resize, then the move (so that
/// centering sees the just-resolved size).
pub open spec fn spec_plan_geometry(
    r: CompiledRule,
    mon: (int, int, int, int),
    win: Option<WindowGeometry>,
) -> Seq<Request> {
    let size_seq: Seq<Request> = match r.size {
        Some(sz) => {
            let s = spec_resolve_size(sz, mon);
            seq![Request::Resize { width: s.0 as u32, height: s.1 as u32 }]
        },
        None => Seq::empty(),
    };
    let pos_seq: Seq<Request> = match r.position {
        Some(p) => {
            let xy = spec_resolve_position(p, mon, spec_plan_win_size(r, mon, win));
            seq![Request::Move { x: xy.0 as i32, y: xy.1 as i32 }]
        },
        None => Seq::empty(),
    };
    size_seq + pos_seq
}

/// The workspace assignment and the first state toggles: maximize,
/// fullscreen, pin (which also forces the all-workspaces sentinel).
pub open spec fn spec_plan_states_a(r: CompiledRule, atoms: ActionAtoms) -> Seq<Request> {
    let ws_seq: Seq<Request> = match r.workspace {
        Some(ws) => seq![
            Request::ClientMessage { message_type: atoms.net_wm_desktop, data: (ws, 1, 0, 0, 0) },
        ],
        None => Seq::empty(),
    };
    let max_seq: Seq<Request> = if r.maximize == Some(true) {
        seq![
            spec_state_msg(atoms.net_wm_state, atoms.state_maximized_vert, atoms.state_maximized_horz),
        ]
    } else {
        Seq::empty()
    };
    let fs_seq: Seq<Request> = if r.fullscreen == Some(true) {
        seq![spec_state_msg(atoms.net_wm_state, atoms.state_fullscreen, 0)]
    } else {
        Seq::empty()
    };
    let pin_seq: Seq<Request> = if r.pin == Some(true) {
        seq![
            Request::ClientMessage {
                message_type: atoms.net_wm_desktop,
                data: (0xFFFFFFFF, 1, 0, 0, 0),
            },
            spec_state_msg(atoms.net_wm_state, atoms.state_sticky, 0),
        ]
    } else {
        Seq::empty()
    };
    ws_seq + max_seq + fs_seq + pin_seq
}

/// The remaining state toggles: minimize, shade, above, below.
pub open spec fn spec_plan_states_b(r: CompiledRule, atoms: ActionAtoms) -> Seq<Request> {
    let min_seq: Seq<Request> = if r.minimize == Some(true) {
        seq![
            Request::ClientMessage { message_type: atoms.wm_change_state, data: (3, 0, 0, 0, 0) },
        ]
    } else {
        Seq::empty()
    };
    let shade_seq: Seq<Request> = if r.shade == Some(true) {
        seq![spec_state_msg(atoms.net_wm_state, atoms.state_shaded, 0)]
    } else {
        Seq::empty()
    };
    let above_seq: Seq<Request> = if r.above == Some(true) {
        seq![spec_state_msg(atoms.net_wm_state, atoms.state_above, 0)]
    } else {
        Seq::empty()
    };
    let below_seq: Seq<Request> = if r.below == Some(true) {
        seq![spec_state_msg(atoms.net_wm_state, atoms.state_below, 0)]
    } else {
        Seq::empty()
    };
    min_seq + shade_seq + above_seq + below_seq
}

/// The closing writes: decoration hints, focus, opacity.
pub open spec fn spec_plan_tail(r: CompiledRule, atoms: ActionAtoms) -> Seq<Request> {
    let dec_seq: Seq<Request> = match r.decorate {
        Some(d) => seq![
            Request::SetMotifHints {
                property: atoms.motif_hints,
                hints: (2, 0, if d { 1u32 } else { 0u32 }, 0, 0),
            },
        ],
        None => Seq::empty(),
    };
    let focus_seq: Seq<Request> = if r.focus == Some(true) {
        seq![
            Request::ClientMessage { message_type: atoms.active_window, data: (1, 0, 0, 0, 0) },
        ]
    } else {
        Seq::empty()
    };
    let op_seq: Seq<Request> = match r.opacity {
        Some(d) => seq![
            Request::SetCardinal {
                property: atoms.window_opacity,
                value: spec_opacity_value(d) as u32,
            },
        ],
        None => Seq::empty(),
    };
    dec_seq + focus_seq + op_seq
}

/// The ordered protocol writes one rule issues against a window, given the
/// monitor it resolved to: resize first, then move (so that centering sees
/// the new size), then workspace assignment, then the state toggles, then
/// decoration, focus and opacity — each only when the rule sets it.
pub open spec fn spec_plan_rule(
    r: CompiledRule,
    mon: (int, int, int, int),
    win: Option<WindowGeometry>,
    atoms: ActionAtoms,
) -> Seq<Request> {
    spec_plan_geometry(r, mon, win) + spec_plan_states_a(r, atoms) + spec_plan_states_b(r, atoms)
        + spec_plan_tail(r, atoms)
}

fn state_msg(state_atom: u32, p1: u32, p2: u32) -> (r: Request)
    ensures
        r == spec_state_msg(state_atom, p1, p2),
{
    Request::ClientMessage { message_type: state_atom, data: (1, p1, p2, 1, 0) }
}

fn push_plan_geometry(
    out: &mut Vec<Request>,
    rule: &CompiledRule,
    monitor: &MonitorGeometry,
    win: Option<WindowGeometry>,
)
    requires
        rule.wf(),
    ensures
        final(out)@ == old(out)@ + spec_plan_geometry(*rule, rect_of(*monitor), win),
{
    let resolved_size: Option<(u32, u32)> = match &rule.size {
        Some(sz) => Some(resolve_size(sz, monitor)),
        None => None,
    };
    match resolved_size {
        Some(s) => out.push(Request::Resize { width: s.0, height: s.1 }),
        None => (),
    }
    match &rule.position {
        Some(p) => {
            let win_size: Option<(u32, u32)> = match resolved_size {
                Some(s) => Some(s),
                None => match win {
                    Some(g) => Some((g.width, g.height)),
                    None => None,
                },
            };
            proof {
                assert(win_size == spec_plan_win_size(*rule, rect_of(*monitor), win));
            }
            let xy = resolve_position(p, monitor, win_size);
            out.push(Request::Move { x: xy.0, y: xy.1 });
        },
        None => (),
    }
    proof {
        assert(out@ =~= old(out)@ + spec_plan_geometry(*rule, rect_of(*monitor), win));
    }
}

fn push_plan_states_a(out: &mut Vec<Request>, rule: &CompiledRule, atoms: &ActionAtoms)
    ensures
        final(out)@ == old(out)@ + spec_plan_states_a(*rule, *atoms),
{
    match rule.workspace {
        Some(ws) => out.push(
            Request::ClientMessage { message_type: atoms.net_wm_desktop, data: (ws, 1, 0, 0, 0) },
        ),
        None => (),
    }
    if matches!(rule.maximize, Some(true)) {
        out.push(state_msg(atoms.net_wm_state, atoms.state_maximized_vert, atoms.state_maximized_horz));
    }
    if matches!(rule.fullscreen, Some(true)) {
        out.push(state_msg(atoms.net_wm_state, atoms.state_fullscreen, 0));
    }
    if matches!(rule.pin, Some(true)) {
        out.push(
            Request::ClientMessage {
                message_type: atoms.net_wm_desktop,
                data: (0xFFFFFFFF, 1, 0, 0, 0),
            },
        );
        out.push(state_msg(atoms.net_wm_state, atoms.state_sticky, 0));
    }
    proof {
        assert(out@ =~= old(out)@ + spec_plan_states_a(*rule, *atoms));
    }
}

fn push_plan_states_b(out: &mut Vec<Request>, rule: &CompiledRule, atoms: &ActionAtoms)
    ensures
        final(out)@ == old(out)@ + spec_plan_states_b(*rule, *atoms),
{
    if matches!(rule.minimize, Some(true)) {
        out.push(
            Request::ClientMessage { message_type: atoms.wm_change_state, data: (3, 0, 0, 0, 0) },
        );
    }
    if matches!(rule.shade, Some(true)) {
        out.push(state_msg(atoms.net_wm_state, atoms.state_shaded, 0));
    }
    if matches!(rule.above, Some(true)) {
        out.push(state_msg(atoms.net_wm_state, atoms.state_above, 0));
    }
    if matches!(rule.below, Some(true)) {
        out.push(state_msg(atoms.net_wm_state, atoms.state_below, 0));
    }
    proof {
        assert(out@ =~= old(out)@ + spec_plan_states_b(*rule, *atoms));
    }
}

fn push_plan_tail(out: &mut Vec<Request>, rule: &CompiledRule, atoms: &ActionAtoms)
    requires
        rule.wf(),
    ensures
        final(out)@ == old(out)@ + spec_plan_tail(*rule, *atoms),
{
    match rule.decorate {
        Some(d) => out.push(
            Request::SetMotifHints {
                property: atoms.motif_hints,
                hints: (
                    2,
                    0,
                    if d {
                        1u32
                    } else {
                        0u32
                    },
                    0,
                    0,
                ),
            },
        ),
        None => (),
    }
    if matches!(rule.focus, Some(true)) {
        out.push(
            Request::ClientMessage { message_type: atoms.active_window, data: (1, 0, 0, 0, 0) },
        );
    }
    match &rule.opacity {
        Some(d) => {
            let v = opacity_value(d);
            out.push(Request::SetCardinal { property: atoms.window_opacity, value: v });
        },
        None => (),
    }
    proof {
        assert(out@ =~= old(out)@ + spec_plan_tail(*rule, *atoms));
    }
}

/// Plans the writes one rule issues against a window, given the monitor it
/// resolved to.
pub fn plan_rule(
    rule: &CompiledRule,
    monitor: &MonitorGeometry,
    win: Option<WindowGeometry>,
    atoms: &ActionAtoms,
) -> (r: Vec<Request>)
    requires
        rule.wf(),
    ensures
        r@ == spec_plan_rule(*rule, rect_of(*monitor), win, *atoms),
{
    let mut out: Vec<Request> = Vec::new();
    push_plan_geometry(&mut out, rule, monitor, win);
    push_plan_states_a(&mut out, rule, atoms);
    push_plan_states_b(&mut out, rule, atoms);
    push_plan_tail(&mut out, rule, atoms);
    proof {
        assert(out@ =~= spec_plan_rule(*rule, rect_of(*monitor), win, *atoms));
    }
    out
}

/// Resolves the monitor a rule aims at, then plans its writes against its
/// rectangle.
pub fn plan_window_rule(
    rule: &CompiledRule,
    monitors: &Vec<MonitorGeometry>,
    win: Option<WindowGeometry>,
    atoms: &ActionAtoms,
) -> (r: Vec<Request>)
    requires
        rule.wf(),
    ensures
        r@ == spec_plan_rule(*rule, spec_chosen_rect(rule.monitor, monitors@, win), win, *atoms),
{
    let mon = resolve_monitor(&rule.monitor, monitors, &win);
    plan_rule(rule, &mon, win, atoms)
}

} // verus!
