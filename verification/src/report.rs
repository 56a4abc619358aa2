use vstd::prelude::*;

use crate::decimal::Decimal;
use crate::rules::{CompiledRule, DimensionVal, MonitorTarget, NamedPosition, PositionTarget, SizeTarget};
use crate::session::{WindowAttrs, spec_matching_from};
use crate::strutil::{
    decimal_to_string, i32_to_string, spec_decimal_digits, spec_i64_digits, spec_u64_digits,
    u32_to_string,
};

verus! {

// THE MATCH LINE

pub open spec fn spec_match_line(class: Seq<char>, title: Seq<char>, process: Seq<char>) -> Seq<
    char,
> {
    "matched '"@ + class + "' (class='"@ + class + "', title='"@ + title + "', process='"@
        + process + "')"@
}

/// The log line reported when a rule matches a window.
pub fn match_line(attrs: &WindowAttrs) -> (s: String)
    ensures
        s@ == spec_match_line(attrs.class@, attrs.title@, attrs.process@),
{
    let mut s = String::from_str("matched '");
    s.append(attrs.class.as_str());
    s.append("' (class='");
    s.append(attrs.class.as_str());
    s.append("', title='");
    s.append(attrs.title.as_str());
    s.append("', process='");
    s.append(attrs.process.as_str());
    s.append("')");
    proof {
        assert(s@ =~= spec_match_line(attrs.class@, attrs.title@, attrs.process@));
    }
    s
}

// ONE LINE PER INTENDED ACTION

pub open spec fn anchor_name(a: NamedPosition) -> Seq<char> {
    match a {
        NamedPosition::Center => "center"@,
        NamedPosition::TopLeft => "top-left"@,
        NamedPosition::TopRight => "top-right"@,
        NamedPosition::BottomLeft => "bottom-left"@,
        NamedPosition::BottomRight => "bottom-right"@,
        NamedPosition::Left => "left"@,
        NamedPosition::Right => "right"@,
        NamedPosition::Top => "top"@,
        NamedPosition::Bottom => "bottom"@,
    }
}

fn anchor_str(a: NamedPosition) -> (r: &'static str)
    ensures
        r@ == anchor_name(a),
{
    match a {
        NamedPosition::Center => "center",
        NamedPosition::TopLeft => "top-left",
        NamedPosition::TopRight => "top-right",
        NamedPosition::BottomLeft => "bottom-left",
        NamedPosition::BottomRight => "bottom-right",
        NamedPosition::Left => "left",
        NamedPosition::Right => "right",
        NamedPosition::Top => "top",
        NamedPosition::Bottom => "bottom",
    }
}

/// A dimension as the report writes it: a pixel count, or the percentage
/// numeral with its sign.
pub open spec fn dim_text(d: DimensionVal) -> Seq<char> {
    match d {
        DimensionVal::Pixels(px) => spec_i64_digits(px as int),
        DimensionVal::Percent(dec) => spec_decimal_digits(dec.num as int, (dec.scale - 2) as nat)
            + "%"@,
    }
}

fn dim_string(d: DimensionVal) -> (s: String)
    requires
        d.wf(),
    ensures
        s@ == dim_text(d),
{
    match d {
        DimensionVal::Pixels(px) => i32_to_string(px),
        DimensionVal::Percent(dec) => {
            let mut s = decimal_to_string(&Decimal { num: dec.num, scale: dec.scale - 2 });
            s.append("%");
            proof {
                assert(s@ =~= dim_text(d));
            }
            s
        },
    }
}

pub open spec fn line_monitor(m: MonitorTarget) -> Seq<char> {
    match m {
        MonitorTarget::Index(i) => "monitor -> "@ + spec_u64_digits(i as nat),
        MonitorTarget::Name(n) => "monitor -> '"@ + n@ + "'"@,
    }
}

fn monitor_line(m: &MonitorTarget) -> (s: String)
    ensures
        s@ == line_monitor(*m),
{
    match m {
        MonitorTarget::Index(i) => {
            let mut s = String::from_str("monitor -> ");
            let d = u32_to_string(*i);
            s.append(d.as_str());
            proof {
                assert(s@ =~= line_monitor(*m));
            }
            s
        },
        MonitorTarget::Name(n) => {
            let mut s = String::from_str("monitor -> '");
            s.append(n.as_str());
            s.append("'");
            proof {
                assert(s@ =~= line_monitor(*m));
            }
            s
        },
    }
}

pub open spec fn line_position(p: PositionTarget) -> Seq<char> {
    match p {
        PositionTarget::Absolute(x, y) => "position -> ("@ + spec_i64_digits(x as int) + ", "@
            + spec_i64_digits(y as int) + ")"@,
        PositionTarget::Named(a) => "position -> "@ + anchor_name(a),
        PositionTarget::Flexible(x, y) => "position -> ("@ + dim_text(x) + ", "@ + dim_text(y)
            + ")"@,
    }
}

fn position_line(p: &PositionTarget) -> (s: String)
    requires
        p.wf(),
    ensures
        s@ == line_position(*p),
{
    match p {
        PositionTarget::Absolute(x, y) => {
            let mut s = String::from_str("position -> (");
            let xs = i32_to_string(*x);
            s.append(xs.as_str());
            s.append(", ");
            let ys = i32_to_string(*y);
            s.append(ys.as_str());
            s.append(")");
            proof {
                assert(s@ =~= line_position(*p));
            }
            s
        },
        PositionTarget::Named(a) => {
            let mut s = String::from_str("position -> ");
            s.append(anchor_str(*a));
            proof {
                assert(s@ =~= line_position(*p));
            }
            s
        },
        PositionTarget::Flexible(x, y) => {
            let mut s = String::from_str("position -> (");
            let xs = dim_string(*x);
            s.append(xs.as_str());
            s.append(", ");
            let ys = dim_string(*y);
            s.append(ys.as_str());
            s.append(")");
            proof {
                assert(s@ =~= line_position(*p));
            }
            s
        },
    }
}

pub open spec fn line_size(sz: SizeTarget) -> Seq<char> {
    match sz {
        SizeTarget::Absolute(w, h) => "size -> ("@ + spec_u64_digits(w as nat) + ", "@
            + spec_u64_digits(h as nat) + ")"@,
        SizeTarget::Flexible(w, h) => "size -> ("@ + dim_text(w) + ", "@ + dim_text(h) + ")"@,
    }
}

fn size_line(sz: &SizeTarget) -> (s: String)
    requires
        sz.wf(),
    ensures
        s@ == line_size(*sz),
{
    match sz {
        SizeTarget::Absolute(w, h) => {
            let mut s = String::from_str("size -> (");
            let ws = u32_to_string(*w);
            s.append(ws.as_str());
            s.append(", ");
            let hs = u32_to_string(*h);
            s.append(hs.as_str());
            s.append(")");
            proof {
                assert(s@ =~= line_size(*sz));
            }
            s
        },
        SizeTarget::Flexible(w, h) => {
            let mut s = String::from_str("size -> (");
            let ws = dim_string(*w);
            s.append(ws.as_str());
            s.append(", ");
            let hs = dim_string(*h);
            s.append(hs.as_str());
            s.append(")");
            proof {
                assert(s@ =~= line_size(*sz));
            }
            s
        },
    }
}

// THE WHOLE REPORT OF ONE RULE

pub open spec fn report_targets(r: CompiledRule) -> Seq<Seq<char>> {
    (match r.monitor {
        Some(m) => seq![line_monitor(m)],
        None => Seq::empty(),
    }) + (match r.position {
        Some(p) => seq![line_position(p)],
        None => Seq::empty(),
    }) + (match r.size {
        Some(sz) => seq![line_size(sz)],
        None => Seq::empty(),
    }) + (match r.workspace {
        Some(ws) => seq!["workspace -> "@ + spec_u64_digits(ws as nat)],
        None => Seq::empty(),
    })
}

pub open spec fn report_toggles_a(r: CompiledRule) -> Seq<Seq<char>> {
    (if r.maximize == Some(true) {
        seq!["maximize"@]
    } else {
        Seq::empty()
    }) + (if r.fullscreen == Some(true) {
        seq!["fullscreen"@]
    } else {
        Seq::empty()
    }) + (if r.pin == Some(true) {
        seq!["pin (all workspaces)"@]
    } else {
        Seq::empty()
    })
}

pub open spec fn report_toggles_b(r: CompiledRule) -> Seq<Seq<char>> {
    (if r.minimize == Some(true) {
        seq!["minimize"@]
    } else {
        Seq::empty()
    }) + (if r.shade == Some(true) {
        seq!["shade"@]
    } else {
        Seq::empty()
    }) + (if r.above == Some(true) {
        seq!["above"@]
    } else {
        Seq::empty()
    }) + (if r.below == Some(true) {
        seq!["below"@]
    } else {
        Seq::empty()
    })
}

pub open spec fn report_tail(r: CompiledRule) -> Seq<Seq<char>> {
    (match r.decorate {
        Some(d) => if d {
            seq!["decorate -> true"@]
        } else {
            seq!["decorate -> false"@]
        },
        None => Seq::empty(),
    }) + (if r.focus == Some(true) {
        seq!["focus"@]
    } else {
        Seq::empty()
    }) + (match r.opacity {
        Some(d) => seq!["opacity -> "@ + spec_decimal_digits(d.num as int, d.scale as nat)],
        None => Seq::empty(),
    })
}

/// The dry-run report of one rule: one line per intended action, in the
/// order the report prints them, with no protocol write issued.
pub open spec fn spec_rule_report(r: CompiledRule) -> Seq<Seq<char>> {
    report_targets(r) + report_toggles_a(r) + report_toggles_b(r) + report_tail(r)
}

fn push_report_targets(out: &mut Vec<String>, rule: &CompiledRule)
    requires
        rule.wf(),
    ensures
        final(out).deep_view() == old(out).deep_view() + report_targets(*rule),
{
    match &rule.monitor {
        Some(m) => out.push(monitor_line(m)),
        None => (),
    }
    match &rule.position {
        Some(p) => out.push(position_line(p)),
        None => (),
    }
    match &rule.size {
        Some(sz) => out.push(size_line(sz)),
        None => (),
    }
    match rule.workspace {
        Some(ws) => {
            let mut s = String::from_str("workspace -> ");
            let d = u32_to_string(ws);
            s.append(d.as_str());
            proof {
                assert(s@ =~= "workspace -> "@ + spec_u64_digits(ws as nat));
            }
            out.push(s);
        },
        None => (),
    }
    proof {
        assert(out.deep_view() =~= old(out).deep_view() + report_targets(*rule));
    }
}

fn push_report_toggles_a(out: &mut Vec<String>, rule: &CompiledRule)
    ensures
        final(out).deep_view() == old(out).deep_view() + report_toggles_a(*rule),
{
    if matches!(rule.maximize, Some(true)) {
        out.push(String::from_str("maximize"));
    }
    if matches!(rule.fullscreen, Some(true)) {
        out.push(String::from_str("fullscreen"));
    }
    if matches!(rule.pin, Some(true)) {
        out.push(String::from_str("pin (all workspaces)"));
    }
    proof {
        assert(out.deep_view() =~= old(out).deep_view() + report_toggles_a(*rule));
    }
}

fn push_report_toggles_b(out: &mut Vec<String>, rule: &CompiledRule)
    ensures
        final(out).deep_view() == old(out).deep_view() + report_toggles_b(*rule),
{
    if matches!(rule.minimize, Some(true)) {
        out.push(String::from_str("minimize"));
    }
    if matches!(rule.shade, Some(true)) {
        out.push(String::from_str("shade"));
    }
    if matches!(rule.above, Some(true)) {
        out.push(String::from_str("above"));
    }
    if matches!(rule.below, Some(true)) {
        out.push(String::from_str("below"));
    }
    proof {
        assert(out.deep_view() =~= old(out).deep_view() + report_toggles_b(*rule));
    }
}

fn push_report_tail(out: &mut Vec<String>, rule: &CompiledRule)
    requires
        rule.wf(),
    ensures
        final(out).deep_view() == old(out).deep_view() + report_tail(*rule),
{
    match rule.decorate {
        Some(d) => {
            if d {
                out.push(String::from_str("decorate -> true"));
            } else {
                out.push(String::from_str("decorate -> false"));
            }
        },
        None => (),
    }
    if matches!(rule.focus, Some(true)) {
        out.push(String::from_str("focus"));
    }
    match &rule.opacity {
        Some(d) => {
            let mut s = String::from_str("opacity -> ");
            let ds = decimal_to_string(d);
            s.append(ds.as_str());
            proof {
                assert(s@ =~= "opacity -> "@ + spec_decimal_digits(d.num as int, d.scale as nat));
            }
            out.push(s);
        },
        None => (),
    }
    proof {
        assert(out.deep_view() =~= old(out).deep_view() + report_tail(*rule));
    }
}

/// The dry-run report of one matched rule: what would have been done, one
/// line per intended action.
pub fn rule_report(rule: &CompiledRule) -> (r: Vec<String>)
    requires
        rule.wf(),
    ensures
        r.deep_view() == spec_rule_report(*rule),
{
    let mut out: Vec<String> = Vec::new();
    push_report_targets(&mut out, rule);
    push_report_toggles_a(&mut out, rule);
    push_report_toggles_b(&mut out, rule);
    push_report_tail(&mut out, rule);
    proof {
        assert(out.deep_view() =~= spec_rule_report(*rule));
    }
    out
}


// THE REPORT FOR ONE WINDOW

/// The dry-run lines for one window under a rule set: each matching rule
/// contributes its full report, in rule-set order — the same matching the
/// live path follows, with no write planned or issued.
pub open spec fn spec_window_report(
    rules: Seq<CompiledRule>,
    class: Seq<char>,
    title: Seq<char>,
    role: Seq<char>,
    process: Seq<char>,
    window_type: Seq<char>,
) -> Seq<Seq<char>>
    decreases rules.len(),
{
    if rules.len() == 0 {
        Seq::empty()
    } else {
        (if rules[0].spec_matches(class, title, role, process, window_type) {
            spec_rule_report(rules[0])
        } else {
            Seq::<Seq<char>>::empty()
        }) + spec_window_report(
            rules.drop_first(),
            class,
            title,
            role,
            process,
            window_type,
        )
    }
}

/// Evaluates one window against the whole rule set and reports the lines
/// of every matching rule, in order: the dry-run counterpart of planning,
/// with identical matching and no write.
pub fn window_report(rules: &Vec<CompiledRule>, attrs: &WindowAttrs) -> (r: Vec<String>)
    requires
        forall|j: int| 0 <= j < rules@.len() ==> (#[trigger] rules@[j]).wf(),
    ensures
        r.deep_view() == spec_window_report(
            rules@,
            attrs.class@,
            attrs.title@,
            attrs.role@,
            attrs.process@,
            attrs.window_type@,
        ),
{
    let ghost full = spec_window_report(
        rules@,
        attrs.class@,
        attrs.title@,
        attrs.role@,
        attrs.process@,
        attrs.window_type@,
    );
    let n = rules.len();
    let mut out: Vec<String> = Vec::new();
    let mut i: usize = 0;
    proof {
        assert(rules@.skip(0) =~= rules@);
        assert(out.deep_view() + full =~= full);
    }
    while i < n
        invariant
            n == rules@.len(),
            i <= n,
            forall|j: int| 0 <= j < rules@.len() ==> (#[trigger] rules@[j]).wf(),
            full == out.deep_view() + spec_window_report(
                rules@.skip(i as int),
                attrs.class@,
                attrs.title@,
                attrs.role@,
                attrs.process@,
                attrs.window_type@,
            ),
        decreases n - i,
    {
        let rule = &rules[i];
        proof {
            assert(rules@.skip(i as int)[0] == rules@[i as int]);
            assert(rules@.skip(i as int).drop_first() =~= rules@.skip(i as int + 1));
        }
        if rule.matches(
            attrs.class.as_str(),
            attrs.title.as_str(),
            attrs.role.as_str(),
            attrs.process.as_str(),
            attrs.window_type.as_str(),
        ) {
            let mut lines = rule_report(rule);
            let ghost before = out.deep_view();
            let ghost lines_view = lines.deep_view();
            out.append(&mut lines);
            proof {
                assert(out.deep_view() =~= before + lines_view);
                assert(before + (lines_view + spec_window_report(
                    rules@.skip(i as int + 1),
                    attrs.class@,
                    attrs.title@,
                    attrs.role@,
                    attrs.process@,
                    attrs.window_type@,
                )) =~= out.deep_view() + spec_window_report(
                    rules@.skip(i as int + 1),
                    attrs.class@,
                    attrs.title@,
                    attrs.role@,
                    attrs.process@,
                    attrs.window_type@,
                ));
            }
        }
        i = i + 1;
    }
    proof {
        assert(rules@.skip(n as int) =~= Seq::<CompiledRule>::empty());
        assert(out.deep_view() + Seq::<Seq<char>>::empty() =~= out.deep_view());
    }
    out
}

/// The reports of the rules under the given indices, concatenated in
/// order.
pub open spec fn spec_reports_at(rules: Seq<CompiledRule>, idxs: Seq<usize>) -> Seq<Seq<char>>
    decreases idxs.len(),
{
    if idxs.len() == 0 {
        Seq::empty()
    } else {
        spec_rule_report(rules[idxs[0] as int]) + spec_reports_at(rules, idxs.drop_first())
    }
}

proof fn lemma_report_follows_matching_from(
    rules: Seq<CompiledRule>,
    class: Seq<char>,
    title: Seq<char>,
    role: Seq<char>,
    process: Seq<char>,
    window_type: Seq<char>,
    i: nat,
)
    requires
        i <= rules.len(),
        rules.len() <= usize::MAX,
    ensures
        spec_reports_at(
            rules,
            spec_matching_from(rules, class, title, role, process, window_type, i),
        ) == spec_window_report(
            rules.skip(i as int),
            class,
            title,
            role,
            process,
            window_type,
        ),
    decreases rules.len() - i,
{
    if i < rules.len() {
        lemma_report_follows_matching_from(rules, class, title, role, process, window_type, i + 1);
        assert(rules.skip(i as int)[0] == rules[i as int]);
        assert(rules.skip(i as int).drop_first() =~= rules.skip(i as int + 1));
        let idxs = spec_matching_from(rules, class, title, role, process, window_type, i);
        let rest = spec_window_report(
            rules.skip(i as int + 1),
            class,
            title,
            role,
            process,
            window_type,
        );
        if rules[i as int].spec_matches(class, title, role, process, window_type) {
            assert(idxs == seq![i as usize] + spec_matching_from(
                rules,
                class,
                title,
                role,
                process,
                window_type,
                i + 1,
            ));
            assert(idxs[0] == i as usize);
            assert((i as usize) as int == i as int);
            assert(idxs.drop_first() =~= spec_matching_from(
                rules,
                class,
                title,
                role,
                process,
                window_type,
                i + 1,
            ));
        } else {
            assert(Seq::<Seq<char>>::empty() + rest =~= rest);
        }
    } else {
        assert(rules.skip(i as int).len() == 0);
    }
}

/// A dry run matches exactly as the live path does: the whole-window
/// report is the concatenation of the matching rules' reports, in the
/// order the matcher reports them — the same indices the live plan
/// follows; only the writes are replaced by lines.
pub proof fn lemma_report_follows_matching(
    rules: Seq<CompiledRule>,
    class: Seq<char>,
    title: Seq<char>,
    role: Seq<char>,
    process: Seq<char>,
    window_type: Seq<char>,
)
    requires
        rules.len() <= usize::MAX,
    ensures
        spec_window_report(rules, class, title, role, process, window_type) == spec_reports_at(
            rules,
            spec_matching_from(rules, class, title, role, process, window_type, 0),
        ),
{
    lemma_report_follows_matching_from(rules, class, title, role, process, window_type, 0);
    assert(rules.skip(0) =~= rules);
}

} // verus!
