use vstd::prelude::*;

use crate::config::{
    Config, MonitorValue, PositionValue, Rule, SizeValue, msg_prefix_string, msg_rule_prefix,
    named_position_ok, rule_has_matcher,
};
use crate::decimal::{
    Decimal, MAX_SCALE, ends_with_pct, parse_decimal_str, parse_i32_str, spec_parse_decimal,
    spec_parse_int,
};
use crate::patterns::{regex_compile, regex_error_text, regex_found, regex_is_match, regex_pattern, regex_valid};
use crate::strutil::{eq_ignore_case, opt_text_view, str_eq, str_eq_ignore_ascii_case};

verus! {

/// The monitor a rule aims at: by discovery index or by output name.
#[derive(Debug, Clone)]
pub enum MonitorTarget {
    Index(u32),
    Name(String),
}

/// The nine anchors a named position may use.
#[derive(Debug, Clone, Copy, PartialEq, Eq, Structural)]
pub enum NamedPosition {
    Center,
    TopLeft,
    TopRight,
    BottomLeft,
    BottomRight,
    Left,
    Right,
    Top,
    Bottom,
}

/// One axis of a flexible position or size: absolute pixels or an exact
/// fraction of the monitor's extent.
#[derive(Debug, Clone, Copy, PartialEq, Eq, Structural)]
pub enum DimensionVal {
    Pixels(i32),
    Percent(Decimal),
}

impl DimensionVal {
    /// A percentage is a numeral divided by one hundred, so it always
    /// carries at least two fraction digits.
    pub open spec fn wf(&self) -> bool {
        match *self {
            DimensionVal::Pixels(_) => true,
            DimensionVal::Percent(d) => d.wf() && d.scale >= 2,
        }
    }
}

#[derive(Debug, Clone, Copy, PartialEq, Eq, Structural)]
pub enum PositionTarget {
    Absolute(i32, i32),
    Named(NamedPosition),
    Flexible(DimensionVal, DimensionVal),
}

impl PositionTarget {
    pub open spec fn wf(&self) -> bool {
        match *self {
            PositionTarget::Flexible(x, y) => x.wf() && y.wf(),
            _ => true,
        }
    }
}

#[derive(Debug, Clone, Copy, PartialEq, Eq, Structural)]
pub enum SizeTarget {
    Absolute(u32, u32),
    Flexible(DimensionVal, DimensionVal),
}

impl SizeTarget {
    pub open spec fn wf(&self) -> bool {
        match *self {
            SizeTarget::Flexible(w, h) => w.wf() && h.wf(),
            _ => true,
        }
    }
}

// ERROR MESSAGES

pub open spec fn msg_unknown_position(name: Seq<char>) -> Seq<char> {
    "unknown position '"@ + name + "'"@
}

pub open spec fn msg_invalid_percentage(s: Seq<char>) -> Seq<char> {
    "invalid percentage '"@ + s + "'"@
}

pub open spec fn msg_invalid_dimension(s: Seq<char>) -> Seq<char> {
    "invalid dimension '"@ + s + "'"@
}

pub open spec fn msg_bad_regex(pat: Seq<char>) -> Seq<char> {
    "bad regex '"@ + pat + "': "@ + regex_error_text(pat)
}

// DIMENSION PARSING

/// What parsing a dimension string yields: a percentage becomes an exact
/// fraction (the numeral — plain or exponent notation — divided by one
/// hundred), anything else a pixel count that must fit a 32-bit signed
/// integer. Percentages in the float word forms (infinities, the
/// not-a-number value) have no exact decimal and are rejected, as are
/// numerals beyond the exact-decimal range.
pub open spec fn spec_parse_dimension(s: Seq<char>) -> Result<DimensionVal, Seq<char>> {
    if ends_with_pct(s) {
        match spec_parse_decimal(s.drop_last()) {
            Some(vk) => if i64::MIN <= vk.0 <= i64::MAX && vk.1 + 2 <= MAX_SCALE {
                Ok(DimensionVal::Percent(Decimal { num: vk.0 as i64, scale: (vk.1 + 2) as u32 }))
            } else {
                Err(msg_invalid_percentage(s))
            },
            None => Err(msg_invalid_percentage(s)),
        }
    } else {
        match spec_parse_int(s) {
            Some(v) => if i32::MIN <= v <= i32::MAX {
                Ok(DimensionVal::Pixels(v as i32))
            } else {
                Err(msg_invalid_dimension(s))
            },
            None => Err(msg_invalid_dimension(s)),
        }
    }
}

pub fn parse_dimension(s: &str) -> (r: Result<DimensionVal, String>)
    ensures
        r matches Ok(d) ==> spec_parse_dimension(s@) == Ok::<DimensionVal, Seq<char>>(d) && d.wf(),
        r matches Err(e) ==> spec_parse_dimension(s@) == Err::<DimensionVal, Seq<char>>(e@),
{
    let n = s.unicode_len();
    let is_pct = n > 0 && s.get_char(n - 1) as u32 == 37;
    if is_pct {
        let body = s.substring_char(0, n - 1);
        proof {
            assert(body@ =~= s@.drop_last());
        }
        let parsed = parse_decimal_str(body);
        match parsed {
            Some(d) => {
                if d.scale + 2 <= MAX_SCALE {
                    Ok(DimensionVal::Percent(Decimal { num: d.num, scale: d.scale + 2 }))
                } else {
                    let mut m = String::from_str("invalid percentage '");
                    m.append(s);
                    m.append("'");
                    proof {
                        assert(m@ =~= msg_invalid_percentage(s@));
                    }
                    Err(m)
                }
            },
            None => {
                let mut m = String::from_str("invalid percentage '");
                m.append(s);
                m.append("'");
                proof {
                    assert(m@ =~= msg_invalid_percentage(s@));
                }
                Err(m)
            },
        }
    } else {
        match parse_i32_str(s) {
            Some(v) => Ok(DimensionVal::Pixels(v)),
            None => {
                let mut m = String::from_str("invalid dimension '");
                m.append(s);
                m.append("'");
                proof {
                    assert(m@ =~= msg_invalid_dimension(s@));
                }
                Err(m)
            },
        }
    }
}

// TARGET COMPILATION

pub open spec fn spec_named_position(s: Seq<char>) -> Option<NamedPosition> {
    if s == "center"@ {
        Some(NamedPosition::Center)
    } else if s == "top-left"@ {
        Some(NamedPosition::TopLeft)
    } else if s == "top-right"@ {
        Some(NamedPosition::TopRight)
    } else if s == "bottom-left"@ {
        Some(NamedPosition::BottomLeft)
    } else if s == "bottom-right"@ {
        Some(NamedPosition::BottomRight)
    } else if s == "left"@ {
        Some(NamedPosition::Left)
    } else if s == "right"@ {
        Some(NamedPosition::Right)
    } else if s == "top"@ {
        Some(NamedPosition::Top)
    } else if s == "bottom"@ {
        Some(NamedPosition::Bottom)
    } else {
        None
    }
}

/// The anchor names the validator accepts are exactly those the compiler
/// resolves.
pub proof fn lemma_named_position_consistent(s: Seq<char>)
    ensures
        spec_named_position(s) is Some <==> named_position_ok(s),
{
}

pub fn named_position_of(name: &str) -> (r: Option<NamedPosition>)
    ensures
        r == spec_named_position(name@),
{
    if str_eq(name, "center") {
        Some(NamedPosition::Center)
    } else if str_eq(name, "top-left") {
        Some(NamedPosition::TopLeft)
    } else if str_eq(name, "top-right") {
        Some(NamedPosition::TopRight)
    } else if str_eq(name, "bottom-left") {
        Some(NamedPosition::BottomLeft)
    } else if str_eq(name, "bottom-right") {
        Some(NamedPosition::BottomRight)
    } else if str_eq(name, "left") {
        Some(NamedPosition::Left)
    } else if str_eq(name, "right") {
        Some(NamedPosition::Right)
    } else if str_eq(name, "top") {
        Some(NamedPosition::Top)
    } else if str_eq(name, "bottom") {
        Some(NamedPosition::Bottom)
    } else {
        None
    }
}

pub open spec fn spec_compile_monitor(val: MonitorValue) -> MonitorTarget {
    match val {
        MonitorValue::Index(i) => MonitorTarget::Index(i),
        MonitorValue::Name(n) => MonitorTarget::Name(n),
    }
}

pub fn compile_monitor(val: &MonitorValue) -> (r: MonitorTarget)
    ensures
        r == spec_compile_monitor(*val),
{
    match val {
        MonitorValue::Index(i) => MonitorTarget::Index(*i),
        MonitorValue::Name(n) => MonitorTarget::Name(n.clone()),
    }
}

pub open spec fn spec_compile_position(val: PositionValue) -> Result<PositionTarget, Seq<char>> {
    match val {
        PositionValue::Named(n) => match spec_named_position(n@) {
            Some(a) => Ok(PositionTarget::Named(a)),
            None => Err(msg_unknown_position(n@)),
        },
        PositionValue::Absolute(c) => Ok(PositionTarget::Absolute(c[0], c[1])),
        PositionValue::Flexible(parts) => match spec_parse_dimension(parts[0]@) {
            Err(e) => Err(e),
            Ok(x) => match spec_parse_dimension(parts[1]@) {
                Err(e) => Err(e),
                Ok(y) => Ok(PositionTarget::Flexible(x, y)),
            },
        },
    }
}

pub fn compile_position(val: &PositionValue) -> (r: Result<PositionTarget, String>)
    ensures
        r matches Ok(t) ==> spec_compile_position(*val) == Ok::<PositionTarget, Seq<char>>(t)
            && t.wf(),
        r matches Err(e) ==> spec_compile_position(*val) == Err::<PositionTarget, Seq<char>>(e@),
{
    match val {
        PositionValue::Named(name) => match named_position_of(name.as_str()) {
            Some(a) => Ok(PositionTarget::Named(a)),
            None => {
                let mut m = String::from_str("unknown position '");
                m.append(name.as_str());
                m.append("'");
                proof {
                    assert(m@ =~= msg_unknown_position(name@));
                }
                Err(m)
            },
        },
        PositionValue::Absolute(coords) => Ok(PositionTarget::Absolute(coords[0], coords[1])),
        PositionValue::Flexible(parts) => {
            let x = match parse_dimension(parts[0].as_str()) {
                Ok(x) => x,
                Err(e) => {
                    return Err(e);
                },
            };
            let y = match parse_dimension(parts[1].as_str()) {
                Ok(y) => y,
                Err(e) => {
                    return Err(e);
                },
            };
            Ok(PositionTarget::Flexible(x, y))
        },
    }
}

pub open spec fn spec_compile_size(val: SizeValue) -> Result<SizeTarget, Seq<char>> {
    match val {
        SizeValue::Absolute(d) => Ok(SizeTarget::Absolute(d[0], d[1])),
        SizeValue::Flexible(parts) => match spec_parse_dimension(parts[0]@) {
            Err(e) => Err(e),
            Ok(w) => match spec_parse_dimension(parts[1]@) {
                Err(e) => Err(e),
                Ok(h) => Ok(SizeTarget::Flexible(w, h)),
            },
        },
    }
}

pub fn compile_size(val: &SizeValue) -> (r: Result<SizeTarget, String>)
    ensures
        r matches Ok(t) ==> spec_compile_size(*val) == Ok::<SizeTarget, Seq<char>>(t) && t.wf(),
        r matches Err(e) ==> spec_compile_size(*val) == Err::<SizeTarget, Seq<char>>(e@),
{
    match val {
        SizeValue::Absolute(dims) => Ok(SizeTarget::Absolute(dims[0], dims[1])),
        SizeValue::Flexible(parts) => {
            let w = match parse_dimension(parts[0].as_str()) {
                Ok(w) => w,
                Err(e) => {
                    return Err(e);
                },
            };
            let h = match parse_dimension(parts[1].as_str()) {
                Ok(h) => h,
                Err(e) => {
                    return Err(e);
                },
            };
            Ok(SizeTarget::Flexible(w, h))
        },
    }
}

// THE COMPILED RULE

/// A rule ready for matching: each textual matcher is a compiled regular
/// expression (absent means "always matches"), the window type an exact
/// string compared without regard to ASCII case, and the actions are
/// carried unchanged.
pub struct CompiledRule {
    // Matchers
    pub class: Option<regex::Regex>,
    pub title: Option<regex::Regex>,
    pub role: Option<regex::Regex>,
    pub process: Option<regex::Regex>,
    pub window_type: Option<String>,
    // Actions
    pub workspace: Option<u32>,
    pub monitor: Option<MonitorTarget>,
    pub position: Option<PositionTarget>,
    pub size: Option<SizeTarget>,
    pub maximize: Option<bool>,
    pub fullscreen: Option<bool>,
    pub pin: Option<bool>,
    pub minimize: Option<bool>,
    pub shade: Option<bool>,
    pub above: Option<bool>,
    pub below: Option<bool>,
    pub decorate: Option<bool>,
    pub focus: Option<bool>,
    pub opacity: Option<Decimal>,
}

pub open spec fn opt_regex_pattern(o: Option<regex::Regex>) -> Option<Seq<char>> {
    match o {
        Some(re) => Some(regex_pattern(re)),
        None => None,
    }
}

/// An absent pattern matches anything; a present one must find a match in
/// the text.
pub open spec fn opt_pattern_found(p: Option<Seq<char>>, text: Seq<char>) -> bool {
    match p {
        Some(pat) => regex_found(pat, text),
        None => true,
    }
}

/// An absent window type matches anything; a present one must equal the
/// observed type up to ASCII case.
pub open spec fn opt_type_matches(t: Option<String>, wt: Seq<char>) -> bool {
    match t {
        Some(ts) => eq_ignore_case(ts@, wt),
        None => true,
    }
}

impl CompiledRule {
    /// Targets and opacity carry decimals within machine range.
    pub open spec fn wf(&self) -> bool {
        &&& (self.position matches Some(p) ==> p.wf())
        &&& (self.size matches Some(s) ==> s.wf())
        &&& (self.opacity matches Some(d) ==> d.wf())
    }

    pub open spec fn class_pat(&self) -> Option<Seq<char>> {
        opt_regex_pattern(self.class)
    }

    pub open spec fn title_pat(&self) -> Option<Seq<char>> {
        opt_regex_pattern(self.title)
    }

    pub open spec fn role_pat(&self) -> Option<Seq<char>> {
        opt_regex_pattern(self.role)
    }

    pub open spec fn process_pat(&self) -> Option<Seq<char>> {
        opt_regex_pattern(self.process)
    }

    /// A rule matches a window exactly when every present matcher accepts
    /// the corresponding attribute.
    pub open spec fn spec_matches(
        &self,
        class: Seq<char>,
        title: Seq<char>,
        role: Seq<char>,
        process: Seq<char>,
        window_type: Seq<char>,
    ) -> bool {
        &&& opt_pattern_found(self.class_pat(), class)
        &&& opt_pattern_found(self.title_pat(), title)
        &&& opt_pattern_found(self.role_pat(), role)
        &&& opt_pattern_found(self.process_pat(), process)
        &&& opt_type_matches(self.window_type, window_type)
    }

    pub fn matches(
        &self,
        class: &str,
        title: &str,
        role: &str,
        process: &str,
        window_type: &str,
    ) -> (r: bool)
        ensures
            r == self.spec_matches(class@, title@, role@, process@, window_type@),
    {
        let class_ok = match &self.class {
            Some(re) => regex_is_match(re, class),
            None => true,
        };
        let title_ok = match &self.title {
            Some(re) => regex_is_match(re, title),
            None => true,
        };
        let role_ok = match &self.role {
            Some(re) => regex_is_match(re, role),
            None => true,
        };
        let process_ok = match &self.process {
            Some(re) => regex_is_match(re, process),
            None => true,
        };
        let type_ok = match &self.window_type {
            Some(t) => str_eq_ignore_ascii_case(t.as_str(), window_type),
            None => true,
        };
        class_ok && title_ok && role_ok && process_ok && type_ok
    }
}

// RULE COMPILATION

/// Whether every pattern of the rule compiles and every target is well
/// formed: exactly when compilation returns a compiled rule.
pub open spec fn spec_compile_rule_ok(r: Rule) -> bool {
    &&& (r.class matches Some(s) ==> regex_valid(s@))
    &&& (r.title matches Some(s) ==> regex_valid(s@))
    &&& (r.role matches Some(s) ==> regex_valid(s@))
    &&& (r.process matches Some(s) ==> regex_valid(s@))
    &&& (r.position matches Some(p) ==> spec_compile_position(p) is Ok)
    &&& (r.size matches Some(s) ==> spec_compile_size(s) is Ok)
}

/// The first compile error of a rule, in the order the fields are built.
pub open spec fn spec_compile_rule_err(r: Rule) -> Seq<char> {
    if r.class matches Some(s) && !regex_valid(s@) {
        msg_bad_regex(r.class->Some_0@)
    } else if r.title matches Some(s) && !regex_valid(s@) {
        msg_bad_regex(r.title->Some_0@)
    } else if r.role matches Some(s) && !regex_valid(s@) {
        msg_bad_regex(r.role->Some_0@)
    } else if r.process matches Some(s) && !regex_valid(s@) {
        msg_bad_regex(r.process->Some_0@)
    } else if r.position matches Some(p) && spec_compile_position(p) is Err {
        spec_compile_position(r.position->Some_0)->Err_0
    } else {
        spec_compile_size(r.size->Some_0)->Err_0
    }
}

/// What a compiled rule carries away from the rule it was built from.
pub open spec fn compiled_from(cr: CompiledRule, r: Rule) -> bool {
    &&& cr.class_pat() == opt_text_view(r.class)
    &&& cr.title_pat() == opt_text_view(r.title)
    &&& cr.role_pat() == opt_text_view(r.role)
    &&& cr.process_pat() == opt_text_view(r.process)
    &&& cr.window_type == r.window_type
    &&& cr.workspace == r.workspace
    &&& cr.monitor == (match r.monitor {
        Some(m) => Some(spec_compile_monitor(m)),
        None => None::<MonitorTarget>,
    })
    &&& cr.position == (match r.position {
        Some(p) => Some(spec_compile_position(p)->Ok_0),
        None => None::<PositionTarget>,
    })
    &&& cr.size == (match r.size {
        Some(s) => Some(spec_compile_size(s)->Ok_0),
        None => None::<SizeTarget>,
    })
    &&& cr.maximize == r.maximize
    &&& cr.fullscreen == r.fullscreen
    &&& cr.pin == r.pin
    &&& cr.minimize == r.minimize
    &&& cr.shade == r.shade
    &&& cr.above == r.above
    &&& cr.below == r.below
    &&& cr.decorate == r.decorate
    &&& cr.focus == r.focus
    &&& cr.opacity == r.opacity
}

fn compile_pat(pat: &Option<String>) -> (r: Result<Option<regex::Regex>, String>)
    ensures
        r is Ok <==> (pat matches Some(s) ==> regex_valid(s@)),
        r matches Ok(o) ==> opt_regex_pattern(o) == opt_text_view(*pat),
        r matches Err(e) ==> pat matches Some(s) && !regex_valid(s@) && e@ == msg_bad_regex(s@),
{
    match pat {
        Some(s) => match regex_compile(s.as_str()) {
            Ok(re) => Ok(Some(re)),
            Err(t) => {
                let mut m = String::from_str("bad regex '");
                m.append(s.as_str());
                m.append("': ");
                m.append(t.as_str());
                proof {
                    assert(m@ =~= msg_bad_regex(s@));
                }
                Err(m)
            },
        },
        None => Ok(None),
    }
}

impl CompiledRule {
    /// Compiles one rule: the four textual matchers become regular
    /// expressions, the position and size are resolved to targets, and the
    /// actions are carried over unchanged.
    pub fn compile(rule: &Rule) -> (r: Result<Self, String>)
        requires
            rule.wf(),
        ensures
            r is Ok <==> spec_compile_rule_ok(*rule),
            r matches Ok(cr) ==> compiled_from(cr, *rule) && cr.wf(),
            r matches Err(e) ==> e@ == spec_compile_rule_err(*rule),
    {
        let class = match compile_pat(&rule.class) {
            Ok(o) => o,
            Err(e) => {
                return Err(e);
            },
        };
        let title = match compile_pat(&rule.title) {
            Ok(o) => o,
            Err(e) => {
                return Err(e);
            },
        };
        let role = match compile_pat(&rule.role) {
            Ok(o) => o,
            Err(e) => {
                return Err(e);
            },
        };
        let process = match compile_pat(&rule.process) {
            Ok(o) => o,
            Err(e) => {
                return Err(e);
            },
        };
        let position = match &rule.position {
            Some(p) => match compile_position(p) {
                Ok(t) => Some(t),
                Err(e) => {
                    return Err(e);
                },
            },
            None => None,
        };
        let size = match &rule.size {
            Some(s) => match compile_size(s) {
                Ok(t) => Some(t),
                Err(e) => {
                    return Err(e);
                },
            },
            None => None,
        };
        let monitor = match &rule.monitor {
            Some(m) => Some(compile_monitor(m)),
            None => None,
        };
        let window_type = match &rule.window_type {
            Some(t) => Some(t.clone()),
            None => None,
        };
        Ok(CompiledRule {
            class,
            title,
            role,
            process,
            window_type,
            workspace: rule.workspace,
            monitor,
            position,
            size,
            maximize: rule.maximize,
            fullscreen: rule.fullscreen,
            pin: rule.pin,
            minimize: rule.minimize,
            shade: rule.shade,
            above: rule.above,
            below: rule.below,
            decorate: rule.decorate,
            focus: rule.focus,
            opacity: rule.opacity,
        })
    }
}

/// The outcome of compiling the rules from index `i` on: the prefixed
/// error of the first rule that does not compile, if any.
pub open spec fn spec_compile_from(rules: Seq<Rule>, i: nat) -> Result<(), Seq<char>>
    decreases rules.len() - i,
{
    if i >= rules.len() {
        Ok(())
    } else if !spec_compile_rule_ok(rules[i as int]) {
        Err(msg_rule_prefix(i) + spec_compile_rule_err(rules[i as int]))
    } else {
        spec_compile_from(rules, i + 1)
    }
}

pub proof fn lemma_compile_from_ok(rules: Seq<Rule>, i: nat)
    requires
        i <= rules.len(),
    ensures
        spec_compile_from(rules, i) is Ok <==> forall|j: int|
            i <= j < rules.len() ==> spec_compile_rule_ok(#[trigger] rules[j]),
    decreases rules.len() - i,
{
    if i < rules.len() {
        lemma_compile_from_ok(rules, i + 1);
    }
}

/// Compiles a whole configuration, in rule order; the first failure aborts
/// the compilation with the failing rule named in the error.
pub fn compile(config: &Config) -> (r: Result<Vec<CompiledRule>, String>)
    requires
        config.wf(),
    ensures
        r is Ok <==> forall|j: int|
            0 <= j < config.rule@.len() ==> spec_compile_rule_ok(#[trigger] config.rule@[j]),
        r matches Ok(v) ==> v@.len() == config.rule@.len() && forall|j: int|
            0 <= j < v@.len() ==> compiled_from(#[trigger] v@[j], config.rule@[j])
                && (#[trigger] v@[j]).wf(),
        r matches Err(e) ==> spec_compile_from(config.rule@, 0) matches Err(m) && e@ == m,
{
    let n = config.rule.len();
    let mut out: Vec<CompiledRule> = Vec::new();
    let mut i: usize = 0;
    while i < n
        invariant
            config.wf(),
            n == config.rule@.len(),
            i <= n,
            out@.len() == i,
            forall|j: int| 0 <= j < i ==> spec_compile_rule_ok(#[trigger] config.rule@[j]),
            forall|j: int| 0 <= j < i ==> compiled_from(#[trigger] out@[j], config.rule@[j])
                && (#[trigger] out@[j]).wf(),
            spec_compile_from(config.rule@, 0) == spec_compile_from(config.rule@, i as nat),
        decreases n - i,
    {
        match CompiledRule::compile(&config.rule[i]) {
            Ok(cr) => {
                out.push(cr);
            },
            Err(e) => {
                let mut m = msg_prefix_string(i);
                m.append(e.as_str());
                proof {
                    lemma_compile_from_ok(config.rule@, 0);
                    assert(m@ =~= msg_rule_prefix(i as nat) + spec_compile_rule_err(
                        config.rule@[i as int],
                    ));
                }
                return Err(m);
            },
        }
        i = i + 1;
    }
    proof {
        lemma_compile_from_ok(config.rule@, 0);
    }
    Ok(out)
}

/// A compiled rule keeps its matchers: a rule with at least one matcher
/// set compiles to a rule with at least one active matcher, so a loaded
/// (validated) configuration never brings a matcherless rule to the
/// matching engine.
pub proof fn lemma_compiled_keeps_matcher(cr: CompiledRule, r: Rule)
    requires
        compiled_from(cr, r),
        rule_has_matcher(r),
    ensures
        ({
            ||| cr.class_pat() is Some
            ||| cr.title_pat() is Some
            ||| cr.role_pat() is Some
            ||| cr.process_pat() is Some
            ||| cr.window_type is Some
        }),
{
}

// LAWS OF MATCHING

/// An absent matcher is permissive: the outcome of `matches` does not
/// depend on an attribute whose matcher is not set.
pub proof fn lemma_none_is_permissive(
    r: CompiledRule,
    class: Seq<char>,
    title: Seq<char>,
    role: Seq<char>,
    process: Seq<char>,
    window_type: Seq<char>,
    other: Seq<char>,
)
    ensures
        r.class_pat() is None ==> r.spec_matches(other, title, role, process, window_type)
            == r.spec_matches(class, title, role, process, window_type),
        r.title_pat() is None ==> r.spec_matches(class, other, role, process, window_type)
            == r.spec_matches(class, title, role, process, window_type),
        r.role_pat() is None ==> r.spec_matches(class, title, other, process, window_type)
            == r.spec_matches(class, title, role, process, window_type),
        r.process_pat() is None ==> r.spec_matches(class, title, role, other, window_type)
            == r.spec_matches(class, title, role, process, window_type),
        r.window_type is None ==> r.spec_matches(class, title, role, process, other)
            == r.spec_matches(class, title, role, process, window_type),
{
}

/// `matches` is the conjunction of the five per-attribute checks: it holds
/// exactly when every present matcher accepts its attribute, so no single
/// matcher suffices when another present one fails.
pub proof fn lemma_matches_is_conjunction(
    r: CompiledRule,
    class: Seq<char>,
    title: Seq<char>,
    role: Seq<char>,
    process: Seq<char>,
    window_type: Seq<char>,
)
    ensures
        r.spec_matches(class, title, role, process, window_type) <==> {
            &&& (r.class_pat() matches Some(p) ==> regex_found(p, class))
            &&& (r.title_pat() matches Some(p) ==> regex_found(p, title))
            &&& (r.role_pat() matches Some(p) ==> regex_found(p, role))
            &&& (r.process_pat() matches Some(p) ==> regex_found(p, process))
            &&& (r.window_type matches Some(t) ==> eq_ignore_case(t@, window_type))
        },
{
}

/// The window-type comparison ignores ASCII case: two observed types that
/// agree up to case give the same outcome.
pub proof fn lemma_window_type_case_insensitive(
    r: CompiledRule,
    class: Seq<char>,
    title: Seq<char>,
    role: Seq<char>,
    process: Seq<char>,
    wt1: Seq<char>,
    wt2: Seq<char>,
)
    requires
        eq_ignore_case(wt1, wt2),
    ensures
        r.spec_matches(class, title, role, process, wt1) == r.spec_matches(
            class,
            title,
            role,
            process,
            wt2,
        ),
{
    match r.window_type {
        Some(t) => {
            assert(eq_ignore_case(t@, wt1) <==> eq_ignore_case(t@, wt2));
        },
        None => (),
    }
}

} // verus!
