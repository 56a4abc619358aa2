use vstd::prelude::*;

use crate::decimal::{
    Decimal, MAX_SCALE, ends_with_pct, parse_decimal_str, parse_i64_str, spec_parse_decimal,
    spec_parse_int,
};
use crate::strutil::{opt_text_view, spec_u64_digits, str_eq, usize_to_string};
use crate::toml_values::{
    parse_toml_table, table_entries, table_get, toml_doc, toml_parse_error, toml_text_valid,
    value_as_array,
    value_as_bool, value_as_float_text, value_as_integer, value_as_str, value_as_table, value_bool,
    value_float_text, value_int, value_items, value_str, value_table,
};

verus! {

/// Where the configuration file lives. The path is carried as plain text;
/// whoever owns the process turns it into filesystem calls.
pub struct Paths {
    pub config_file: String,
}

impl Paths {
    pub fn with_config(path: String) -> (r: Paths)
        ensures
            r.config_file == path,
    {
        Paths { config_file: path }
    }
}

/// A position, as the configuration writes it: the name of an anchor, a
/// pair of absolute pixel coordinates, or a pair of dimension strings
/// (pixels or percentages of the monitor).
#[derive(Debug, Clone)]
pub enum PositionValue {
    Named(String),
    Absolute([i32; 2]),
    Flexible([String; 2]),
}

/// A size, as the configuration writes it: absolute pixels or a pair of
/// dimension strings.
#[derive(Debug, Clone)]
pub enum SizeValue {
    Absolute([u32; 2]),
    Flexible([String; 2]),
}

/// A monitor target, as the configuration writes it: an index into the
/// discovered outputs or an output name.
#[derive(Debug, Clone)]
pub enum MonitorValue {
    Index(u32),
    Name(String),
}

/// One rule, as the configuration writes it: up to five matchers and any
/// number of actions.
#[derive(Debug)]
pub struct Rule {
    // Matchers
    pub class: Option<String>,
    pub title: Option<String>,
    pub role: Option<String>,
    pub process: Option<String>,
    pub window_type: Option<String>,
    // Actions
    pub workspace: Option<u32>,
    pub monitor: Option<MonitorValue>,
    pub position: Option<PositionValue>,
    pub size: Option<SizeValue>,
    pub maximize: Option<bool>,
    pub fullscreen: Option<bool>,
    pub pin: Option<bool>,
    pub minimize: Option<bool>,
    pub shade: Option<bool>,
    pub above: Option<bool>,
    pub below: Option<bool>,
    pub decorate: Option<bool>,
    pub focus: Option<bool>,
    pub opacity: Option<Decimal>,
}

impl Rule {
    /// An opacity, when set, is a decimal within machine range; every rule
    /// the parser produces satisfies this.
    pub open spec fn wf(&self) -> bool {
        self.opacity matches Some(d) ==> d.wf()
    }
}

#[derive(Debug)]
pub struct Config {
    pub rule: Vec<Rule>,
}

impl Config {
    pub open spec fn wf(&self) -> bool {
        forall|i: int| 0 <= i < self.rule@.len() ==> (#[trigger] self.rule@[i]).wf()
    }
}

// ERROR MESSAGES

pub open spec fn msg_rule_prefix(i: nat) -> Seq<char> {
    "rule["@ + spec_u64_digits(i) + "]: "@
}

pub open spec fn msg_no_matcher(i: nat) -> Seq<char> {
    msg_rule_prefix(i) + "no matcher (need class, title, role, process, or type)"@
}

pub open spec fn msg_invalid_position_name(i: nat, name: Seq<char>) -> Seq<char> {
    msg_rule_prefix(i) + "invalid position '"@ + name
        + "' (expected one of: center, top-left, top-right, bottom-left, bottom-right, left, right, top, bottom)"@
}

pub open spec fn axis_label(axis: nat) -> Seq<char> {
    if axis == 0 {
        "x/width"@
    } else {
        "y/height"@
    }
}

pub open spec fn msg_invalid_dim_string(
    i: nat,
    field: Seq<char>,
    axis: nat,
    s: Seq<char>,
    percent: bool,
) -> Seq<char> {
    msg_rule_prefix(i) + "invalid "@ + field + " "@ + axis_label(axis) + (if percent {
        " percentage '"@
    } else {
        " value '"@
    }) + s + "'"@
}

pub(crate) fn msg_prefix_string(i: usize) -> (s: String)
    ensures
        s@ == msg_rule_prefix(i as nat),
{
    let mut s = String::from_str("rule[");
    let d = usize_to_string(i);
    s.append(d.as_str());
    s.append("]: ");
    proof {
        assert(s@ =~= msg_rule_prefix(i as nat));
    }
    s
}

// VALIDITY

/// The nine anchor names the configuration may use for a position.
pub open spec fn named_position_ok(s: Seq<char>) -> bool {
    ||| s == "center"@
    ||| s == "top-left"@
    ||| s == "top-right"@
    ||| s == "bottom-left"@
    ||| s == "bottom-right"@
    ||| s == "left"@
    ||| s == "right"@
    ||| s == "top"@
    ||| s == "bottom"@
}

/// A percentage body parses as a decimal numeral (plain or exponent
/// notation; the float word forms, infinities and the not-a-number value,
/// have no exact decimal and are rejected) that the crate's exact decimals
/// can carry once it is divided by one hundred (two more fraction digits).
pub open spec fn percent_text_ok(body: Seq<char>) -> bool {
    match spec_parse_decimal(body) {
        Some(vk) => i64::MIN <= vk.0 <= i64::MAX && vk.1 + 2 <= MAX_SCALE,
        None => false,
    }
}

pub open spec fn int64_text_ok(s: Seq<char>) -> bool {
    match spec_parse_int(s) {
        Some(v) => i64::MIN <= v <= i64::MAX,
        None => false,
    }
}

/// A dimension string is either a percentage or a plain integer.
pub open spec fn dim_text_ok(s: Seq<char>) -> bool {
    if ends_with_pct(s) {
        percent_text_ok(s.drop_last())
    } else {
        int64_text_ok(s)
    }
}

pub open spec fn position_value_ok(p: PositionValue) -> bool {
    match p {
        PositionValue::Named(n) => named_position_ok(n@),
        PositionValue::Absolute(_) => true,
        PositionValue::Flexible(parts) => dim_text_ok(parts[0]@) && dim_text_ok(parts[1]@),
    }
}

pub open spec fn size_value_ok(s: SizeValue) -> bool {
    match s {
        SizeValue::Absolute(_) => true,
        SizeValue::Flexible(parts) => dim_text_ok(parts[0]@) && dim_text_ok(parts[1]@),
    }
}

pub open spec fn rule_has_matcher(r: Rule) -> bool {
    ||| r.class is Some
    ||| r.title is Some
    ||| r.role is Some
    ||| r.process is Some
    ||| r.window_type is Some
}

pub open spec fn rule_valid(r: Rule) -> bool {
    &&& rule_has_matcher(r)
    &&& (r.position matches Some(p) ==> position_value_ok(p))
    &&& (r.size matches Some(s) ==> size_value_ok(s))
}

pub open spec fn config_valid(c: Config) -> bool {
    forall|i: int| 0 <= i < c.rule@.len() ==> rule_valid(#[trigger] c.rule@[i])
}

// ERROR SELECTION

pub open spec fn spec_position_error(p: PositionValue, i: nat) -> Seq<char> {
    match p {
        PositionValue::Named(n) => msg_invalid_position_name(i, n@),
        PositionValue::Absolute(_) => Seq::empty(),
        PositionValue::Flexible(parts) => if !dim_text_ok(parts[0]@) {
            msg_invalid_dim_string(i, "position"@, 0, parts[0]@, ends_with_pct(parts[0]@))
        } else {
            msg_invalid_dim_string(i, "position"@, 1, parts[1]@, ends_with_pct(parts[1]@))
        },
    }
}

pub open spec fn spec_size_error(s: SizeValue, i: nat) -> Seq<char> {
    match s {
        SizeValue::Absolute(_) => Seq::empty(),
        SizeValue::Flexible(parts) => if !dim_text_ok(parts[0]@) {
            msg_invalid_dim_string(i, "size"@, 0, parts[0]@, ends_with_pct(parts[0]@))
        } else {
            msg_invalid_dim_string(i, "size"@, 1, parts[1]@, ends_with_pct(parts[1]@))
        },
    }
}

/// The message reported for an invalid rule: the missing matcher first,
/// then the position, then the size.
pub open spec fn spec_rule_error(r: Rule, i: nat) -> Seq<char> {
    if !rule_has_matcher(r) {
        msg_no_matcher(i)
    } else if r.position matches Some(p) && !position_value_ok(p) {
        spec_position_error(r.position->Some_0, i)
    } else {
        spec_size_error(r.size->Some_0, i)
    }
}

/// The outcome of checking the rules from index `i` on: the error of the
/// first invalid rule, if any.
pub open spec fn spec_check_from(rules: Seq<Rule>, i: nat) -> Result<(), Seq<char>>
    decreases rules.len() - i,
{
    if i >= rules.len() {
        Ok(())
    } else if !rule_valid(rules[i as int]) {
        Err(spec_rule_error(rules[i as int], i))
    } else {
        spec_check_from(rules, i + 1)
    }
}

pub proof fn lemma_check_from_ok(rules: Seq<Rule>, i: nat)
    requires
        i <= rules.len(),
    ensures
        spec_check_from(rules, i) is Ok <==> forall|j: int|
            i <= j < rules.len() ==> rule_valid(#[trigger] rules[j]),
    decreases rules.len() - i,
{
    if i < rules.len() {
        lemma_check_from_ok(rules, i + 1);
    }
}

// EXECUTABLE VALIDATION

/// Checks one dimension string (an axis of a flexible position or size):
/// a percentage must parse as a decimal, anything else as an integer.
pub fn validate_dimension_string(s: &str, rule_idx: usize, field: &str, axis: usize) -> (r: Result<
    (),
    String,
>)
    ensures
        r is Ok <==> dim_text_ok(s@),
        r matches Err(e) ==> e@ == msg_invalid_dim_string(
            rule_idx as nat,
            field@,
            if axis == 0 {
                0
            } else {
                1
            },
            s@,
            ends_with_pct(s@),
        ),
{
    let n = s.unicode_len();
    let is_pct = n > 0 && s.get_char(n - 1) as u32 == 37;
    let ok = if is_pct {
        let body = s.substring_char(0, n - 1);
        proof {
            assert(body@ =~= s@.drop_last());
        }
        match parse_decimal_str(body) {
            Some(d) => d.scale + 2 <= MAX_SCALE,
            None => false,
        }
    } else {
        parse_i64_str(s).is_some()
    };
    if ok {
        Ok(())
    } else {
        let mut m = msg_prefix_string(rule_idx);
        m.append("invalid ");
        m.append(field);
        m.append(" ");
        if axis == 0 {
            m.append("x/width");
        } else {
            m.append("y/height");
        }
        if is_pct {
            m.append(" percentage '");
        } else {
            m.append(" value '");
        }
        m.append(s);
        m.append("'");
        proof {
            assert(m@ =~= msg_invalid_dim_string(
                rule_idx as nat,
                field@,
                if axis == 0 {
                    0
                } else {
                    1
                },
                s@,
                ends_with_pct(s@),
            ));
        }
        Err(m)
    }
}

/// Whether `name` is one of the nine anchor names.
pub fn is_named_position(name: &str) -> (r: bool)
    ensures
        r == named_position_ok(name@),
{
    if str_eq(name, "center") {
        true
    } else if str_eq(name, "top-left") {
        true
    } else if str_eq(name, "top-right") {
        true
    } else if str_eq(name, "bottom-left") {
        true
    } else if str_eq(name, "bottom-right") {
        true
    } else if str_eq(name, "left") {
        true
    } else if str_eq(name, "right") {
        true
    } else if str_eq(name, "top") {
        true
    } else if str_eq(name, "bottom") {
        true
    } else {
        false
    }
}

pub fn validate_position(pos: &PositionValue, rule_idx: usize) -> (r: Result<(), String>)
    ensures
        r is Ok <==> position_value_ok(*pos),
        r matches Err(e) ==> e@ == spec_position_error(*pos, rule_idx as nat),
{
    match pos {
        PositionValue::Named(name) => {
            if is_named_position(name.as_str()) {
                Ok(())
            } else {
                let mut m = msg_prefix_string(rule_idx);
                m.append("invalid position '");
                m.append(name.as_str());
                m.append(
                    "' (expected one of: center, top-left, top-right, bottom-left, bottom-right, left, right, top, bottom)",
                );
                proof {
                    assert(m@ =~= msg_invalid_position_name(rule_idx as nat, name@));
                }
                Err(m)
            }
        },
        PositionValue::Absolute(_) => Ok(()),
        PositionValue::Flexible(parts) => {
            let r0 = validate_dimension_string(parts[0].as_str(), rule_idx, "position", 0);
            match r0 {
                Err(e) => Err(e),
                Ok(()) => validate_dimension_string(parts[1].as_str(), rule_idx, "position", 1),
            }
        },
    }
}

pub fn validate_size(sz: &SizeValue, rule_idx: usize) -> (r: Result<(), String>)
    ensures
        r is Ok <==> size_value_ok(*sz),
        r matches Err(e) ==> e@ == spec_size_error(*sz, rule_idx as nat),
{
    match sz {
        SizeValue::Absolute(_) => Ok(()),
        SizeValue::Flexible(parts) => {
            let r0 = validate_dimension_string(parts[0].as_str(), rule_idx, "size", 0);
            match r0 {
                Err(e) => Err(e),
                Ok(()) => validate_dimension_string(parts[1].as_str(), rule_idx, "size", 1),
            }
        },
    }
}

/// Checks every rule of a parsed configuration: each rule needs at least
/// one matcher, and position and size specifications must be well formed.
pub fn validate_config(cfg: &Config) -> (r: Result<(), String>)
    ensures
        r is Ok <==> config_valid(*cfg),
        r matches Err(e) ==> spec_check_from(cfg.rule@, 0) matches Err(m) && e@ == m,
{
    let n = cfg.rule.len();
    let mut i: usize = 0;
    while i < n
        invariant
            n == cfg.rule@.len(),
            i <= n,
            forall|j: int| 0 <= j < i ==> rule_valid(#[trigger] cfg.rule@[j]),
            spec_check_from(cfg.rule@, 0) == spec_check_from(cfg.rule@, i as nat),
        decreases n - i,
    {
        let rule = &cfg.rule[i];
        let has_matcher = rule.class.is_some() || rule.title.is_some() || rule.role.is_some()
            || rule.process.is_some() || rule.window_type.is_some();
        if !has_matcher {
            let mut m = msg_prefix_string(i);
            m.append("no matcher (need class, title, role, process, or type)");
            proof {
                assert(m@ =~= msg_no_matcher(i as nat));
                lemma_check_from_ok(cfg.rule@, 0);
            }
            return Err(m);
        }
        match &rule.position {
            Some(pos) => {
                let rp = validate_position(pos, i);
                match rp {
                    Err(e) => {
                        proof {
                            lemma_check_from_ok(cfg.rule@, 0);
                        }
                        return Err(e);
                    },
                    Ok(()) => (),
                }
            },
            None => (),
        }
        match &rule.size {
            Some(sz) => {
                let rs = validate_size(sz, i);
                match rs {
                    Err(e) => {
                        proof {
                            lemma_check_from_ok(cfg.rule@, 0);
                        }
                        return Err(e);
                    },
                    Ok(()) => (),
                }
            },
            None => (),
        }
        i = i + 1;
    }
    proof {
        lemma_check_from_ok(cfg.rule@, 0);
    }
    Ok(())
}


// FIELDS FROM A PARSED TABLE

pub open spec fn entry_of(e: Map<Seq<char>, toml::Value>, key: Seq<char>) -> Option<toml::Value> {
    if e.contains_key(key) {
        Some(e[key])
    } else {
        None
    }
}

pub open spec fn str_field_ok(e: Map<Seq<char>, toml::Value>, key: Seq<char>) -> bool {
    match entry_of(e, key) {
        None => true,
        Some(v) => value_str(v) is Some,
    }
}

pub open spec fn str_field_view(e: Map<Seq<char>, toml::Value>, key: Seq<char>) -> Option<
    Seq<char>,
> {
    match entry_of(e, key) {
        None => None,
        Some(v) => value_str(v),
    }
}

pub open spec fn bool_field_ok(e: Map<Seq<char>, toml::Value>, key: Seq<char>) -> bool {
    match entry_of(e, key) {
        None => true,
        Some(v) => value_bool(v) is Some,
    }
}

pub open spec fn bool_field_view(e: Map<Seq<char>, toml::Value>, key: Seq<char>) -> Option<bool> {
    match entry_of(e, key) {
        None => None,
        Some(v) => value_bool(v),
    }
}

pub open spec fn u32_field_ok(e: Map<Seq<char>, toml::Value>, key: Seq<char>) -> bool {
    match entry_of(e, key) {
        None => true,
        Some(v) => value_int(v) matches Some(x) && 0 <= x <= u32::MAX,
    }
}

pub open spec fn u32_field_view(e: Map<Seq<char>, toml::Value>, key: Seq<char>) -> Option<u32> {
    match entry_of(e, key) {
        None => None,
        Some(v) => Some(value_int(v)->Some_0 as u32),
    }
}

/// An opacity entry: a float (carried as its decimal rendering) or an
/// integer; the decimal must fit the crate's exact decimals.
pub open spec fn opacity_field_ok(e: Map<Seq<char>, toml::Value>, key: Seq<char>) -> bool {
    match entry_of(e, key) {
        None => true,
        Some(v) => match value_float_text(v) {
            Some(s) => spec_parse_decimal(s) matches Some(vk) && i64::MIN <= vk.0 <= i64::MAX
                && vk.1 <= MAX_SCALE,
            None => value_int(v) is Some,
        },
    }
}

pub open spec fn opacity_field_view(e: Map<Seq<char>, toml::Value>, key: Seq<char>) -> Option<
    Decimal,
> {
    match entry_of(e, key) {
        None => None,
        Some(v) => match value_float_text(v) {
            Some(s) => Some(
                Decimal {
                    num: spec_parse_decimal(s)->Some_0.0 as i64,
                    scale: spec_parse_decimal(s)->Some_0.1 as u32,
                },
            ),
            None => Some(Decimal { num: value_int(v)->Some_0, scale: 0 }),
        },
    }
}

pub open spec fn monitor_field_ok(e: Map<Seq<char>, toml::Value>, key: Seq<char>) -> bool {
    match entry_of(e, key) {
        None => true,
        Some(v) => match value_int(v) {
            Some(x) => 0 <= x <= u32::MAX,
            None => value_str(v) is Some,
        },
    }
}

pub open spec fn monitor_field_matches(
    e: Map<Seq<char>, toml::Value>,
    key: Seq<char>,
    m: Option<MonitorValue>,
) -> bool {
    match entry_of(e, key) {
        None => m is None,
        Some(v) => match value_int(v) {
            Some(x) => m == Some(MonitorValue::Index(x as u32)),
            None => m matches Some(mv) && (mv matches MonitorValue::Name(nm) && value_str(v)
                == Some(nm@)),
        },
    }
}

/// An array element that stands for a signed 32-bit pixel count.
pub open spec fn i32_item(v: toml::Value) -> Option<i32> {
    match value_int(v) {
        Some(x) => if i32::MIN <= x <= i32::MAX {
            Some(x as i32)
        } else {
            None
        },
        None => None,
    }
}

/// An array element that stands for an unsigned 32-bit pixel count.
pub open spec fn u32_item(v: toml::Value) -> Option<u32> {
    match value_int(v) {
        Some(x) => if 0 <= x <= u32::MAX {
            Some(x as u32)
        } else {
            None
        },
        None => None,
    }
}

/// A position entry: an anchor name, a pair of integers, or a pair of
/// dimension strings.
pub open spec fn position_field_ok(e: Map<Seq<char>, toml::Value>, key: Seq<char>) -> bool {
    match entry_of(e, key) {
        None => true,
        Some(v) => match value_str(v) {
            Some(_) => true,
            None => match value_items(v) {
                Some(items) => items.len() == 2 && ((i32_item(items[0]) is Some && i32_item(
                    items[1],
                ) is Some) || (value_str(items[0]) is Some && value_str(items[1]) is Some)),
                None => false,
            },
        },
    }
}

pub open spec fn position_field_matches(
    e: Map<Seq<char>, toml::Value>,
    key: Seq<char>,
    p: Option<PositionValue>,
) -> bool {
    match entry_of(e, key) {
        None => p is None,
        Some(v) => match value_str(v) {
            Some(s) => p matches Some(pv) && (pv matches PositionValue::Named(nm) && nm@ == s),
            None => match value_items(v) {
                Some(items) => items.len() == 2 && (if i32_item(items[0]) is Some && i32_item(
                    items[1],
                ) is Some {
                    p matches Some(pv) && (pv matches PositionValue::Absolute(c) && c[0]
                        == i32_item(items[0])->Some_0 && c[1] == i32_item(items[1])->Some_0)
                } else {
                    p matches Some(pv) && (pv matches PositionValue::Flexible(parts) && value_str(
                        items[0],
                    ) == Some(parts[0]@) && value_str(items[1]) == Some(parts[1]@))
                }),
                None => false,
            },
        },
    }
}

/// A size entry: a pair of integers or a pair of dimension strings.
pub open spec fn size_field_ok(e: Map<Seq<char>, toml::Value>, key: Seq<char>) -> bool {
    match entry_of(e, key) {
        None => true,
        Some(v) => match value_items(v) {
            Some(items) => items.len() == 2 && ((u32_item(items[0]) is Some && u32_item(
                items[1],
            ) is Some) || (value_str(items[0]) is Some && value_str(items[1]) is Some)),
            None => false,
        },
    }
}

pub open spec fn size_field_matches(
    e: Map<Seq<char>, toml::Value>,
    key: Seq<char>,
    s: Option<SizeValue>,
) -> bool {
    match entry_of(e, key) {
        None => s is None,
        Some(v) => match value_items(v) {
            Some(items) => items.len() == 2 && (if u32_item(items[0]) is Some && u32_item(
                items[1],
            ) is Some {
                s matches Some(sv) && (sv matches SizeValue::Absolute(c) && c[0] == u32_item(
                    items[0],
                )->Some_0 && c[1] == u32_item(items[1])->Some_0)
            } else {
                s matches Some(sv) && (sv matches SizeValue::Flexible(parts) && value_str(items[0])
                    == Some(parts[0]@) && value_str(items[1]) == Some(parts[1]@))
            }),
            None => false,
        },
    }
}

// EXECUTABLE FIELD READERS

fn get_str_field(t: &toml::map::Map<String, toml::Value>, key: &str) -> (r: Result<
    Option<String>,
    (),
>)
    ensures
        r is Ok <==> str_field_ok(table_entries(*t), key@),
        r matches Ok(o) ==> opt_text_view(o) == str_field_view(table_entries(*t), key@),
{
    match table_get(t, key) {
        None => Ok(None),
        Some(v) => match value_as_str(v) {
            Some(s) => Ok(Some(s.to_owned())),
            None => Err(()),
        },
    }
}

fn get_bool_field(t: &toml::map::Map<String, toml::Value>, key: &str) -> (r: Result<
    Option<bool>,
    (),
>)
    ensures
        r is Ok <==> bool_field_ok(table_entries(*t), key@),
        r matches Ok(o) ==> o == bool_field_view(table_entries(*t), key@),
{
    match table_get(t, key) {
        None => Ok(None),
        Some(v) => match value_as_bool(v) {
            Some(b) => Ok(Some(b)),
            None => Err(()),
        },
    }
}

fn get_u32_field(t: &toml::map::Map<String, toml::Value>, key: &str) -> (r: Result<
    Option<u32>,
    (),
>)
    ensures
        r is Ok <==> u32_field_ok(table_entries(*t), key@),
        r matches Ok(o) ==> o == u32_field_view(table_entries(*t), key@),
{
    match table_get(t, key) {
        None => Ok(None),
        Some(v) => match value_as_integer(v) {
            Some(x) => {
                if 0 <= x && x <= 0xffffffffi64 {
                    Ok(Some(x as u32))
                } else {
                    Err(())
                }
            },
            None => Err(()),
        },
    }
}

fn get_opacity_field(t: &toml::map::Map<String, toml::Value>, key: &str) -> (r: Result<
    Option<Decimal>,
    (),
>)
    ensures
        r is Ok <==> opacity_field_ok(table_entries(*t), key@),
        r matches Ok(o) ==> o == opacity_field_view(table_entries(*t), key@),
        r matches Ok(o) ==> (o matches Some(d) ==> d.wf()),
{
    match table_get(t, key) {
        None => Ok(None),
        Some(v) => match value_as_float_text(v) {
            Some(s) => match parse_decimal_str(s.as_str()) {
                Some(d) => Ok(Some(d)),
                None => Err(()),
            },
            None => match value_as_integer(v) {
                Some(x) => Ok(Some(Decimal { num: x, scale: 0 })),
                None => Err(()),
            },
        },
    }
}

fn get_monitor_field(t: &toml::map::Map<String, toml::Value>, key: &str) -> (r: Result<
    Option<MonitorValue>,
    (),
>)
    ensures
        r is Ok <==> monitor_field_ok(table_entries(*t), key@),
        r matches Ok(o) ==> monitor_field_matches(table_entries(*t), key@, o),
{
    match table_get(t, key) {
        None => Ok(None),
        Some(v) => match value_as_integer(v) {
            Some(x) => {
                if 0 <= x && x <= 0xffffffffi64 {
                    Ok(Some(MonitorValue::Index(x as u32)))
                } else {
                    Err(())
                }
            },
            None => match value_as_str(v) {
                Some(s) => Ok(Some(MonitorValue::Name(s.to_owned()))),
                None => Err(()),
            },
        },
    }
}

fn get_position_field(t: &toml::map::Map<String, toml::Value>, key: &str) -> (r: Result<
    Option<PositionValue>,
    (),
>)
    ensures
        r is Ok <==> position_field_ok(table_entries(*t), key@),
        r matches Ok(o) ==> position_field_matches(table_entries(*t), key@, o),
{
    match table_get(t, key) {
        None => Ok(None),
        Some(v) => match value_as_str(v) {
            Some(s) => Ok(Some(PositionValue::Named(s.to_owned()))),
            None => match value_as_array(v) {
                Some(items) => {
                    if items.len() != 2 {
                        return Err(());
                    }
                    let x0 = value_as_integer(&items[0]);
                    let x1 = value_as_integer(&items[1]);
                    let in_i32_0 = match x0 {
                        Some(x) => -0x80000000i64 <= x && x <= 0x7fffffffi64,
                        None => false,
                    };
                    let in_i32_1 = match x1 {
                        Some(x) => -0x80000000i64 <= x && x <= 0x7fffffffi64,
                        None => false,
                    };
                    if in_i32_0 && in_i32_1 {
                        let a = match x0 {
                            Some(x) => x as i32,
                            None => 0,
                        };
                        let b = match x1 {
                            Some(x) => x as i32,
                            None => 0,
                        };
                        Ok(Some(PositionValue::Absolute([a, b])))
                    } else {
                        let s0 = match value_as_str(&items[0]) {
                            Some(s) => s.to_owned(),
                            None => {
                                return Err(());
                            },
                        };
                        let s1 = match value_as_str(&items[1]) {
                            Some(s) => s.to_owned(),
                            None => {
                                return Err(());
                            },
                        };
                        Ok(Some(PositionValue::Flexible([s0, s1])))
                    }
                },
                None => Err(()),
            },
        },
    }
}

fn get_size_field(t: &toml::map::Map<String, toml::Value>, key: &str) -> (r: Result<
    Option<SizeValue>,
    (),
>)
    ensures
        r is Ok <==> size_field_ok(table_entries(*t), key@),
        r matches Ok(o) ==> size_field_matches(table_entries(*t), key@, o),
{
    match table_get(t, key) {
        None => Ok(None),
        Some(v) => match value_as_array(v) {
            Some(items) => {
                if items.len() != 2 {
                    return Err(());
                }
                let x0 = value_as_integer(&items[0]);
                let x1 = value_as_integer(&items[1]);
                let in_u32_0 = match x0 {
                    Some(x) => 0 <= x && x <= 0xffffffffi64,
                    None => false,
                };
                let in_u32_1 = match x1 {
                    Some(x) => 0 <= x && x <= 0xffffffffi64,
                    None => false,
                };
                if in_u32_0 && in_u32_1 {
                    let a = match x0 {
                        Some(x) => x as u32,
                        None => 0,
                    };
                    let b = match x1 {
                        Some(x) => x as u32,
                        None => 0,
                    };
                    Ok(Some(SizeValue::Absolute([a, b])))
                } else {
                    let s0 = match value_as_str(&items[0]) {
                        Some(s) => s.to_owned(),
                        None => {
                            return Err(());
                        },
                    };
                    let s1 = match value_as_str(&items[1]) {
                        Some(s) => s.to_owned(),
                        None => {
                            return Err(());
                        },
                    };
                    Ok(Some(SizeValue::Flexible([s0, s1])))
                }
            },
            None => Err(()),
        },
    }
}

// A WHOLE RULE, AND THE WHOLE CONFIGURATION

/// Whether every field of a rule table has an acceptable shape.
pub open spec fn rule_table_ok(e: Map<Seq<char>, toml::Value>) -> bool {
    &&& str_field_ok(e, "class"@)
    &&& str_field_ok(e, "title"@)
    &&& str_field_ok(e, "role"@)
    &&& str_field_ok(e, "process"@)
    &&& str_field_ok(e, "type"@)
    &&& u32_field_ok(e, "workspace"@)
    &&& monitor_field_ok(e, "monitor"@)
    &&& position_field_ok(e, "position"@)
    &&& size_field_ok(e, "size"@)
    &&& bool_field_ok(e, "maximize"@)
    &&& bool_field_ok(e, "fullscreen"@)
    &&& bool_field_ok(e, "pin"@)
    &&& bool_field_ok(e, "minimize"@)
    &&& bool_field_ok(e, "shade"@)
    &&& bool_field_ok(e, "above"@)
    &&& bool_field_ok(e, "below"@)
    &&& bool_field_ok(e, "decorate"@)
    &&& bool_field_ok(e, "focus"@)
    &&& opacity_field_ok(e, "opacity"@)
}

/// What a parsed rule carries away from its table: every field corresponds
/// to the entry under its key (unknown keys are ignored).
pub open spec fn rule_matches_entries(r: Rule, e: Map<Seq<char>, toml::Value>) -> bool {
    &&& opt_text_view(r.class) == str_field_view(e, "class"@)
    &&& opt_text_view(r.title) == str_field_view(e, "title"@)
    &&& opt_text_view(r.role) == str_field_view(e, "role"@)
    &&& opt_text_view(r.process) == str_field_view(e, "process"@)
    &&& opt_text_view(r.window_type) == str_field_view(e, "type"@)
    &&& r.workspace == u32_field_view(e, "workspace"@)
    &&& monitor_field_matches(e, "monitor"@, r.monitor)
    &&& position_field_matches(e, "position"@, r.position)
    &&& size_field_matches(e, "size"@, r.size)
    &&& r.maximize == bool_field_view(e, "maximize"@)
    &&& r.fullscreen == bool_field_view(e, "fullscreen"@)
    &&& r.pin == bool_field_view(e, "pin"@)
    &&& r.minimize == bool_field_view(e, "minimize"@)
    &&& r.shade == bool_field_view(e, "shade"@)
    &&& r.above == bool_field_view(e, "above"@)
    &&& r.below == bool_field_view(e, "below"@)
    &&& r.decorate == bool_field_view(e, "decorate"@)
    &&& r.focus == bool_field_view(e, "focus"@)
    &&& r.opacity == opacity_field_view(e, "opacity"@)
}

pub open spec fn msg_bad_field(i: nat, key: Seq<char>) -> Seq<char> {
    msg_rule_prefix(i) + "invalid value for `"@ + key + "`"@
}

/// The message for the first field of a rule table with an unacceptable
/// shape, in the order the reader walks the fields.
pub open spec fn spec_rule_table_err(e: Map<Seq<char>, toml::Value>, i: nat) -> Seq<char> {
    if !str_field_ok(e, "class"@) {
        msg_bad_field(i, "class"@)
    } else if !str_field_ok(e, "title"@) {
        msg_bad_field(i, "title"@)
    } else if !str_field_ok(e, "role"@) {
        msg_bad_field(i, "role"@)
    } else if !str_field_ok(e, "process"@) {
        msg_bad_field(i, "process"@)
    } else if !str_field_ok(e, "type"@) {
        msg_bad_field(i, "type"@)
    } else if !u32_field_ok(e, "workspace"@) {
        msg_bad_field(i, "workspace"@)
    } else if !monitor_field_ok(e, "monitor"@) {
        msg_bad_field(i, "monitor"@)
    } else if !position_field_ok(e, "position"@) {
        msg_bad_field(i, "position"@)
    } else if !size_field_ok(e, "size"@) {
        msg_bad_field(i, "size"@)
    } else if !bool_field_ok(e, "maximize"@) {
        msg_bad_field(i, "maximize"@)
    } else if !bool_field_ok(e, "fullscreen"@) {
        msg_bad_field(i, "fullscreen"@)
    } else if !bool_field_ok(e, "pin"@) {
        msg_bad_field(i, "pin"@)
    } else if !bool_field_ok(e, "minimize"@) {
        msg_bad_field(i, "minimize"@)
    } else if !bool_field_ok(e, "shade"@) {
        msg_bad_field(i, "shade"@)
    } else if !bool_field_ok(e, "above"@) {
        msg_bad_field(i, "above"@)
    } else if !bool_field_ok(e, "below"@) {
        msg_bad_field(i, "below"@)
    } else if !bool_field_ok(e, "decorate"@) {
        msg_bad_field(i, "decorate"@)
    } else if !bool_field_ok(e, "focus"@) {
        msg_bad_field(i, "focus"@)
    } else {
        msg_bad_field(i, "opacity"@)
    }
}

// VALIDITY, READ OFF THE DOCUMENT

/// Whether a rule table has a matcher entry: the rule read from it will
/// have the same matchers set.
pub open spec fn rule_entries_has_matcher(e: Map<Seq<char>, toml::Value>) -> bool {
    ||| str_field_view(e, "class"@) is Some
    ||| str_field_view(e, "title"@) is Some
    ||| str_field_view(e, "role"@) is Some
    ||| str_field_view(e, "process"@) is Some
    ||| str_field_view(e, "type"@) is Some
}

/// Whether the position entry of a rule table, if present, will validate:
/// an anchor name must be known, and flexible dimension strings must parse.
pub open spec fn position_entry_valid(e: Map<Seq<char>, toml::Value>, key: Seq<char>) -> bool {
    match entry_of(e, key) {
        None => true,
        Some(v) => match value_str(v) {
            Some(s) => named_position_ok(s),
            None => match value_items(v) {
                Some(items) => items.len() == 2 && (if i32_item(items[0]) is Some && i32_item(
                    items[1],
                ) is Some {
                    true
                } else {
                    (value_str(items[0]) matches Some(s0) && dim_text_ok(s0)) && (value_str(
                        items[1],
                    ) matches Some(s1) && dim_text_ok(s1))
                }),
                None => false,
            },
        },
    }
}

/// Whether the size entry of a rule table, if present, will validate.
pub open spec fn size_entry_valid(e: Map<Seq<char>, toml::Value>, key: Seq<char>) -> bool {
    match entry_of(e, key) {
        None => true,
        Some(v) => match value_items(v) {
            Some(items) => items.len() == 2 && (if u32_item(items[0]) is Some && u32_item(
                items[1],
            ) is Some {
                true
            } else {
                (value_str(items[0]) matches Some(s0) && dim_text_ok(s0)) && (value_str(items[1])
                    matches Some(s1) && dim_text_ok(s1))
            }),
            None => false,
        },
    }
}

/// Validity of the rule a table reads to, stated over the table's entries
/// alone.
pub open spec fn rule_entries_valid(e: Map<Seq<char>, toml::Value>) -> bool {
    &&& rule_entries_has_matcher(e)
    &&& position_entry_valid(e, "position"@)
    &&& size_entry_valid(e, "size"@)
}

/// The rule read from a table is valid exactly when the table's entries
/// are: validity is a function of the document.
pub proof fn lemma_rule_validity_matches(r: Rule, e: Map<Seq<char>, toml::Value>)
    requires
        rule_table_ok(e),
        rule_matches_entries(r, e),
    ensures
        rule_valid(r) <==> rule_entries_valid(e),
{
    assert(rule_has_matcher(r) <==> rule_entries_has_matcher(e));
    match entry_of(e, "position"@) {
        None => {
            assert(r.position is None);
        },
        Some(v) => {
            assert((r.position matches Some(p) ==> position_value_ok(p)) <==> position_entry_valid(
                e,
                "position"@,
            ));
        },
    }
    match entry_of(e, "size"@) {
        None => {
            assert(r.size is None);
        },
        Some(v) => {
            assert((r.size matches Some(s) ==> size_value_ok(s)) <==> size_entry_valid(e, "size"@));
        },
    }
}

fn bad_field_error(idx: usize, key: &str) -> (m: String)
    ensures
        m@ == msg_bad_field(idx as nat, key@),
{
    let mut m = msg_prefix_string(idx);
    m.append("invalid value for `");
    m.append(key);
    m.append("`");
    proof {
        assert(m@ =~= msg_bad_field(idx as nat, key@));
    }
    m
}

/// Reads one rule out of its table. Succeeds exactly when every field has
/// an acceptable shape; the rule then corresponds field by field to the
/// table's entries.
pub fn rule_from_table(t: &toml::map::Map<String, toml::Value>, idx: usize) -> (r: Result<
    Rule,
    String,
>)
    ensures
        r is Ok <==> rule_table_ok(table_entries(*t)),
        r matches Ok(rule) ==> rule_matches_entries(rule, table_entries(*t)) && rule.wf(),
        r matches Err(er) ==> er@ == spec_rule_table_err(table_entries(*t), idx as nat),
{
    let class = match get_str_field(t, "class") {
        Ok(o) => o,
        Err(()) => {
            return Err(bad_field_error(idx, "class"));
        },
    };
    let title = match get_str_field(t, "title") {
        Ok(o) => o,
        Err(()) => {
            return Err(bad_field_error(idx, "title"));
        },
    };
    let role = match get_str_field(t, "role") {
        Ok(o) => o,
        Err(()) => {
            return Err(bad_field_error(idx, "role"));
        },
    };
    let process = match get_str_field(t, "process") {
        Ok(o) => o,
        Err(()) => {
            return Err(bad_field_error(idx, "process"));
        },
    };
    let window_type = match get_str_field(t, "type") {
        Ok(o) => o,
        Err(()) => {
            return Err(bad_field_error(idx, "type"));
        },
    };
    let workspace = match get_u32_field(t, "workspace") {
        Ok(o) => o,
        Err(()) => {
            return Err(bad_field_error(idx, "workspace"));
        },
    };
    let monitor = match get_monitor_field(t, "monitor") {
        Ok(o) => o,
        Err(()) => {
            return Err(bad_field_error(idx, "monitor"));
        },
    };
    let position = match get_position_field(t, "position") {
        Ok(o) => o,
        Err(()) => {
            return Err(bad_field_error(idx, "position"));
        },
    };
    let size = match get_size_field(t, "size") {
        Ok(o) => o,
        Err(()) => {
            return Err(bad_field_error(idx, "size"));
        },
    };
    let maximize = match get_bool_field(t, "maximize") {
        Ok(o) => o,
        Err(()) => {
            return Err(bad_field_error(idx, "maximize"));
        },
    };
    let fullscreen = match get_bool_field(t, "fullscreen") {
        Ok(o) => o,
        Err(()) => {
            return Err(bad_field_error(idx, "fullscreen"));
        },
    };
    let pin = match get_bool_field(t, "pin") {
        Ok(o) => o,
        Err(()) => {
            return Err(bad_field_error(idx, "pin"));
        },
    };
    let minimize = match get_bool_field(t, "minimize") {
        Ok(o) => o,
        Err(()) => {
            return Err(bad_field_error(idx, "minimize"));
        },
    };
    let shade = match get_bool_field(t, "shade") {
        Ok(o) => o,
        Err(()) => {
            return Err(bad_field_error(idx, "shade"));
        },
    };
    let above = match get_bool_field(t, "above") {
        Ok(o) => o,
        Err(()) => {
            return Err(bad_field_error(idx, "above"));
        },
    };
    let below = match get_bool_field(t, "below") {
        Ok(o) => o,
        Err(()) => {
            return Err(bad_field_error(idx, "below"));
        },
    };
    let decorate = match get_bool_field(t, "decorate") {
        Ok(o) => o,
        Err(()) => {
            return Err(bad_field_error(idx, "decorate"));
        },
    };
    let focus = match get_bool_field(t, "focus") {
        Ok(o) => o,
        Err(()) => {
            return Err(bad_field_error(idx, "focus"));
        },
    };
    let opacity = match get_opacity_field(t, "opacity") {
        Ok(o) => o,
        Err(()) => {
            return Err(bad_field_error(idx, "opacity"));
        },
    };
    Ok(
        Rule {
            class,
            title,
            role,
            process,
            window_type,
            workspace,
            monitor,
            position,
            size,
            maximize,
            fullscreen,
            pin,
            minimize,
            shade,
            above,
            below,
            decorate,
            focus,
            opacity,
        },
    )
}

/// Whether a parsed document has the shape of a configuration: a `rule`
/// array whose elements are acceptable rule tables.
pub open spec fn config_table_ok(e: Map<Seq<char>, toml::Value>) -> bool {
    &&& entry_of(e, "rule"@) is Some
    &&& value_items(entry_of(e, "rule"@)->Some_0) is Some
    &&& forall|i: int|
        0 <= i < value_items(entry_of(e, "rule"@)->Some_0)->Some_0.len() ==> #[trigger] value_table(
            value_items(entry_of(e, "rule"@)->Some_0)->Some_0[i],
        ) is Some && rule_table_ok(
            table_entries(value_table(value_items(entry_of(e, "rule"@)->Some_0)->Some_0[i])->Some_0),
        )
}

/// What a parsed configuration carries away from the document: one rule
/// per element of the `rule` array, each corresponding to its table.
pub open spec fn config_matches_doc(c: Config, e: Map<Seq<char>, toml::Value>) -> bool {
    let items = value_items(entry_of(e, "rule"@)->Some_0)->Some_0;
    &&& c.rule@.len() == items.len()
    &&& forall|i: int|
        0 <= i < items.len() ==> rule_matches_entries(
            #[trigger] c.rule@[i],
            table_entries(value_table(items[i])->Some_0),
        )
}

/// Validity of the whole configuration a document reads to, stated over
/// the document alone: every rule table reads to a valid rule.
pub open spec fn config_doc_rules_valid(e: Map<Seq<char>, toml::Value>) -> bool {
    forall|i: int|
        0 <= i < value_items(entry_of(e, "rule"@)->Some_0)->Some_0.len()
            ==> rule_entries_valid(
            table_entries(
                #[trigger] value_table(
                    value_items(entry_of(e, "rule"@)->Some_0)->Some_0[i],
                )->Some_0,
            ),
        )
}

/// The configuration read from a document is valid exactly when the
/// document is: validity is a function of the text, not of the reading.
pub proof fn lemma_config_validity_matches(c: Config, e: Map<Seq<char>, toml::Value>)
    requires
        config_table_ok(e),
        config_matches_doc(c, e),
    ensures
        config_valid(c) <==> config_doc_rules_valid(e),
{
    let items = value_items(entry_of(e, "rule"@)->Some_0)->Some_0;
    if config_valid(c) {
        assert forall|i: int| 0 <= i < items.len() implies rule_entries_valid(
            table_entries(#[trigger] value_table(items[i])->Some_0),
        ) by {
            assert(rule_valid(c.rule@[i]));
            lemma_rule_validity_matches(c.rule@[i], table_entries(value_table(items[i])->Some_0));
        }
    }
    if config_doc_rules_valid(e) {
        assert forall|i: int| 0 <= i < c.rule@.len() implies rule_valid(#[trigger] c.rule@[i]) by {
            assert(value_table(items[i]) is Some && rule_entries_valid(
                table_entries(value_table(items[i])->Some_0),
            ));
            lemma_rule_validity_matches(c.rule@[i], table_entries(value_table(items[i])->Some_0));
        }
    }
}

pub open spec fn msg_rule_not_table(i: nat) -> Seq<char> {
    msg_rule_prefix(i) + "a rule must be a table"@
}

/// The error of the first offending element of the `rule` array, from
/// index `i` on: an element that is no table, or a table with a bad field.
pub open spec fn spec_rules_err_from(items: Seq<toml::Value>, i: nat) -> Seq<char>
    decreases items.len() - i,
{
    if i >= items.len() {
        Seq::empty()
    } else if value_table(items[i as int]) is None {
        msg_rule_not_table(i)
    } else if !rule_table_ok(table_entries(value_table(items[i as int])->Some_0)) {
        spec_rule_table_err(table_entries(value_table(items[i as int])->Some_0), i)
    } else {
        spec_rules_err_from(items, i + 1)
    }
}

/// The message reported for a document that does not read to a
/// configuration.
pub open spec fn spec_config_err(e: Map<Seq<char>, toml::Value>) -> Seq<char> {
    if entry_of(e, "rule"@) is None {
        "missing field `rule`"@
    } else if value_items(entry_of(e, "rule"@)->Some_0) is None {
        "`rule` must be an array of tables"@
    } else {
        spec_rules_err_from(value_items(entry_of(e, "rule"@)->Some_0)->Some_0, 0)
    }
}

/// Reads the whole configuration out of a parsed document.
pub fn config_from_table(t: &toml::map::Map<String, toml::Value>) -> (r: Result<Config, String>)
    ensures
        r is Ok <==> config_table_ok(table_entries(*t)),
        r matches Ok(c) ==> config_matches_doc(c, table_entries(*t)) && c.wf(),
        r matches Err(er) ==> er@ == spec_config_err(table_entries(*t)),
{
    let arr = match table_get(t, "rule") {
        Some(v) => match value_as_array(v) {
            Some(a) => a,
            None => {
                return Err(String::from_str("`rule` must be an array of tables"));
            },
        },
        None => {
            return Err(String::from_str("missing field `rule`"));
        },
    };
    let ghost items = value_items(entry_of(table_entries(*t), "rule"@)->Some_0)->Some_0;
    proof {
        assert(items == arr@);
    }
    let n = arr.len();
    let mut out: Vec<Rule> = Vec::new();
    let mut i: usize = 0;
    while i < n
        invariant
            n == arr@.len(),
            arr@ == items,
            entry_of(table_entries(*t), "rule"@) is Some,
            value_items(entry_of(table_entries(*t), "rule"@)->Some_0) == Some(items),
            i <= n,
            out@.len() == i,
            forall|j: int|
                0 <= j < i ==> #[trigger] value_table(items[j]) is Some && rule_table_ok(
                    table_entries(value_table(items[j])->Some_0),
                ),
            spec_rules_err_from(items, 0) == spec_rules_err_from(items, i as nat),
            forall|j: int|
                0 <= j < i ==> rule_matches_entries(
                    #[trigger] out@[j],
                    table_entries(value_table(items[j])->Some_0),
                ) && out@[j].wf(),
        decreases n - i,
    {
        let table = match value_as_table(&arr[i]) {
            Some(tb) => tb,
            None => {
                let mut m = msg_prefix_string(i);
                m.append("a rule must be a table");
                return Err(m);
            },
        };
        match rule_from_table(table, i) {
            Ok(rule) => {
                out.push(rule);
            },
            Err(e) => {
                return Err(e);
            },
        }
        i = i + 1;
    }
    Ok(Config { rule: out })
}

/// Parses configuration text, reads the rules out of it, and validates
/// them. Loading succeeds exactly when the text parses, the document has
/// the shape of a configuration, and every rule it reads to is valid; the
/// configuration handed back corresponds to the parsed document, rule by
/// rule and field by field. A successfully loaded configuration is always
/// valid: every rule has at least one matcher, and every position and size
/// specification is well formed — so no matcherless rule ever reaches the
/// matching engine.
pub fn load_str(text: &str) -> (r: Result<Config, String>)
    ensures
        r is Ok <==> toml_text_valid(text@) && config_table_ok(toml_doc(text@))
            && config_doc_rules_valid(toml_doc(text@)),
        r matches Ok(c) ==> config_matches_doc(c, toml_doc(text@)) && config_valid(c) && c.wf(),
        !toml_text_valid(text@) ==> (r matches Err(e) && e@ == toml_parse_error(text@)),
        toml_text_valid(text@) && !config_table_ok(toml_doc(text@)) ==> (r matches Err(e) && e@
            == spec_config_err(toml_doc(text@))),
{
    let table = match parse_toml_table(text) {
        Ok(tb) => tb,
        Err(e) => {
            return Err(e);
        },
    };
    let cfg = match config_from_table(&table) {
        Ok(c) => c,
        Err(e) => {
            return Err(e);
        },
    };
    proof {
        lemma_config_validity_matches(cfg, toml_doc(text@));
    }
    match validate_config(&cfg) {
        Ok(()) => Ok(cfg),
        Err(e) => Err(e),
    }
}

} // verus!
