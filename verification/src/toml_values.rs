use vstd::prelude::*;

verus! {

#[verifier::external_type_specification]
#[verifier::external_body]
pub struct ExTomlValue(toml::Value);

#[verifier::external_type_specification]
#[verifier::external_body]
#[verifier::reject_recursive_types(K)]
#[verifier::reject_recursive_types(V)]
pub struct ExTomlMap<K, V>(toml::map::Map<K, V>);

/// Whether `toml::Table::from_str` accepts the text.
pub uninterp spec fn toml_text_valid(s: Seq<char>) -> bool;

/// The rendered text of the parse error `toml::Table::from_str` reports
/// for invalid text.
pub uninterp spec fn toml_parse_error(s: Seq<char>) -> Seq<char>;

/// The document that parsing valid TOML text yields, given as its entries:
/// a function of the text alone.
pub uninterp spec fn toml_doc(s: Seq<char>) -> Map<Seq<char>, toml::Value>;

/// What a parsed table holds: its entries, keyed by text.
pub uninterp spec fn table_entries(t: toml::map::Map<String, toml::Value>) -> Map<
    Seq<char>,
    toml::Value,
>;

/// The text of a string value, as `toml::Value::as_str` answers.
pub uninterp spec fn value_str(v: toml::Value) -> Option<Seq<char>>;

/// The integer of an integer value, as `toml::Value::as_integer` answers.
pub uninterp spec fn value_int(v: toml::Value) -> Option<i64>;

/// The boolean of a boolean value, as `toml::Value::as_bool` answers.
pub uninterp spec fn value_bool(v: toml::Value) -> Option<bool>;

/// The decimal rendering of a float value (`{}` of the 64-bit float), as
/// `toml::Value::as_float` and the float's display produce it; a function
/// of the value alone.
pub uninterp spec fn value_float_text(v: toml::Value) -> Option<Seq<char>>;

/// What an array value holds, as `toml::Value::as_array` answers.
pub uninterp spec fn value_items(v: toml::Value) -> Option<Seq<toml::Value>>;

/// The table of a table value, as `toml::Value::as_table` answers.
pub uninterp spec fn value_table(v: toml::Value) -> Option<toml::map::Map<String, toml::Value>>;

/// Relies on `toml::Table`'s `FromStr`: whether TOML text parses, the
/// parsed document, and the error's rendered message are each a function
/// of the text alone.
#[verifier::external_body]
pub(crate) fn parse_toml_table(s: &str) -> (r: Result<toml::map::Map<String, toml::Value>, String>)
    ensures
        r is Ok <==> toml_text_valid(s@),
        r matches Ok(t) ==> table_entries(t) == toml_doc(s@),
        r matches Err(e) ==> e@ == toml_parse_error(s@),
{
    match s.parse::<toml::Table>() {
        Ok(t) => Ok(t),
        Err(e) => Err(e.to_string()),
    }
}

/// Relies on `toml::map::Map::get`: hands out the entry under the key, as
/// `table_entries` names the contents.
#[verifier::external_body]
pub(crate) fn table_get<'a>(t: &'a toml::map::Map<String, toml::Value>, key: &str) -> (r: Option<
    &'a toml::Value,
>)
    ensures
        match r {
            Some(v) => table_entries(*t).contains_key(key@) && *v == table_entries(*t)[key@],
            None => !table_entries(*t).contains_key(key@),
        },
{
    t.get(key)
}

/// Relies on `toml::Value::as_str`.
#[verifier::external_body]
pub(crate) fn value_as_str<'a>(v: &'a toml::Value) -> (r: Option<&'a str>)
    ensures
        match r {
            Some(s) => value_str(*v) == Some(s@),
            None => value_str(*v) is None,
        },
{
    v.as_str()
}

/// Relies on `toml::Value::as_integer`.
#[verifier::external_body]
pub(crate) fn value_as_integer(v: &toml::Value) -> (r: Option<i64>)
    ensures
        r == value_int(*v),
{
    v.as_integer()
}

/// Relies on `toml::Value::as_bool`.
#[verifier::external_body]
pub(crate) fn value_as_bool(v: &toml::Value) -> (r: Option<bool>)
    ensures
        r == value_bool(*v),
{
    v.as_bool()
}

/// Relies on `toml::Value::as_float` and the standard decimal display of
/// the 64-bit float, which renders plain decimal digits (never an
/// exponent) and is a function of the value alone.
#[verifier::external_body]
pub(crate) fn value_as_float_text(v: &toml::Value) -> (r: Option<String>)
    ensures
        match r {
            Some(s) => value_float_text(*v) == Some(s@),
            None => value_float_text(*v) is None,
        },
{
    v.as_float().map(|f| f.to_string())
}

/// Relies on `toml::Value::as_array`.
#[verifier::external_body]
pub(crate) fn value_as_array<'a>(v: &'a toml::Value) -> (r: Option<&'a Vec<toml::Value>>)
    ensures
        match r {
            Some(a) => value_items(*v) == Some(a@),
            None => value_items(*v) is None,
        },
{
    v.as_array()
}

/// Relies on `toml::Value::as_table`.
#[verifier::external_body]
pub(crate) fn value_as_table<'a>(v: &'a toml::Value) -> (r: Option<
    &'a toml::map::Map<String, toml::Value>,
>)
    ensures
        match r {
            Some(t) => value_table(*v) == Some(*t),
            None => value_table(*v) is None,
        },
{
    v.as_table()
}

} // verus!
