use vstd::prelude::*;
use crate::config::{Pool, lookup, compiler_version_key, resource_suffix_from};
use crate::resolve::resolved_suffix;

verus! {

/// A site-wide notice shown on every page.
#[derive(Debug, Clone)]
pub struct GlobalAlert {
    pub url: String,
    pub text: String,
    pub css_class: String,
    pub fa_icon: String,
}

/// The value that a constant function of the catalog returns.
#[derive(Debug, Clone)]
pub enum ConstantValue {
    /// Renders as "no value".
    Null,
    Text(String),
    Alert(GlobalAlert),
}

/// The filters that a catalog carries.
#[derive(Debug, Clone, Copy, PartialEq, Eq, Structural)]
pub enum FilterKind {
    /// Formats a duration or a timestamp.
    Timeformat,
    /// Writes a debug form of its input to the diagnostic channel and returns the input.
    Dbg,
    /// Strips the leading white space of every line.
    Dedent,
}

/// One entry that a catalog binds under a name at build time.
#[derive(Debug, Clone)]
pub enum Registration {
    Constant { name: String, value: ConstantValue },
    Filter { name: String, kind: FilterKind },
}

/// The name a registration is bound under.
pub open spec fn name_of(r: Registration) -> Seq<char> {
    match r {
        Registration::Constant { name, .. } => name@,
        Registration::Filter { name, .. } => name@,
    }
}

/// What the global alert function returns: the alert, or no value when there is none.
pub open spec fn alert_value(alert: Option<GlobalAlert>) -> ConstantValue {
    match alert {
        Some(a) => ConstantValue::Alert(a),
        None => ConstantValue::Null,
    }
}

/// Whether `r` is the constant function `name` returning text `t`.
pub open spec fn is_text_constant(r: Registration, name: Seq<char>, t: Seq<char>) -> bool {
    r matches Registration::Constant { name: n, value: ConstantValue::Text(v) } && n@ == name
        && v@ == t
}

/// Whether `r` is the filter `name` of kind `k`.
pub open spec fn is_filter(r: Registration, name: Seq<char>, k: FilterKind) -> bool {
    r matches Registration::Filter { name: n, kind } && n@ == name && kind == k
}

/// The entries that every catalog carries, in the order they are bound: the global
/// alert, the service's build version, the compiler resource suffix, and the
/// `timeformat`, `dbg` and `dedent` filters.
pub fn registrations(alert: Option<GlobalAlert>, build_version: &str, suffix: String) -> (r: Vec<
    Registration,
>)
    ensures
        r@.len() == 6,
        r@[0] matches Registration::Constant { name, value } && name@ == "global_alert"@
            && value == alert_value(alert),
        is_text_constant(r@[1], "docsrs_version"@, build_version@),
        is_text_constant(r@[2], "rustc_resource_suffix"@, suffix@),
        is_filter(r@[3], "timeformat"@, FilterKind::Timeformat),
        is_filter(r@[4], "dbg"@, FilterKind::Dbg),
        is_filter(r@[5], "dedent"@, FilterKind::Dedent),
{
    let alert_value = match alert {
        Some(a) => ConstantValue::Alert(a),
        None => ConstantValue::Null,
    };
    let mut r: Vec<Registration> = Vec::new();
    r.push(Registration::Constant { name: String::from_str("global_alert"), value: alert_value });
    r.push(
        Registration::Constant {
            name: String::from_str("docsrs_version"),
            value: ConstantValue::Text(String::from_str(build_version)),
        },
    );
    r.push(
        Registration::Constant {
            name: String::from_str("rustc_resource_suffix"),
            value: ConstantValue::Text(suffix),
        },
    );
    r.push(
        Registration::Filter { name: String::from_str("timeformat"), kind: FilterKind::Timeformat },
    );
    r.push(Registration::Filter { name: String::from_str("dbg"), kind: FilterKind::Dbg });
    r.push(Registration::Filter { name: String::from_str("dedent"), kind: FilterKind::Dedent });
    r
}

/// The entries of a catalog built against the configuration source `source`: those of
/// `registrations`, with the resource suffix resolved from the source. A source that
/// lacks a usable compiler version gives the placeholder suffix, never a failed build.
pub fn catalog_entries(alert: Option<GlobalAlert>, build_version: &str, source: &Pool) -> (r: Vec<
    Registration,
>)
    ensures
        r@.len() == 6,
        r@[0] matches Registration::Constant { name, value } && name@ == "global_alert"@
            && value == alert_value(alert),
        is_text_constant(r@[1], "docsrs_version"@, build_version@),
        is_text_constant(
            r@[2],
            "rustc_resource_suffix"@,
            resolved_suffix(lookup(source@, compiler_version_key())),
        ),
        is_filter(r@[3], "timeformat"@, FilterKind::Timeformat),
        is_filter(r@[4], "dbg"@, FilterKind::Dbg),
        is_filter(r@[5], "dedent"@, FilterKind::Dedent),
{
    let suffix = resource_suffix_from(source);
    registrations(alert, build_version, suffix)
}

} // verus!
