use vstd::prelude::*;
use crate::json::{JsonNumber, JsonValue};
use serde_json::Value;

verus! {

#[verifier::external_type_specification]
#[verifier::external_body]
pub struct ExRegex(regex::Regex);

#[verifier::external_type_specification]
#[verifier::external_body]
pub struct ExJson(Value);

/// Whether the regular expression `pattern` is accepted by the regex crate.
pub uninterp spec fn pattern_compiles(pattern: Seq<char>) -> bool;

/// The text left of `text` once every match of `pattern` is deleted.
pub uninterp spec fn pattern_deleted(pattern: Seq<char>, text: Seq<char>) -> Seq<char>;

/// Whether a strict structural comparison of `lhs` with `rhs` finds any
/// difference. (Which text describes them is not fixed: the lines of one
/// level come out in the order of a randomly seeded hash set.)
pub uninterp spec fn strict_differs(lhs: JsonValue, rhs: JsonValue) -> bool;

/// A compiled filter expression, kept with the pattern it was compiled from.
pub struct DiffFilter {
    source: String,
    regex: regex::Regex,
}

impl DiffFilter {
    pub closed spec fn pattern(&self) -> Seq<char> {
        self.source@
    }
}

/// Relies on regex::Regex::new: compiles `pattern`, or gives the reason it was refused.
#[verifier::external_body]
fn compile_filter(pattern: &String) -> (r: Result<DiffFilter, String>)
    ensures
        r is Ok <==> pattern_compiles(pattern@),
        r matches Ok(f) ==> f.pattern() == pattern@,
{
    match regex::Regex::new(pattern) {
        Ok(regex) => Ok(DiffFilter { source: pattern.clone(), regex }),
        Err(e) => Err(e.to_string()),
    }
}

/// Relies on regex::Regex::replace_all with an empty replacement: matches
/// are only deleted, so the text never grows.
#[verifier::external_body]
fn delete_matches(filter: &DiffFilter, text: &String) -> (r: String)
    ensures
        r@ == pattern_deleted(filter.pattern(), text@),
        r@.len() <= text@.len(),
{
    filter.regex.replace_all(text, "").to_string()
}

/// Relies on serde_json's `Value` constructors: builds the serde_json form of
/// `v`, member for member.
#[verifier::external_body]
fn to_serde_value(v: &JsonValue) -> Value {
    match v {
        JsonValue::Null => Value::Null,
        JsonValue::Bool(b) => Value::Bool(*b),
        JsonValue::Number(JsonNumber::PosInt(n)) => Value::from(*n),
        JsonValue::Number(JsonNumber::NegInt(n)) => Value::from(*n),
        JsonValue::Number(JsonNumber::Float(t)) => t.parse().map_or(Value::Null, Value::Number),
        JsonValue::Text(s) => Value::String(s.clone()),
        JsonValue::Array(items) => Value::Array(items.iter().map(to_serde_value).collect()),
        JsonValue::Object(members) => Value::Object(members.iter().map(|(k, m)| (k.clone(), to_serde_value(m))).collect()),
    }
}

/// Relies on assert_json_diff::assert_json_matches_no_panic in strict mode:
/// `Ok` when no difference is found, otherwise the differences, each described
/// by a non-empty line, joined in an order that may vary from call to call.
#[verifier::external_body]
fn strict_json_diff(lhs: &JsonValue, rhs: &JsonValue) -> (r: Option<String>)
    ensures
        r is Some <==> strict_differs(*lhs, *rhs),
        r matches Some(d) ==> d@.len() > 0,
        *lhs == *rhs ==> r is None,
{
    let config = assert_json_diff::Config::new(assert_json_diff::CompareMode::Strict);
    assert_json_diff::assert_json_matches_no_panic(&to_serde_value(lhs), &to_serde_value(rhs), config).err()
}

/// The text left of `text` once the patterns are applied, in order, each
/// deleting all its matches.
pub open spec fn filtered(patterns: Seq<Seq<char>>, text: Seq<char>) -> Seq<char>
    decreases patterns.len(),
{
    if patterns.len() == 0 {
        text
    } else {
        pattern_deleted(patterns.last(), filtered(patterns.drop_last(), text))
    }
}

/// The outcome of filtering the difference description `raw`: what is left,
/// or `None` when nothing is.
pub open spec fn filtered_outcome(patterns: Seq<Seq<char>>, raw: Seq<char>) -> Option<Seq<char>> {
    if filtered(patterns, raw).len() == 0 {
        None
    } else {
        Some(filtered(patterns, raw))
    }
}

/// Whether some first `k` of the patterns already leave nothing of `raw`.
pub open spec fn emptied_by_prefix(patterns: Seq<Seq<char>>, raw: Seq<char>) -> bool {
    exists|k: int| 0 <= k <= patterns.len() && #[trigger] filtered(patterns.subrange(0, k), raw).len() == 0
}

pub open spec fn text_of(r: Option<String>) -> Option<Seq<char>> {
    match r {
        Some(t) => Some(t@),
        None => None,
    }
}

/// Whether `r` is an outcome of comparing `lhs` with `rhs` under the
/// patterns: `None` when the values do not differ; otherwise the filtered
/// form of some non-empty description of their differences, and `None`
/// whenever some first filters already leave nothing of it.
pub open spec fn comparison_allows(patterns: Seq<Seq<char>>, lhs: JsonValue, rhs: JsonValue, r: Option<Seq<char>>) -> bool {
    if !strict_differs(lhs, rhs) {
        r is None
    } else {
        exists|raw: Seq<char>|
            raw.len() > 0 && r == #[trigger] filtered_outcome(patterns, raw) && (emptied_by_prefix(patterns, raw) ==> r is None)
    }
}

pub open spec fn patterns_of(filters: Seq<DiffFilter>) -> Seq<Seq<char>> {
    filters.map_values(|f: DiffFilter| f.pattern())
}

/// Compiles each pattern in order; the first one refused stops the work.
pub fn compile_filters(patterns: &Vec<String>) -> (r: Result<Vec<DiffFilter>, String>)
    ensures
        r is Ok <==> forall|i: int| 0 <= i < patterns@.len() ==> pattern_compiles(#[trigger] patterns@[i]@),
        r matches Ok(fs) ==> patterns_of(fs@) == patterns@.map_values(|p: String| p@),
{
    let mut filters: Vec<DiffFilter> = Vec::new();
    let mut i: usize = 0;
    while i < patterns.len()
        invariant
            0 <= i <= patterns@.len(),
            filters@.len() == i,
            forall|j: int| 0 <= j < i ==> pattern_compiles(#[trigger] patterns@[j]@),
            forall|j: int| 0 <= j < i ==> (#[trigger] filters@[j]).pattern() == patterns@[j]@,
        decreases patterns@.len() - i,
    {
        match compile_filter(&patterns[i]) {
            Ok(f) => filters.push(f),
            Err(e) => return Err(e),
        }
        i = i + 1;
    }
    assert(patterns_of(filters@) =~= patterns@.map_values(|p: String| p@));
    Ok(filters)
}

/// Applies the filters, in order, to `diff`, each deleting all its matches.
pub fn apply_filters(filters: &Vec<DiffFilter>, diff: String) -> (r: String)
    ensures
        r@ == filtered(patterns_of(filters@), diff@),
        emptied_by_prefix(patterns_of(filters@), diff@) ==> r@.len() == 0,
{
    let ghost patterns = patterns_of(filters@);
    let mut acc = diff;
    let mut i: usize = 0;
    while i < filters.len()
        invariant
            0 <= i <= filters@.len(),
            patterns == patterns_of(filters@),
            acc@ == filtered(patterns.subrange(0, i as int), diff@),
            forall|k: int| 0 <= k <= i && #[trigger] filtered(patterns.subrange(0, k), diff@).len() == 0 ==> acc@.len() == 0,
        decreases filters@.len() - i,
    {
        let ghost before = acc@;
        acc = delete_matches(&filters[i], &acc);
        proof {
            let next = patterns.subrange(0, i + 1);
            assert(next.drop_last() =~= patterns.subrange(0, i as int));
            assert(next.last() == filters@[i as int].pattern());
        }
        i = i + 1;
    }
    assert(patterns.subrange(0, filters@.len() as int) =~= patterns);
    acc
}

/// What the filters leave of the difference description `raw`, or `None`
/// when they leave nothing.
pub fn filter_difference(filters: &Vec<DiffFilter>, raw: String) -> (r: Option<String>)
    ensures
        text_of(r) == filtered_outcome(patterns_of(filters@), raw@),
        emptied_by_prefix(patterns_of(filters@), raw@) ==> r is None,
{
    let left = apply_filters(filters, raw);
    if left.as_str().is_empty() {
        None
    } else {
        Some(left)
    }
}

/// Compares two responses strictly, then lets the filters delete the known
/// differences; `None` when the responses count as equivalent.
pub fn compare_with_filters(filters: &Vec<DiffFilter>, reference: &JsonValue, testing: &JsonValue) -> (r: Option<String>)
    ensures
        comparison_allows(patterns_of(filters@), *reference, *testing, text_of(r)),
        *reference == *testing ==> r is None,
        r is Some ==> strict_differs(*reference, *testing),
        filters@.len() == 0 ==> (r is Some <==> strict_differs(*reference, *testing)),
{
    match strict_json_diff(reference, testing) {
        None => None,
        Some(diff) => {
            let ghost raw = diff@;
            let r = filter_difference(filters, diff);
            assert(filtered_outcome(patterns_of(filters@), raw) == text_of(r));
            if filters.len() == 0 {
                assert(filtered(patterns_of(filters@), raw) == raw);
            }
            r
        },
    }
}

/// A difference that the filters delete entirely does not count: the pair is
/// treated as equivalent.
pub proof fn lemma_filtered_away_is_equivalent(patterns: Seq<Seq<char>>, raw: Seq<char>)
    requires
        filtered(patterns, raw).len() == 0,
    ensures
        filtered_outcome(patterns, raw) is None,
{
}

/// With no filters, the outcome is the difference description itself.
pub proof fn lemma_no_filters_keep_difference(raw: Seq<char>)
    requires
        raw.len() > 0,
    ensures
        filtered_outcome(Seq::empty(), raw) == Some(raw),
{
}

} // verus!
