//! The distance metric a context ranks vector search results with.

use vstd::prelude::*;

use crate::error::{invalid_argument, Failure, StoreError};
use crate::text::{join3, push_char, same_text};

verus! {

/// Distance metric used to rank candidates during vector search.
///
/// Under every metric a smaller value means a closer match.
#[derive(Debug, Clone, Copy, PartialEq, Eq, Structural)]
pub enum DistanceMetric {
    /// Euclidean (L2) distance.
    L2,
    /// Cosine distance (`1 - cosine_similarity`).
    Cosine,
    /// Negated dot product (maximum inner product search).
    Dot,
}

impl Default for DistanceMetric {
    fn default() -> (metric: Self)
        ensures
            metric == DistanceMetric::L2,
    {
        DistanceMetric::L2
    }
}

/// The lower-case form of an ASCII letter; any other character as it is.
pub open spec fn lower_char(character: char) -> char {
    if 'A' <= character && character <= 'Z' {
        ((character as u32) + 32) as char
    } else {
        character
    }
}

/// `text` with its ASCII letters in lower case.
pub open spec fn lower_text(text: Seq<char>) -> Seq<char> {
    Seq::new(text.len(), |i: int| lower_char(text[i]))
}

/// The metric that a lower-case identifier stands for.
pub open spec fn metric_of(identifier: Seq<char>) -> Option<DistanceMetric> {
    if identifier == "l2"@ || identifier == "euclidean"@ {
        Some(DistanceMetric::L2)
    } else if identifier == "cosine"@ {
        Some(DistanceMetric::Cosine)
    } else if identifier == "dot"@ || identifier == "dot_product"@ {
        Some(DistanceMetric::Dot)
    } else {
        None
    }
}

/// The identifier a metric is persisted under.
pub open spec fn metric_name(metric: DistanceMetric) -> Seq<char> {
    match metric {
        DistanceMetric::L2 => "l2"@,
        DistanceMetric::Cosine => "cosine"@,
        DistanceMetric::Dot => "dot"@,
    }
}

/// The metric `value` names in any mix of cases, or the failure to report.
pub open spec fn parsed_metric(value: Seq<char>) -> Result<DistanceMetric, Failure> {
    match metric_of(lower_text(value)) {
        Some(metric) => Ok(metric),
        None => Err(
            invalid_argument(
                "invalid distance metric '"@ + lower_text(value)
                    + "': valid values are 'l2', 'cosine', 'dot'"@,
            ),
        ),
    }
}

fn ascii_lower(character: char) -> (result: char)
    ensures
        result == lower_char(character),
{
    if 'A' <= character && character <= 'Z' {
        let code: u8 = character as u8;
        let lowered: u8 = code + 32;
        let result: char = lowered as char;
        result
    } else {
        character
    }
}

fn ascii_lowercase(value: &str) -> (result: String)
    ensures
        result@ == lower_text(value@),
{
    let mut result = String::new();
    let ghost whole = value@;
    for character in it: value.chars()
        invariant
            it.seq() == whole,
            result@ == lower_text(whole).take(it.index() as int),
    {
        let lowered = ascii_lower(character);
        push_char(&mut result, lowered);
        assert(result@ =~= lower_text(whole).take(it.index() as int + 1));
    }
    assert(lower_text(whole).take(whole.len() as int) =~= lower_text(whole));
    result
}

impl DistanceMetric {
    /// Reads a metric from its identifier (`"l2"`, `"cosine"`, `"dot"`, or the
    /// aliases `"euclidean"` and `"dot_product"`), in any mix of cases.
    pub fn parse(value: &str) -> (result: Result<DistanceMetric, StoreError>)
        ensures
            match parsed_metric(value@) {
                Ok(metric) => result is Ok && result->Ok_0 == metric,
                Err(failure) => result is Err && result->Err_0@ == failure,
            },
    {
        let lowered = ascii_lowercase(value);
        let name = lowered.as_str();
        if same_text(name, "l2") || same_text(name, "euclidean") {
            Ok(DistanceMetric::L2)
        } else if same_text(name, "cosine") {
            Ok(DistanceMetric::Cosine)
        } else if same_text(name, "dot") || same_text(name, "dot_product") {
            Ok(DistanceMetric::Dot)
        } else {
            Err(
                StoreError::invalid_argument(
                    join3(
                        "invalid distance metric '",
                        name,
                        "': valid values are 'l2', 'cosine', 'dot'",
                    ),
                ),
            )
        }
    }

    /// Stable identifier of this metric, used when persisting it.
    pub fn as_str(self) -> (name: &'static str)
        ensures
            name@ == metric_name(self),
    {
        match self {
            DistanceMetric::L2 => "l2",
            DistanceMetric::Cosine => "cosine",
            DistanceMetric::Dot => "dot",
        }
    }
}

proof fn lemma_lower_is_identity(text: Seq<char>)
    requires
        forall|i: int| 0 <= i < text.len() ==> !('A' <= #[trigger] text[i] && text[i] <= 'Z'),
    ensures
        lower_text(text) == text,
{
    assert(lower_text(text) =~= text);
}

/// A metric read back from the identifier it is persisted under is that
/// metric.
pub proof fn law_metric_name_parses_back(metric: DistanceMetric)
    ensures
        parsed_metric(metric_name(metric)) == Ok::<DistanceMetric, Failure>(metric),
{
    reveal_strlit("l2");
    reveal_strlit("cosine");
    reveal_strlit("dot");
    reveal_strlit("euclidean");
    reveal_strlit("dot_product");
    lemma_lower_is_identity(metric_name(metric));
    assert("l2"@.len() == 2 && "cosine"@.len() == 6 && "dot"@.len() == 3);
    assert("euclidean"@.len() == 9 && "dot_product"@.len() == 11);
}

/// Whether an identifier is accepted, and as which metric, does not depend on
/// the case it is written in.
pub proof fn law_parse_ignores_case(left: Seq<char>, right: Seq<char>)
    requires
        lower_text(left) == lower_text(right),
    ensures
        parsed_metric(left) == parsed_metric(right),
{
}

/// Which words name a metric, in lower case: `l2` and `euclidean`, `cosine`, and
/// `dot` and `dot_product`. Any other word is refused.
pub proof fn law_which_words_name_a_metric(value: Seq<char>)
    ensures
        lower_text(value) == "l2"@ || lower_text(value) == "euclidean"@ <==> parsed_metric(value)
            == Ok::<DistanceMetric, Failure>(DistanceMetric::L2),
        lower_text(value) == "cosine"@ <==> parsed_metric(value) == Ok::<DistanceMetric, Failure>(
            DistanceMetric::Cosine,
        ),
        lower_text(value) == "dot"@ || lower_text(value) == "dot_product"@ <==> parsed_metric(value)
            == Ok::<DistanceMetric, Failure>(DistanceMetric::Dot),
        metric_name(DistanceMetric::L2) == "l2"@,
        metric_name(DistanceMetric::Cosine) == "cosine"@,
        metric_name(DistanceMetric::Dot) == "dot"@,
{
    reveal_strlit("l2");
    reveal_strlit("euclidean");
    reveal_strlit("cosine");
    reveal_strlit("dot");
    reveal_strlit("dot_product");
    assert("l2"@.len() == 2 && "euclidean"@.len() == 9 && "cosine"@.len() == 6 && "dot"@.len() == 3
        && "dot_product"@.len() == 11);
}

/// Lower case changes the capital letters of ASCII to the small ones, and nothing
/// else.
pub proof fn law_lower_case_changes_capitals_only(text: Seq<char>)
    ensures
        lower_text(text).len() == text.len(),
        forall|i: int|
            0 <= i < text.len() && 'A' <= text[i] <= 'Z' ==> (#[trigger] lower_text(text)[i]) as u32
                == text[i] as u32 + 32,
        forall|i: int|
            0 <= i < text.len() && !('A' <= text[i] <= 'Z') ==> #[trigger] lower_text(text)[i]
                == text[i],
{
}

/// A metric is written by one name.
pub proof fn law_a_metric_has_one_name(metric: DistanceMetric)
    ensures
        metric_name(metric) == "l2"@ <==> metric == DistanceMetric::L2,
        metric_name(metric) == "cosine"@ <==> metric == DistanceMetric::Cosine,
        metric_name(metric) == "dot"@ <==> metric == DistanceMetric::Dot,
{
    reveal_strlit("l2");
    reveal_strlit("cosine");
    reveal_strlit("dot");
    assert("l2"@.len() == 2 && "cosine"@.len() == 6 && "dot"@.len() == 3);
}

} // verus!
