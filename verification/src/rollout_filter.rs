//! Exact-match filters on rollout records.

use vstd::prelude::*;

use crate::sql::{equality_filter, equals_text, quoted};
use crate::text::{join3, opt_text, same_text, texts};

verus! {

/// A value in a filter document, as far as filters tell values apart.
#[derive(Debug, Clone, PartialEq)]
pub enum FilterValue {
    Text(String),
    Flag(bool),
    /// A number, a list, an object or null.
    Other,
}

/// A document that describes filters.
#[derive(Debug, Clone, PartialEq)]
pub enum FilterDocument {
    /// An object: its keys and values, in the order in which they are read.
    Fields(Vec<(String, FilterValue)>),
    /// Anything but an object.
    Other,
}

/// The model of a [`FilterValue`].
#[verifier::ext_equal]
pub enum FilterValueView {
    Text(Seq<char>),
    Flag(bool),
    Other,
}

impl View for FilterValue {
    type V = FilterValueView;

    open spec fn view(&self) -> FilterValueView {
        match self {
            FilterValue::Text(text) => FilterValueView::Text(text@),
            FilterValue::Flag(flag) => FilterValueView::Flag(*flag),
            FilterValue::Other => FilterValueView::Other,
        }
    }
}

/// The models of a document's fields.
pub open spec fn filter_fields(fields: Seq<(String, FilterValue)>) -> Seq<
    (Seq<char>, FilterValueView),
> {
    Seq::new(fields.len(), |i: int| (fields[i].0@, fields[i].1@))
}

/// Exact-match filters for rollout records.
#[derive(Debug, Clone, PartialEq)]
pub struct RolloutFilters {
    pub id: Option<String>,
    pub rollout_id: Option<String>,
    pub problem_id: Option<String>,
    pub dataset: Option<String>,
    pub role: Option<String>,
    pub content_type: Option<String>,
    pub policy_version: Option<String>,
    pub artifact_type: Option<String>,
    pub include_in_training: Option<bool>,
}

/// The model of [`RolloutFilters`].
#[verifier::ext_equal]
pub struct FiltersView {
    pub id: Option<Seq<char>>,
    pub rollout_id: Option<Seq<char>>,
    pub problem_id: Option<Seq<char>>,
    pub dataset: Option<Seq<char>>,
    pub role: Option<Seq<char>>,
    pub content_type: Option<Seq<char>>,
    pub policy_version: Option<Seq<char>>,
    pub artifact_type: Option<Seq<char>>,
    pub include_in_training: Option<bool>,
}

impl View for RolloutFilters {
    type V = FiltersView;

    open spec fn view(&self) -> FiltersView {
        FiltersView {
            id: opt_text(self.id),
            rollout_id: opt_text(self.rollout_id),
            problem_id: opt_text(self.problem_id),
            dataset: opt_text(self.dataset),
            role: opt_text(self.role),
            content_type: opt_text(self.content_type),
            policy_version: opt_text(self.policy_version),
            artifact_type: opt_text(self.artifact_type),
            include_in_training: self.include_in_training,
        }
    }
}

/// Filters that keep every record.
pub open spec fn no_filters() -> FiltersView {
    FiltersView {
        id: None,
        rollout_id: None,
        problem_id: None,
        dataset: None,
        role: None,
        content_type: None,
        policy_version: None,
        artifact_type: None,
        include_in_training: None,
    }
}

impl Default for RolloutFilters {
    fn default() -> (filters: Self)
        ensures
            filters@ == no_filters(),
    {
        RolloutFilters {
            id: None,
            rollout_id: None,
            problem_id: None,
            dataset: None,
            role: None,
            content_type: None,
            policy_version: None,
            artifact_type: None,
            include_in_training: None,
        }
    }
}

/// The filters with one more field of a document, or why it is refused. Only
/// six of the filters can be set from a document.
pub open spec fn with_field(filters: FiltersView, key: Seq<char>, value: FilterValueView) -> Result<
    FiltersView,
    Seq<char>,
> {
    if key == "include_in_training"@ {
        match value {
            FilterValueView::Flag(flag) => Ok(
                FiltersView { include_in_training: Some(flag), ..filters },
            ),
            _ => Err("rollout filter 'include_in_training' must be a boolean"@),
        }
    } else if key == "rollout_id"@ || key == "problem_id"@ || key == "policy_version"@ || key
        == "role"@ || key == "artifact_type"@ {
        match value {
            FilterValueView::Text(text) => Ok(
                if key == "rollout_id"@ {
                    FiltersView { rollout_id: Some(text), ..filters }
                } else if key == "problem_id"@ {
                    FiltersView { problem_id: Some(text), ..filters }
                } else if key == "policy_version"@ {
                    FiltersView { policy_version: Some(text), ..filters }
                } else if key == "role"@ {
                    FiltersView { role: Some(text), ..filters }
                } else {
                    FiltersView { artifact_type: Some(text), ..filters }
                },
            ),
            _ => Err("rollout filter '"@ + key + "' must be a string"@),
        }
    } else {
        Err("unsupported rollout filter '"@ + key + "'"@)
    }
}

/// The filters of the first `count` fields of a document, or why the first
/// refused one is refused.
pub open spec fn fields_read(fields: Seq<(Seq<char>, FilterValueView)>, count: nat) -> Result<
    FiltersView,
    Seq<char>,
>
    decreases count,
{
    if count == 0 {
        Ok(no_filters())
    } else {
        match fields_read(fields, (count - 1) as nat) {
            Err(message) => Err(message),
            Ok(filters) => with_field(filters, fields[count - 1].0, fields[count - 1].1),
        }
    }
}

/// The filters that a document describes.
pub open spec fn document_read(document: FilterDocument) -> Result<FiltersView, Seq<char>> {
    match document {
        FilterDocument::Fields(fields) => fields_read(filter_fields(fields@), fields@.len()),
        FilterDocument::Other => Err("rollout filters must be a JSON object"@),
    }
}

proof fn lemma_refusal_stays(fields: Seq<(Seq<char>, FilterValueView)>, count: nat, more: nat)
    requires
        count <= more,
        fields_read(fields, count) is Err,
    ensures
        fields_read(fields, more) == fields_read(fields, count),
    decreases more,
{
    if count < more {
        lemma_refusal_stays(fields, count, (more - 1) as nat);
    }
}

/// A clause for a text filter that is set to something.
pub open spec fn text_clause(column: Seq<char>, value: Option<Seq<char>>) -> Seq<Seq<char>> {
    match value {
        Some(text) => if text.len() > 0 {
            seq![equals_text(column, text)]
        } else {
            Seq::empty()
        },
        None => Seq::empty(),
    }
}

/// A clause for the training flag where it is set.
pub open spec fn flag_clause(value: Option<bool>) -> Seq<Seq<char>> {
    match value {
        Some(true) => seq!["include_in_training = true"@],
        Some(false) => seq!["include_in_training = false"@],
        None => Seq::empty(),
    }
}

/// The clauses of filters, in a fixed order.
pub open spec fn filter_clauses(filters: FiltersView) -> Seq<Seq<char>> {
    text_clause("id"@, filters.id) + text_clause("rollout_id"@, filters.rollout_id) + text_clause(
        "problem_id"@,
        filters.problem_id,
    ) + text_clause("dataset"@, filters.dataset) + text_clause("role"@, filters.role) + text_clause(
        "content_type"@,
        filters.content_type,
    ) + text_clause("policy_version"@, filters.policy_version) + text_clause(
        "artifact_type"@,
        filters.artifact_type,
    ) + flag_clause(filters.include_in_training)
}

/// Texts with a separator between them.
pub open spec fn joined(parts: Seq<Seq<char>>, separator: Seq<char>) -> Seq<char>
    decreases parts.len(),
{
    if parts.len() == 0 {
        Seq::empty()
    } else if parts.len() == 1 {
        parts[0]
    } else {
        joined(parts.drop_last(), separator) + separator + parts.last()
    }
}

/// Joins texts with a separator between them.
pub fn join_texts(parts: &Vec<String>, separator: &str) -> (result: String)
    ensures
        result@ == joined(texts(parts@), separator@),
{
    let ghost all = texts(parts@);
    let mut result = String::new();
    let mut index: usize = 0;
    assert(all.take(0) =~= Seq::<Seq<char>>::empty());
    while index < parts.len()
        invariant
            index <= parts.len(),
            all == texts(parts@),
            result@ == joined(all.take(index as int), separator@),
        decreases parts.len() - index,
    {
        proof {
            assert(all.take(index + 1).drop_last() =~= all.take(index as int));
            assert(all.take(index + 1).last() == parts@[index as int]@);
        }
        if index > 0 {
            result.append(separator);
        }
        result.append(parts[index].as_str());
        index = index + 1;
        assert(result@ =~= joined(all.take(index as int), separator@));
    }
    assert(all.take(all.len() as int) =~= all);
    result
}

fn add_clause(clauses: &mut Vec<String>, column: &str, value: &Option<String>)
    ensures
        texts(final(clauses)@) == texts(old(clauses)@) + text_clause(column@, opt_text(*value)),
{
    let ghost before = clauses@;
    match value {
        Some(text) => {
            if !text.as_str().is_empty() {
                clauses.push(equality_filter(column, text.as_str()));
            }
        },
        None => {},
    }
    assert(texts(clauses@) =~= texts(before) + text_clause(column@, opt_text(*value)));
}

impl RolloutFilters {
    /// Reads filters from a document. A key that is no filter, and a value of
    /// the wrong type, are errors; the first one is reported.
    pub fn from_json_value(document: FilterDocument) -> (result: Result<RolloutFilters, String>)
        ensures
            match document_read(document) {
                Ok(filters) => result is Ok && result->Ok_0@ == filters,
                Err(message) => result is Err && result->Err_0@ == message,
            },
    {
        let fields = match document {
            FilterDocument::Fields(fields) => fields,
            FilterDocument::Other => {
                return Err("rollout filters must be a JSON object".to_owned());
            },
        };
        let ghost all = filter_fields(fields@);
        let mut filters = RolloutFilters::default();
        let mut index: usize = 0;
        while index < fields.len()
            invariant
                index <= fields.len(),
                all == filter_fields(fields@),
                document_read(document) == fields_read(all, all.len()),
                fields_read(all, index as nat) == Ok::<FiltersView, Seq<char>>(filters@),
            decreases fields.len() - index,
        {
            let key = fields[index].0.as_str();
            assert(all[index as int] == (key@, fields@[index as int].1@));
            match filters.set_field(key, &fields[index].1) {
                Ok(_) => {},
                Err(message) => {
                    proof {
                        lemma_refusal_stays(all, (index + 1) as nat, all.len());
                    }
                    return Err(message);
                },
            }
            index = index + 1;
        }
        Ok(filters)
    }

    fn set_field(&mut self, key: &str, value: &FilterValue) -> (result: Result<(), String>)
        ensures
            match with_field(old(self)@, key@, value@) {
                Ok(filters) => result is Ok && final(self)@ == filters,
                Err(message) => result is Err && result->Err_0@ == message,
            },
    {
        if same_text(key, "include_in_training") {
            return match value {
                FilterValue::Flag(flag) => {
                    self.include_in_training = Some(*flag);
                    Ok(())
                },
                _ => Err("rollout filter 'include_in_training' must be a boolean".to_owned()),
            };
        }
        let rollout = same_text(key, "rollout_id");
        let problem = same_text(key, "problem_id");
        let policy = same_text(key, "policy_version");
        let role = same_text(key, "role");
        let artifact = same_text(key, "artifact_type");
        if !(rollout || problem || policy || role || artifact) {
            return Err(join3("unsupported rollout filter '", key, "'"));
        }
        match value {
            FilterValue::Text(text) => {
                let wanted = Some(text.clone());
                if rollout {
                    self.rollout_id = wanted;
                } else if problem {
                    self.problem_id = wanted;
                } else if policy {
                    self.policy_version = wanted;
                } else if role {
                    self.role = wanted;
                } else {
                    self.artifact_type = wanted;
                }
                Ok(())
            },
            _ => Err(join3("rollout filter '", key, "' must be a string")),
        }
    }

    /// The filter handed to a table scan, if any filter is set. A text filter
    /// that is set to the empty text counts as not set.
    pub fn expression(&self) -> (result: Option<String>)
        ensures
            opt_text(result) == if filter_clauses(self@).len() == 0 {
                None
            } else {
                Some(joined(filter_clauses(self@), " AND "@))
            },
    {
        let mut clauses: Vec<String> = Vec::new();
        assert(texts(clauses@) =~= Seq::<Seq<char>>::empty());
        add_clause(&mut clauses, "id", &self.id);
        add_clause(&mut clauses, "rollout_id", &self.rollout_id);
        add_clause(&mut clauses, "problem_id", &self.problem_id);
        add_clause(&mut clauses, "dataset", &self.dataset);
        add_clause(&mut clauses, "role", &self.role);
        add_clause(&mut clauses, "content_type", &self.content_type);
        add_clause(&mut clauses, "policy_version", &self.policy_version);
        add_clause(&mut clauses, "artifact_type", &self.artifact_type);
        let ghost before = clauses@;
        match self.include_in_training {
            Some(true) => {
                clauses.push("include_in_training = true".to_owned());
            },
            Some(false) => {
                clauses.push("include_in_training = false".to_owned());
            },
            None => {},
        }
        proof {
            assert(texts(clauses@) =~= texts(before) + flag_clause(self.include_in_training));
            assert(texts(clauses@) =~= filter_clauses(self@));
        }
        if clauses.len() == 0 {
            None
        } else {
            Some(join_texts(&clauses, " AND "))
        }
    }
}

/// Filters that say nothing ask the scan for everything, and filters that say
/// something, a text that is not empty or the training flag, always hand the
/// scan a filter.
pub proof fn law_filters_are_never_dropped(filters: FiltersView)
    ensures
        filter_clauses(no_filters()).len() == 0,
        (filters.id is Some && filters.id->Some_0.len() > 0) || (filters.rollout_id is Some
            && filters.rollout_id->Some_0.len() > 0) || (filters.problem_id is Some
            && filters.problem_id->Some_0.len() > 0) || (filters.dataset is Some
            && filters.dataset->Some_0.len() > 0) || (filters.role is Some
            && filters.role->Some_0.len() > 0) || (filters.content_type is Some
            && filters.content_type->Some_0.len() > 0) || (filters.policy_version is Some
            && filters.policy_version->Some_0.len() > 0) || (filters.artifact_type is Some
            && filters.artifact_type->Some_0.len() > 0) || filters.include_in_training is Some
            <==> filter_clauses(filters).len() > 0,
{
}

/// A filter on a text is set where it has one that is not empty.
pub open spec fn is_set(value: Option<Seq<char>>) -> bool {
    value is Some && value->Some_0.len() > 0
}

/// One for a filter that is set, none for one that is not.
pub open spec fn one_if(set: bool) -> nat {
    if set {
        1
    } else {
        0
    }
}

/// A query asks for each filter that is set, on the filter's own column and with
/// its value, and for nothing else.
pub proof fn law_a_query_asks_for_each_filter(filters: FiltersView)
    ensures
        is_set(filters.id) ==> filter_clauses(filters).contains(
            "id"@ + " = "@ + quoted(filters.id->Some_0),
        ),
        is_set(filters.rollout_id) ==> filter_clauses(filters).contains(
            "rollout_id"@ + " = "@ + quoted(filters.rollout_id->Some_0),
        ),
        is_set(filters.problem_id) ==> filter_clauses(filters).contains(
            "problem_id"@ + " = "@ + quoted(filters.problem_id->Some_0),
        ),
        is_set(filters.dataset) ==> filter_clauses(filters).contains(
            "dataset"@ + " = "@ + quoted(filters.dataset->Some_0),
        ),
        is_set(filters.role) ==> filter_clauses(filters).contains(
            "role"@ + " = "@ + quoted(filters.role->Some_0),
        ),
        is_set(filters.content_type) ==> filter_clauses(filters).contains(
            "content_type"@ + " = "@ + quoted(filters.content_type->Some_0),
        ),
        is_set(filters.policy_version) ==> filter_clauses(filters).contains(
            "policy_version"@ + " = "@ + quoted(filters.policy_version->Some_0),
        ),
        is_set(filters.artifact_type) ==> filter_clauses(filters).contains(
            "artifact_type"@ + " = "@ + quoted(filters.artifact_type->Some_0),
        ),
        filters.include_in_training == Some(true) ==> filter_clauses(filters).contains(
            "include_in_training = true"@,
        ),
        filters.include_in_training == Some(false) ==> filter_clauses(filters).contains(
            "include_in_training = false"@,
        ),
        filter_clauses(filters).len() == one_if(is_set(filters.id)) + one_if(
            is_set(filters.rollout_id),
        ) + one_if(is_set(filters.problem_id)) + one_if(is_set(filters.dataset)) + one_if(
            is_set(filters.role),
        ) + one_if(is_set(filters.content_type)) + one_if(is_set(filters.policy_version)) + one_if(
            is_set(filters.artifact_type),
        ) + one_if(filters.include_in_training is Some),
{
    let a = text_clause("id"@, filters.id);
    let b = text_clause("rollout_id"@, filters.rollout_id);
    let c = text_clause("problem_id"@, filters.problem_id);
    let d = text_clause("dataset"@, filters.dataset);
    let e = text_clause("role"@, filters.role);
    let f = text_clause("content_type"@, filters.content_type);
    let g = text_clause("policy_version"@, filters.policy_version);
    let h = text_clause("artifact_type"@, filters.artifact_type);
    let i = flag_clause(filters.include_in_training);
    lemma_text_clause("id"@, filters.id);
    lemma_text_clause("rollout_id"@, filters.rollout_id);
    lemma_text_clause("problem_id"@, filters.problem_id);
    lemma_text_clause("dataset"@, filters.dataset);
    lemma_text_clause("role"@, filters.role);
    lemma_text_clause("content_type"@, filters.content_type);
    lemma_text_clause("policy_version"@, filters.policy_version);
    lemma_text_clause("artifact_type"@, filters.artifact_type);
    lemma_flag_clause(filters.include_in_training);
    lemma_both_parts_stay(a, b);
    lemma_both_parts_stay(a + b, c);
    lemma_both_parts_stay(a + b + c, d);
    lemma_both_parts_stay(a + b + c + d, e);
    lemma_both_parts_stay(a + b + c + d + e, f);
    lemma_both_parts_stay(a + b + c + d + e + f, g);
    lemma_both_parts_stay(a + b + c + d + e + f + g, h);
    lemma_both_parts_stay(a + b + c + d + e + f + g + h, i);
}

proof fn lemma_text_clause(column: Seq<char>, value: Option<Seq<char>>)
    ensures
        text_clause(column, value).len() == one_if(is_set(value)),
        is_set(value) ==> text_clause(column, value).contains(
            column + " = "@ + quoted(value->Some_0),
        ),
{
    if is_set(value) {
        assert(text_clause(column, value)[0] == column + " = "@ + quoted(value->Some_0));
    }
}

proof fn lemma_flag_clause(value: Option<bool>)
    ensures
        flag_clause(value).len() == one_if(value is Some),
        value == Some(true) ==> flag_clause(value).contains("include_in_training = true"@),
        value == Some(false) ==> flag_clause(value).contains("include_in_training = false"@),
{
    if value is Some {
        assert(flag_clause(value)[0] == flag_clause(value)[0]);
    }
}

proof fn lemma_both_parts_stay(left: Seq<Seq<char>>, right: Seq<Seq<char>>)
    ensures
        (left + right).len() == left.len() + right.len(),
        forall|clause: Seq<char>| #[trigger]
            left.contains(clause) ==> (left + right).contains(clause),
        forall|clause: Seq<char>| #[trigger]
            right.contains(clause) ==> (left + right).contains(clause),
{
    assert forall|clause: Seq<char>| #[trigger] left.contains(clause) implies (left
        + right).contains(clause) by {
        let at = left.index_of(clause);
        assert((left + right)[at] == clause);
    }
    assert forall|clause: Seq<char>| #[trigger] right.contains(clause) implies (left
        + right).contains(clause) by {
        let at = right.index_of(clause);
        assert((left + right)[left.len() + at] == clause);
    }
}

/// Parts are joined in their order, with the separator between each two.
pub proof fn law_joined_parts_stand_in_order(
    parts: Seq<Seq<char>>,
    next: Seq<char>,
    separator: Seq<char>,
)
    ensures
        joined(Seq::empty(), separator) == Seq::<char>::empty(),
        joined(seq![next], separator) == next,
        parts.len() > 0 ==> joined(parts.push(next), separator) == joined(parts, separator)
            + separator + next,
{
    assert(parts.push(next).drop_last() =~= parts);
}

/// A field of a filter document sets the filter of its name to its value and no
/// other. A text filter takes a text only and the flag takes a flag only, and a
/// field of any other name is refused.
pub proof fn law_a_field_sets_its_own_filter(
    filters: FiltersView,
    key: Seq<char>,
    value: FilterValueView,
)
    ensures
        key == "include_in_training"@ ==> (with_field(filters, key, value) is Ok <==> value is Flag)
            && (value matches FilterValueView::Flag(flag) ==> with_field(filters, key, value)->Ok_0
            == (FiltersView { include_in_training: Some(flag), ..filters })),
        key == "rollout_id"@ ==> (with_field(filters, key, value) is Ok <==> value is Text) && (
        value matches FilterValueView::Text(text) ==> with_field(filters, key, value)->Ok_0 == (
        FiltersView { rollout_id: Some(text), ..filters })),
        key == "problem_id"@ ==> (with_field(filters, key, value) is Ok <==> value is Text) && (
        value matches FilterValueView::Text(text) ==> with_field(filters, key, value)->Ok_0 == (
        FiltersView { problem_id: Some(text), ..filters })),
        key == "policy_version"@ ==> (with_field(filters, key, value) is Ok <==> value is Text) && (
        value matches FilterValueView::Text(text) ==> with_field(filters, key, value)->Ok_0 == (
        FiltersView { policy_version: Some(text), ..filters })),
        key == "role"@ ==> (with_field(filters, key, value) is Ok <==> value is Text) && (
        value matches FilterValueView::Text(text) ==> with_field(filters, key, value)->Ok_0 == (
        FiltersView { role: Some(text), ..filters })),
        key == "artifact_type"@ ==> (with_field(filters, key, value) is Ok <==> value is Text) && (
        value matches FilterValueView::Text(text) ==> with_field(filters, key, value)->Ok_0 == (
        FiltersView { artifact_type: Some(text), ..filters })),
        key != "include_in_training"@ && key != "rollout_id"@ && key != "problem_id"@ && key
            != "policy_version"@ && key != "role"@ && key != "artifact_type"@ ==> with_field(
            filters,
            key,
            value,
        ) is Err,
{
    reveal_strlit("include_in_training");
    reveal_strlit("rollout_id");
    reveal_strlit("problem_id");
    reveal_strlit("policy_version");
    reveal_strlit("role");
    reveal_strlit("artifact_type");
    assert("include_in_training"@.len() == 19 && "rollout_id"@.len() == 10 && "problem_id"@.len()
        == 10 && "policy_version"@.len() == 14 && "role"@.len() == 4
            && "artifact_type"@.len() == 13);
    assert("rollout_id"@[0] == 'r' && "problem_id"@[0] == 'p');
}

/// The model of a filter value holds its variant and what it carries.
pub proof fn law_a_filter_values_model_is_whole(value: FilterValue)
    ensures
        value matches FilterValue::Text(text) ==> value@ == FilterValueView::Text(text@),
        value matches FilterValue::Flag(flag) ==> value@ == FilterValueView::Flag(flag),
        value == FilterValue::Other ==> value@ == FilterValueView::Other,
{
}

/// The model of a set of filters holds each of its parts.
pub proof fn law_the_filters_model_is_whole(filters: RolloutFilters)
    ensures
        filters@.id is Some <==> filters.id is Some,
        filters.id is Some ==> filters@.id->Some_0 == filters.id->Some_0@,
        filters@.rollout_id is Some <==> filters.rollout_id is Some,
        filters.rollout_id is Some ==> filters@.rollout_id->Some_0 == filters.rollout_id->Some_0@,
        filters@.problem_id is Some <==> filters.problem_id is Some,
        filters.problem_id is Some ==> filters@.problem_id->Some_0 == filters.problem_id->Some_0@,
        filters@.dataset is Some <==> filters.dataset is Some,
        filters.dataset is Some ==> filters@.dataset->Some_0 == filters.dataset->Some_0@,
        filters@.role is Some <==> filters.role is Some,
        filters.role is Some ==> filters@.role->Some_0 == filters.role->Some_0@,
        filters@.content_type is Some <==> filters.content_type is Some,
        filters.content_type is Some
            ==> filters@.content_type->Some_0 == filters.content_type->Some_0@,
        filters@.policy_version is Some <==> filters.policy_version is Some,
        filters.policy_version is Some
            ==> filters@.policy_version->Some_0 == filters.policy_version->Some_0@,
        filters@.artifact_type is Some <==> filters.artifact_type is Some,
        filters.artifact_type is Some
            ==> filters@.artifact_type->Some_0 == filters.artifact_type->Some_0@,
        filters@.include_in_training == filters.include_in_training,
{
}

/// A filter document sets each filter that it names to the value it names last,
/// and leaves every other one unset.
pub proof fn law_a_document_sets_what_it_names(
    fields: Seq<(Seq<char>, FilterValueView)>,
    count: nat,
    at: int,
    key: Seq<char>,
)
    requires
        fields_read(fields, count) is Ok,
        count <= fields.len(),
    ensures
        ({
            let filters = fields_read(fields, count)->Ok_0;
            let named = 0 <= at < count && fields[at].0 == key && forall|j: int|
                at < j < count ==> (#[trigger] fields[j]).0 != key;
            let absent = forall|j: int| 0 <= j < count ==> (#[trigger] fields[j]).0 != key;
            let text = fields[at].1;
            &&& filters.id is None && filters.dataset is None && filters.content_type is None
            &&& named && key == "rollout_id"@ ==> text == FilterValueView::Text(
                filters.rollout_id->Some_0,
            ) && filters.rollout_id is Some
            &&& named && key == "problem_id"@ ==> text == FilterValueView::Text(
                filters.problem_id->Some_0,
            ) && filters.problem_id is Some
            &&& named && key == "policy_version"@ ==> text == FilterValueView::Text(
                filters.policy_version->Some_0,
            ) && filters.policy_version is Some
            &&& named && key == "role"@ ==> text == FilterValueView::Text(filters.role->Some_0)
                && filters.role is Some
            &&& named && key == "artifact_type"@ ==> text == FilterValueView::Text(
                filters.artifact_type->Some_0,
            ) && filters.artifact_type is Some
            &&& named && key == "include_in_training"@ ==> text == FilterValueView::Flag(
                filters.include_in_training->Some_0,
            ) && filters.include_in_training is Some
            &&& absent && key == "rollout_id"@ ==> filters.rollout_id is None
            &&& absent && key == "problem_id"@ ==> filters.problem_id is None
            &&& absent && key == "policy_version"@ ==> filters.policy_version is None
            &&& absent && key == "role"@ ==> filters.role is None
            &&& absent && key == "artifact_type"@ ==> filters.artifact_type is None
            &&& absent && key == "include_in_training"@ ==> filters.include_in_training is None
        }),
    decreases count,
{
    if count > 0 {
        let last = (count - 1) as nat;
        law_a_document_sets_what_it_names(fields, last, at, key);
        let before = fields_read(fields, last)->Ok_0;
        law_a_field_sets_its_own_filter(before, fields[last as int].0, fields[last as int].1);
        reveal_strlit("include_in_training");
        reveal_strlit("rollout_id");
        reveal_strlit("problem_id");
        reveal_strlit("policy_version");
        reveal_strlit("role");
        reveal_strlit("artifact_type");
        assert("include_in_training"@.len() == 19 && "rollout_id"@.len() == 10
            && "problem_id"@.len() == 10 && "policy_version"@.len() == 14 && "role"@.len() == 4
            && "artifact_type"@.len() == 13);
        assert("rollout_id"@[0] == 'r' && "problem_id"@[0] == 'p');
        assert(fields[last as int].0 == fields[last as int].0);
    }
}

/// Only a document with fields describes filters.
pub proof fn law_only_fields_describe_filters(document: FilterDocument)
    ensures
        document is Other ==> document_read(document) is Err,
        document matches FilterDocument::Fields(fields) ==> document_read(document) == fields_read(
            filter_fields(fields@),
            fields@.len(),
        ) && filter_fields(fields@).len() == fields@.len(),
        document matches FilterDocument::Fields(fields) ==> forall|i: int|
            0 <= i < fields@.len() ==> (#[trigger] filter_fields(fields@)[i]).0 == fields@[i].0@
                && filter_fields(fields@)[i].1 == fields@[i].1@,
{
}

} // verus!
