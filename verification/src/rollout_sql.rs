//! Read-only SQL over the records of a rollout store.

use vstd::prelude::*;

use crate::error::{arrow_failure, invalid_argument, invalid_query, Failure, StoreError};
use crate::number::{decimal, decimal_usize, law_decimals_differ};
use crate::order::chars_of;
use crate::outside::{
    all_written, answer_length, answer_nulls, answer_types, begins_statement, can_be_parsed,
    can_be_written, column_types, flushes, holds_statements, json_list_of, json_rows, may_be_name,
    meaningful, names_relay_channel, null_counts, null_dictionary, one_query, parse_json_rows,
    parse_sql, parseable, row_count, row_entries, sets_authorization, sql_statements, sql_tokens,
    token_views, tokenize_sql, unquoted, unquoted_from, write_json_list, AnswerBatch,
};
use crate::schema::{
    entries, field_views, metadata_value, push_field, value_of, Entry, Field,
    FieldView, Schema, SchemaView,
};
use crate::storage::contains_pattern;
use crate::text::{join2, join3, opt_text, push_char, same_text, texts};

verus! {

/// The table name that a query finds the records under.
pub const SQL_TABLE_NAME: &'static str = "records";

/// How many rows are read into the queried table at most.
pub const SQL_MAX_SCAN_ROWS: usize = 200_000;

/// How many rows a query gives back at most.
pub const SQL_MAX_RESULT_ROWS: usize = 10_000;

/// Why a text is refused as a query, given what the parser made of it: for
/// each statement, whether it is a query.
pub open spec fn query_failure(statements: Result<Seq<bool>, Seq<char>>) -> Option<Failure> {
    match statements {
        Err(message) => Some(invalid_query("could not parse SQL: "@ + message)),
        Ok(kinds) => if kinds.len() != 1 {
            Some(invalid_query("exactly one SQL statement is allowed"@))
        } else if !kinds[0] {
            Some(invalid_query("only read-only SELECT queries are allowed"@))
        } else {
            None
        },
    }
}

/// The views of a parser's answer.
pub open spec fn parsed(statements: Result<Vec<bool>, String>) -> Result<Seq<bool>, Seq<char>> {
    match statements {
        Ok(kinds) => Ok(kinds@),
        Err(message) => Err(message@),
    }
}

/// Checks what the parser made of a text: it must be one query and nothing
/// else.
pub fn check_statements(statements: Result<Vec<bool>, String>) -> (result: Result<(), StoreError>)
    ensures
        crate::error::check_failure(result) == query_failure(parsed(statements)),
{
    match statements {
        Err(message) => Err(
            StoreError::invalid_input(join2("could not parse SQL: ", message.as_str())),
        ),
        Ok(kinds) => if kinds.len() != 1 {
            Err(StoreError::invalid_input("exactly one SQL statement is allowed".to_owned()))
        } else if !kinds[0] {
            Err(StoreError::invalid_input("only read-only SELECT queries are allowed".to_owned()))
        } else {
            Ok(())
        },
    }
}

fn without_blanks(tokens: &Vec<Option<String>>) -> (result: Vec<String>)
    ensures
        texts(result@) == meaningful(token_views(tokens@)),
{
    let ghost all = token_views(tokens@);
    let mut result: Vec<String> = Vec::new();
    let mut index: usize = 0;
    assert(all.take(0) =~= Seq::<Option<Seq<char>>>::empty());
    assert(texts(result@) =~= Seq::<Seq<char>>::empty());
    while index < tokens.len()
        invariant
            index <= tokens.len(),
            all == token_views(tokens@),
            texts(result@) == meaningful(all.take(index as int)),
        decreases tokens.len() - index,
    {
        let ghost before = result@;
        proof {
            assert(all.take(index + 1).drop_last() =~= all.take(index as int));
            assert(all.take(index + 1).last() == opt_text(tokens@[index as int]));
        }
        match &tokens[index] {
            Some(token) => {
                result.push(token.clone());
                assert(texts(result@) =~= texts(before).push(token@));
            },
            None => {},
        }
        index = index + 1;
    }
    assert(all.take(all.len() as int) =~= all);
    result
}

fn is_one_query(tokens: &Vec<String>) -> (result: bool)
    ensures
        result == one_query(texts(tokens@)),
{
    let ghost all = texts(tokens@);
    if tokens.len() == 0 {
        return false;
    }
    assert(all[0] == tokens@[0]@);
    let first = tokens[0].as_str();
    let starts = same_text(first, "SELECT") || same_text(first, "WITH") || same_text(
        first,
        "VALUES",
    ) || same_text(first, "FROM") || same_text(first, "(");
    if !starts {
        return false;
    }
    let mut index: usize = 0;
    while index + 1 < tokens.len()
        invariant
            tokens.len() > 0,
            index + 1 <= tokens.len(),
            all == texts(tokens@),
            forall|i: int|
                0 <= i < index && #[trigger] all[i] == ";"@ ==> all[i + 1] == ";"@,
        decreases tokens.len() - index,
    {
        assert(all[index as int] == tokens@[index as int]@);
        assert(all[index + 1] == tokens@[index + 1]@);
        if same_text(tokens[index].as_str(), ";") && !same_text(tokens[index + 1].as_str(), ";") {
            return false;
        }
        index = index + 1;
    }
    true
}

fn can_hold_statements(token: &str) -> (result: bool)
    ensures
        result == holds_statements(token@),
{
    same_text(token, "EXPLAIN") || same_text(token, "DESC") || same_text(token, "DESCRIBE")
        || same_text(token, "BEGIN") || same_text(token, "IF") || same_text(token, "CASE")
        || same_text(token, "WHILE") || same_text(token, "PREPARE") || same_text(token, "CREATE")
}

fn is_statement_start(tokens: &Vec<String>, at: usize) -> (result: bool)
    requires
        at < tokens@.len(),
    ensures
        result == begins_statement(texts(tokens@), at as int),
{
    let ghost all = texts(tokens@);
    if at == 0 {
        return true;
    }
    assert(all[at - 1] == tokens@[at - 1]@);
    if same_text(tokens[at - 1].as_str(), ";") {
        return true;
    }
    let mut index: usize = 0;
    while index < at
        invariant
            index <= at < tokens@.len(),
            all == texts(tokens@),
            forall|k: int| 0 <= k < index ==> !holds_statements(#[trigger] all[k]),
        decreases at - index,
    {
        assert(all[index as int] == tokens@[index as int]@);
        if can_hold_statements(tokens[index].as_str()) {
            return true;
        }
        index = index + 1;
    }
    false
}

fn can_be_name(token: &str) -> (result: bool)
    ensures
        result == may_be_name(token@),
{
    let characters = chars_of(token);
    if characters.len() == 0 {
        return false;
    }
    let first = characters[0];
    ('A' <= first && first <= 'Z') || ('a' <= first && first <= 'z') || first == '\'' || first
        == '"'
}

fn is_authorization(tokens: &Vec<String>, at: usize) -> (result: bool)
    requires
        at < tokens@.len(),
    ensures
        result == sets_authorization(texts(tokens@), at as int),
{
    let ghost all = texts(tokens@);
    assert forall|k: int| 0 <= k < all.len() implies #[trigger] all[k] == tokens@[k]@ by {}
    if at == 0 || at >= tokens.len() - 1 || !same_text(tokens[at].as_str(), "AUTHORIZATION")
        || !can_be_name(tokens[at + 1].as_str()) {
        return false;
    }
    proof {
        reveal_strlit("SET");
        reveal_strlit(":");
        assert("SET"@.len() != ":"@.len());
    }
    if same_text(tokens[at - 1].as_str(), "SET") {
        return is_statement_start(tokens, at - 1);
    }
    at > 2 && same_text(tokens[at - 1].as_str(), ":") && same_text(
        tokens[at - 2].as_str(),
        "HIVEVAR",
    ) && same_text(tokens[at - 3].as_str(), "SET") && is_statement_start(tokens, at - 3)
}

fn is_flush(tokens: &Vec<String>, at: usize) -> (result: bool)
    requires
        at < tokens@.len(),
    ensures
        result == flushes(texts(tokens@), at as int),
{
    assert(texts(tokens@)[at as int] == tokens@[at as int]@);
    same_text(tokens[at].as_str(), "FLUSH") && is_statement_start(tokens, at)
}

fn is_relay_channel(tokens: &Vec<String>, at: usize) -> (result: bool)
    requires
        at < tokens@.len(),
    ensures
        result == names_relay_channel(texts(tokens@), at as int),
{
    let ghost all = texts(tokens@);
    assert forall|k: int| 0 <= k < all.len() implies #[trigger] all[k] == tokens@[k]@ by {}
    if at < 4 || !same_text(tokens[at].as_str(), "CHANNEL") || !same_text(
        tokens[at - 1].as_str(),
        "FOR",
    ) || !same_text(tokens[at - 2].as_str(), "LOGS") || !same_text(tokens[at - 3].as_str(), "RELAY")
        || (!is_flush(tokens, at - 4) && (at == 4 || !is_flush(tokens, at - 5))) {
        return false;
    }
    let named = at < tokens.len() - 1 && same_text(tokens[at + 1].as_str(), "NoKeyword") && (at + 2
        == tokens.len() || same_text(tokens[at + 2].as_str(), ";"));
    !named
}

/// Whether the SQL parser can take a text with these tokens: it is one query,
/// or has none of the statements that the parser cannot take.
pub fn tokens_can_be_parsed(tokens: &Vec<String>) -> (result: bool)
    ensures
        result == can_be_parsed(texts(tokens@)),
{
    if is_one_query(tokens) {
        return true;
    }
    let ghost all = texts(tokens@);
    let mut index: usize = 0;
    while index < tokens.len()
        invariant
            index <= tokens.len(),
            all == texts(tokens@),
            forall|at: int|
                #![trigger all[at]]
                0 <= at < index ==> !sets_authorization(all, at) && !names_relay_channel(all, at),
            !one_query(all),
        decreases tokens.len() - index,
    {
        if is_authorization(tokens, index) || is_relay_channel(tokens, index) {
            assert(all[index as int] == tokens@[index as int]@);
            return false;
        }
        index = index + 1;
    }
    true
}

/// Why a text is refused as a query: it has a statement that the parser cannot
/// take, or is not one query and nothing else.
pub open spec fn select_failure(sql: Seq<char>) -> Option<Failure> {
    if !parseable(sql) {
        Some(invalid_query("only read-only SELECT queries are allowed"@))
    } else {
        query_failure(sql_statements(sql))
    }
}

/// Refuses anything but a single read-only query.
pub fn ensure_select_only(sql: &str) -> (result: Result<(), StoreError>)
    ensures
        crate::error::check_failure(result) == select_failure(sql@),
{
    match tokenize_sql(sql) {
        Some(tokens) => {
            if !tokens_can_be_parsed(&without_blanks(&tokens)) {
                return Err(
                    StoreError::invalid_input(
                        "only read-only SELECT queries are allowed".to_owned(),
                    ),
                );
            }
        },
        None => {},
    }
    check_statements(parse_sql(sql))
}

/// Counts the rows of one more batch that is read for a query, up to the
/// number that a query may read.
pub fn count_scanned(scanned: usize, rows: usize) -> (result: Result<usize, StoreError>)
    requires
        scanned + rows <= usize::MAX,
    ensures
        if scanned + rows > SQL_MAX_SCAN_ROWS {
            result is Err && result->Err_0@ == invalid_query(
                "experiment has more than 200000 rows, which is too large for ad-hoc SQL; use the record browser filters instead"@,
            )
        } else {
            result is Ok && result->Ok_0 == scanned + rows
        },
{
    let total = scanned + rows;
    if total > SQL_MAX_SCAN_ROWS {
        Err(
            StoreError::invalid_input(
                "experiment has more than 200000 rows, which is too large for ad-hoc SQL; use the record browser filters instead".to_owned(),
            ),
        )
    } else {
        Ok(total)
    }
}

/// The columns of a table that a query sees: all but the artifact bytes.
pub open spec fn queried_table(table: SchemaView) -> SchemaView {
    SchemaView {
        fields: table.fields.filter(|field: FieldView| field.name != "binary_payload"@),
        metadata: Seq::empty(),
    }
}

/// The schema of the queried table where no row was read.
pub fn queryable_schema(table: &Schema) -> (result: Schema)
    ensures
        result@ == queried_table(table@),
{
    let ghost all = field_views(table.fields@);
    let ghost keep = |field: FieldView| field.name != "binary_payload"@;
    let mut fields: Vec<Field> = Vec::new();
    let mut index: usize = 0;
    proof {
        assert(all.take(0).filter(keep) =~= Seq::<FieldView>::empty()) by {
            reveal(Seq::filter);
        }
        assert(field_views(fields@) =~= Seq::<FieldView>::empty());
    }
    while index < table.fields.len()
        invariant
            index <= table.fields.len(),
            all == field_views(table.fields@),
            keep == (|field: FieldView| field.name != "binary_payload"@),
            field_views(fields@) == all.take(index as int).filter(keep),
        decreases table.fields.len() - index,
    {
        let field = &table.fields[index];
        proof {
            assert(all.take(index + 1) =~= all.take(index as int).push(field@));
            all.take(index as int).lemma_filter_push(field@, keep);
        }
        if !same_text(field.name.as_str(), "binary_payload") {
            push_field(&mut fields, field.copy());
        }
        index = index + 1;
    }
    assert(all.take(all.len() as int) =~= all);
    let schema = Schema { fields, metadata: Vec::new() };
    assert(schema@.metadata =~= Seq::empty());
    schema
}

/// The result of a query: the names of its columns and its rows, each value as
/// JSON text.
#[derive(Debug, Clone, PartialEq)]
pub struct SqlQueryResult {
    pub columns: Vec<String>,
    pub rows: Vec<Vec<String>>,
    /// Whether rows were left out because there were too many.
    pub truncated: bool,
}

/// The models of rows of texts.
pub open spec fn row_texts(rows: Seq<Vec<String>>) -> Seq<Seq<Seq<char>>> {
    Seq::new(rows.len(), |i: int| texts(rows[i]@))
}

/// The value under a key, or the JSON null.
pub open spec fn value_or_null(row: Seq<Entry>, key: Seq<char>) -> Seq<char> {
    match value_of(row, key) {
        Some(value) => value,
        None => "null"@,
    }
}

/// What the columns of an answer are called while it is written and read back:
/// each by its place, since two of them may have one name.
pub open spec fn places(width: nat) -> Seq<Seq<char>> {
    Seq::new(width, |i: int| decimal(i))
}

/// The names of this many columns: their places.
pub fn place_names(width: usize) -> (names: Vec<String>)
    ensures
        texts(names@) == places(width as nat),
{
    let mut names: Vec<String> = Vec::new();
    let mut index: usize = 0;
    while index < width
        invariant
            index <= width,
            names.len() == index,
            forall|k: int| 0 <= k < index ==> (#[trigger] names@[k])@ == decimal(k),
        decreases width - index,
    {
        names.push(decimal_usize(index));
        index = index + 1;
    }
    assert(texts(names@) =~= places(width as nat));
    names
}

/// No two columns of an answer are called alike, whatever names the query gave
/// them: so the value of one is never read as that of another.
pub proof fn law_places_are_distinct(width: nat)
    ensures
        places(width).len() == width,
        places(width).no_duplicates(),
{
    assert forall|i: int, j: int| 0 <= i < width && 0 <= j < width && i != j implies places(width)[i]
        != places(width)[j] by {
        if decimal(i) == decimal(j) {
            law_decimals_differ(i, j);
        }
    }
}

/// A row of names and values as a list: the value under each of the names, in
/// their order. A column whose value is null does not occur in the row.
pub open spec fn positional(row: Seq<Entry>, names: Seq<Seq<char>>) -> Seq<Seq<char>> {
    Seq::new(names.len(), |i: int| value_or_null(row, names[i]))
}

/// Rows of places and values as lists of this many values.
pub open spec fn positional_rows(rows: Seq<Seq<Entry>>, width: nat) -> Seq<Seq<Seq<char>>> {
    Seq::new(rows.len(), |i: int| positional(rows[i], places(width)))
}

fn build_row(row: &Vec<(String, String)>, names: &Vec<String>) -> (result: Vec<String>)
    ensures
        texts(result@) == positional(entries(row@), texts(names@)),
{
    let ghost wanted = positional(entries(row@), texts(names@));
    let mut result: Vec<String> = Vec::new();
    let mut index: usize = 0;
    while index < names.len()
        invariant
            index <= names.len(),
            result.len() == index,
            wanted == positional(entries(row@), texts(names@)),
            forall|k: int| 0 <= k < index ==> (#[trigger] result@[k])@ == wanted[k],
        decreases names.len() - index,
    {
        let value = match metadata_value(row, names[index].as_str()) {
            Some(value) => value.clone(),
            None => "null".to_owned(),
        };
        result.push(value);
        index = index + 1;
    }
    assert(texts(result@) =~= wanted);
    result
}

/// What is given back of rows that may be too many.
pub open spec fn capped(rows: Seq<Seq<Seq<char>>>) -> (Seq<Seq<Seq<char>>>, bool) {
    if rows.len() > SQL_MAX_RESULT_ROWS {
        (rows.take(SQL_MAX_RESULT_ROWS as int), true)
    } else {
        (rows, false)
    }
}

impl SqlQueryResult {
    /// A result without rows.
    pub fn new(columns: Vec<String>) -> (result: SqlQueryResult)
        ensures
            result.columns == columns,
            result.rows@.len() == 0,
            !result.truncated,
    {
        SqlQueryResult { columns, rows: Vec::new(), truncated: false }
    }

    /// Adds the rows of one batch, whose values stand under the places of their
    /// columns, as far as a result may hold them.
    pub fn add_rows(&mut self, more: &Vec<Vec<(String, String)>>)
        requires
            !old(self).truncated,
            old(self).rows@.len() <= SQL_MAX_RESULT_ROWS,
        ensures
            final(self).columns == old(self).columns,
            (row_texts(final(self).rows@), final(self).truncated) == capped(
                row_texts(old(self).rows@) + positional_rows(
                    row_entries(more@),
                    old(self).columns@.len(),
                ),
            ),
    {
        let ghost start = row_texts(self.rows@);
        let ghost added = positional_rows(row_entries(more@), self.columns@.len());
        let ghost columns = self.columns;
        let names = place_names(self.columns.len());
        let mut index: usize = 0;
        assert(start + added.take(0) =~= start);
        while index < more.len()
            invariant
                index <= more.len(),
                start == row_texts(old(self).rows@),
                columns == old(self).columns,
                self.columns == columns,
                texts(names@) == places(columns@.len()),
                !self.truncated,
                self.rows@.len() <= SQL_MAX_RESULT_ROWS,
                added == positional_rows(row_entries(more@), columns@.len()),
                row_texts(self.rows@) == start + added.take(index as int),
            decreases more.len() - index,
        {
            if self.rows.len() >= SQL_MAX_RESULT_ROWS {
                self.truncated = true;
                proof {
                    let all = start + added;
                    assert(row_texts(self.rows@).len() == SQL_MAX_RESULT_ROWS);
                    assert(all.take(SQL_MAX_RESULT_ROWS as int) =~= start + added.take(
                        index as int,
                    ));
                }
                return ;
            }
            let ghost before = self.rows@;
            let row = build_row(&more[index], &names);
            self.rows.push(row);
            proof {
                assert(row_texts(self.rows@) =~= row_texts(before).push(added[index as int]));
                assert(start + added.take(index + 1) =~= (start + added.take(index as int)).push(
                    added[index as int],
                ));
            }
            index = index + 1;
        }
        proof {
            assert(added.take(added.len() as int) =~= added);
            assert(row_texts(self.rows@).len() == self.rows@.len());
        }
    }
}

/// The rows of one batch, given what was written of it: a JSON list of objects.
pub open spec fn list_rows(list: Result<Seq<u8>, Seq<char>>) -> Result<Seq<Seq<Entry>>, Failure> {
    match list {
        Err(message) => Err(arrow_failure(message)),
        Ok(bytes) => match json_rows(bytes) {
            Err(message) => Err(invalid_argument(message)),
            Ok(rows) => Ok(rows),
        },
    }
}

/// The rows of the first `count` batches and whether there were too many, or
/// the failure of a batch. Nothing is read behind the row that is too many.
pub open spec fn batches_read(
    lists: Seq<Result<Seq<u8>, Seq<char>>>,
    width: nat,
    count: nat,
) -> Result<(Seq<Seq<Seq<char>>>, bool), Failure>
    decreases count,
{
    if count == 0 {
        Ok((Seq::empty(), false))
    } else {
        match batches_read(lists, width, (count - 1) as nat) {
            Err(failure) => Err(failure),
            Ok((rows, truncated)) => if truncated {
                Ok((rows, true))
            } else {
                match list_rows(lists[count - 1]) {
                    Err(failure) => Err(failure),
                    Ok(more) => Ok(capped(rows + positional_rows(more, width))),
                }
            },
        }
    }
}

/// The model of what was written of a batch.
pub open spec fn written(list: Result<Vec<u8>, String>) -> Result<Seq<u8>, Seq<char>> {
    match list {
        Ok(bytes) => Ok(bytes@),
        Err(message) => Err(message@),
    }
}

/// The models of what was written of each batch.
pub open spec fn written_lists(lists: Seq<Result<Vec<u8>, String>>) -> Seq<
    Result<Seq<u8>, Seq<char>>,
> {
    Seq::new(lists.len(), |i: int| written(lists[i]))
}

/// What is written of a batch, with each column under its place: a dictionary of
/// nulls cannot be.
pub open spec fn batch_list(batch: AnswerBatch) -> Result<Seq<u8>, Seq<char>> {
    if all_written(answer_types(batch), answer_nulls(batch), answer_length(batch)) {
        json_list_of(batch, places(answer_types(batch).len()))
    } else {
        Err("a dictionary of nulls cannot be written as JSON"@)
    }
}

/// What is written of each batch of an answer.
pub open spec fn answer_lists(batches: Seq<AnswerBatch>) -> Seq<Result<Seq<u8>, Seq<char>>> {
    Seq::new(batches.len(), |i: int| batch_list(batches[i]))
}

fn without_names(text: &str) -> (result: String)
    ensures
        result@ == unquoted(text@),
{
    let chars = chars_of(text);
    let ghost all = text@;
    let mut result = String::new();
    let mut quoted = false;
    let mut at: usize = 0;
    assert(result@ + unquoted(all) =~= unquoted(all));
    while at < chars.len()
        invariant
            at <= chars.len(),
            chars@ == all,
            result@ + unquoted_from(all, at as int, quoted) == unquoted(all),
        decreases chars.len() - at,
    {
        let next = chars[at];
        if quoted && next == '\\' && chars.len() - at >= 2 {
            at = at + 2;
        } else {
            let ghost before = result@;
            let ghost rest = unquoted_from(all, at + 1, false);
            if quoted {
                quoted = next != '"';
            } else if next == '"' {
                quoted = true;
            } else {
                push_char(&mut result, next);
                assert(result@ + rest =~= before + (seq![next] + rest));
            }
            at = at + 1;
        }
    }
    assert(result@ + Seq::<char>::empty() =~= result@);
    result
}

fn is_null_dictionary(plain: &str, key: &str) -> (result: bool)
    ensures
        result == null_dictionary(plain@, key@),
{
    let nulls = join3("Dictionary(", key, ", Null)");
    let runs = join3("Dictionary(", key, ", RunEndEncoded(");
    contains_pattern(plain, nulls.as_str()) || (contains_pattern(plain, runs.as_str())
        && contains_pattern(plain, "data_type: Null"))
}

/// Whether columns can be written as JSON, given their types, in how many rows
/// each of them is null, and how many rows there are.
pub fn columns_can_be_written(types: &Vec<String>, nulls: &Vec<usize>, length: usize) -> (result:
    bool)
    ensures
        result == all_written(texts(types@), nulls@, length),
{
    let ghost all = texts(types@);
    let mut index: usize = 0;
    while index < types.len()
        invariant
            index <= types.len(),
            all == texts(types@),
            forall|i: int|
                0 <= i < index ==> can_be_written(#[trigger] all[i]) || (i < nulls@.len()
                    && nulls@[i] == length),
        decreases types.len() - index,
    {
        assert(all[index as int] == types@[index as int]@);
        let text = without_names(types[index].as_str());
        let plain = text.as_str();
        let risky = is_null_dictionary(plain, "Int8") || is_null_dictionary(plain, "Int16")
            || is_null_dictionary(plain, "Int32") || is_null_dictionary(plain, "Int64")
            || is_null_dictionary(plain, "UInt8") || is_null_dictionary(plain, "UInt16")
            || is_null_dictionary(plain, "UInt32") || is_null_dictionary(plain, "UInt64");
        if risky && !(index < nulls.len() && nulls[index] == length) {
            assert(!can_be_written(all[index as int]));
            return false;
        }
        index = index + 1;
    }
    true
}

proof fn lemma_decided(
    lists: Seq<Result<Seq<u8>, Seq<char>>>,
    width: nat,
    count: nat,
    more: nat,
)
    requires
        count <= more,
        batches_read(lists, width, count) is Err || batches_read(lists, width, count)->Ok_0.1,
    ensures
        batches_read(lists, width, more) == batches_read(lists, width, count),
    decreases more,
{
    if count < more {
        lemma_decided(lists, width, count, (more - 1) as nat);
    }
}

/// Whether a result is the one that a model states, under the given columns.
pub open spec fn is_result_of(
    result: Result<SqlQueryResult, StoreError>,
    columns: Vec<String>,
    model: Result<(Seq<Seq<Seq<char>>>, bool), Failure>,
) -> bool {
    match model {
        Ok((rows, truncated)) => {
            &&& result is Ok
            &&& result->Ok_0.columns == columns
            &&& row_texts(result->Ok_0.rows@) == rows
            &&& result->Ok_0.truncated == truncated
        },
        Err(failure) => result is Err && result->Err_0@ == failure,
    }
}

/// Turns what was written of each batch of a query's answer, a JSON list of
/// objects or the words of a failure, into its result.
pub fn json_lists_to_result(columns: Vec<String>, lists: &Vec<Result<Vec<u8>, String>>) -> (result:
    Result<SqlQueryResult, StoreError>)
    ensures
        is_result_of(
            result,
            columns,
            batches_read(written_lists(lists@), columns@.len(), lists@.len()),
        ),
{
    let ghost width = columns@.len();
    let ghost wanted = columns;
    let ghost all = written_lists(lists@);
    let mut answer = SqlQueryResult::new(columns);
    let mut index: usize = 0;
    assert(row_texts(answer.rows@) =~= Seq::<Seq<Seq<char>>>::empty());
    while index < lists.len()
        invariant
            index <= lists.len(),
            all == written_lists(lists@),
            answer.columns == wanted,
            width == wanted@.len(),
            wanted == columns,
            !answer.truncated,
            answer.rows@.len() <= SQL_MAX_RESULT_ROWS,
            batches_read(all, width, index as nat) == Ok::<(Seq<Seq<Seq<char>>>, bool), Failure>(
                (row_texts(answer.rows@), false),
            ),
        decreases lists.len() - index,
    {
        assert(all[index as int] == written(lists@[index as int]));
        let bytes = match &lists[index] {
            Ok(bytes) => bytes,
            Err(message) => {
                proof {
                    lemma_decided(all, width, (index + 1) as nat, all.len());
                }
                return Err(StoreError::arrow(message.clone()));
            },
        };
        match parse_json_rows(bytes) {
            Ok(rows) => {
                answer.add_rows(&rows);
            },
            Err(message) => {
                proof {
                    lemma_decided(all, width, (index + 1) as nat, all.len());
                }
                return Err(StoreError::invalid_argument(message));
            },
        }
        if answer.truncated {
            proof {
                lemma_decided(all, width, (index + 1) as nat, all.len());
            }
            return Ok(answer);
        }
        assert(row_texts(answer.rows@).len() == answer.rows@.len());
        index = index + 1;
    }
    Ok(answer)
}

/// Turns the batches of a query's answer into its result: each row holds the
/// values of the batch's columns in their order, also where two columns have
/// one name.
pub fn sql_batches_to_result(columns: Vec<String>, batches: &Vec<AnswerBatch>) -> (result: Result<
    SqlQueryResult,
    StoreError,
>)
    ensures
        is_result_of(
            result,
            columns,
            batches_read(answer_lists(batches@), columns@.len(), batches@.len()),
        ),
{
    let mut lists: Vec<Result<Vec<u8>, String>> = Vec::new();
    let mut index: usize = 0;
    while index < batches.len()
        invariant
            index <= batches.len(),
            lists.len() == index,
            forall|k: int|
                0 <= k < index ==> written(#[trigger] lists@[k]) == batch_list(batches@[k]),
        decreases batches.len() - index,
    {
        let batch = &batches[index];
        let types = column_types(batch);
        let list = if columns_can_be_written(&types, &null_counts(batch), row_count(batch)) {
            let names = place_names(types.len());
            assert(texts(names@).len() == names@.len() && texts(types@).len() == types@.len());
            write_json_list(batch, &names)
        } else {
            Err("a dictionary of nulls cannot be written as JSON".to_owned())
        };
        lists.push(list);
        index = index + 1;
    }
    assert(written_lists(lists@) =~= answer_lists(batches@));
    json_lists_to_result(columns, &lists)
}

/// The rows of the first `count` batches, however many they are.
pub open spec fn answer_rows(
    lists: Seq<Result<Seq<u8>, Seq<char>>>,
    width: nat,
    count: nat,
) -> Seq<Seq<Seq<char>>>
    decreases count,
{
    if count == 0 {
        Seq::empty()
    } else {
        answer_rows(lists, width, (count - 1) as nat) + (match list_rows(lists[count - 1]) {
            Ok(more) => positional_rows(more, width),
            Err(_) => Seq::empty(),
        })
    }
}

/// A result holds the rows of the answer, and never more than it may: one that
/// is not marked as cut holds all of them, and one that is marked holds the
/// first ones of an answer that has more. Each row has one value for each
/// column.
pub proof fn law_sql_results_are_bounded(
    lists: Seq<Result<Seq<u8>, Seq<char>>>,
    width: nat,
    count: nat,
)
    requires
        batches_read(lists, width, count) is Ok,
    ensures
        ({
            let (rows, truncated) = batches_read(lists, width, count)->Ok_0;
            &&& rows.len() <= SQL_MAX_RESULT_ROWS
            &&& !truncated ==> rows == answer_rows(lists, width, count)
            &&& truncated ==> exists|read: nat|
                read <= count && (#[trigger] answer_rows(lists, width, read)).len()
                    > SQL_MAX_RESULT_ROWS && rows == answer_rows(lists, width, read).take(
                    SQL_MAX_RESULT_ROWS as int,
                )
            &&& forall|i: int| 0 <= i < rows.len() ==> (#[trigger] rows[i]).len() == width
        }),
    decreases count,
{
    if count > 0 {
        law_sql_results_are_bounded(lists, width, (count - 1) as nat);
        let earlier = batches_read(lists, width, (count - 1) as nat)->Ok_0;
        let now = batches_read(lists, width, count)->Ok_0;
        if !earlier.1 {
            let more = positional_rows(list_rows(lists[count - 1])->Ok_0, width);
            assert(answer_rows(lists, width, count) == earlier.0 + more);
            assert forall|i: int| 0 <= i < now.0.len() implies (#[trigger] now.0[i]).len()
                == width by {
                assert(now.0[i] == (earlier.0 + more)[i]);
                if i < earlier.0.len() {
                    assert(earlier.0[i].len() == width);
                }
            }
        }
    }
}

/// A query is taken exactly where it parses to one statement and that one reads
/// only.
pub proof fn law_one_reading_statement_is_taken(statements: Result<Seq<bool>, Seq<char>>)
    ensures
        query_failure(statements) is None <==> statements == Ok::<Seq<bool>, Seq<char>>(seq![true]),
{
    if query_failure(statements) is None {
        assert(statements->Ok_0 =~= seq![true]);
    }
}

/// A value of a row stands at the place its key names, and where the row has no
/// such key the text `null` does. Each row is as wide as there are columns.
pub proof fn law_values_stand_at_their_places(
    rows: Seq<Seq<Entry>>,
    width: nat,
    at: int,
    place: int,
)
    requires
        0 <= at < rows.len(),
        0 <= place < width,
    ensures
        positional_rows(rows, width).len() == rows.len(),
        positional_rows(rows, width)[at].len() == width,
        value_of(rows[at], decimal(place)) matches Some(value)
            ==> positional_rows(rows, width)[at][place]
            == value,
        value_of(rows[at], decimal(place)) is None ==> positional_rows(rows, width)[at][place]
            == "null"@,
{
}

/// A result holds the first ten thousand rows and says whether it left out any.
pub proof fn law_a_result_is_cut_at_ten_thousand_rows(rows: Seq<Seq<Seq<char>>>)
    ensures
        capped(rows).0.is_prefix_of(rows),
        rows.len() <= 10_000 ==> capped(rows) == (rows, false),
        rows.len() > 10_000 ==> capped(rows).0.len() == 10_000 && capped(rows).1,
{
    assert(rows.take(rows.len() as int) =~= rows);
}

/// A query reads every column but the binary payload, in the table's order.
pub proof fn law_a_query_reads_every_other_column(table: SchemaView, next: FieldView)
    ensures
        queried_table(SchemaView { fields: Seq::empty(), ..table }).fields.len() == 0,
        queried_table(SchemaView { fields: table.fields.push(next), ..table }).fields
            == if next.name
            == "binary_payload"@ {
            queried_table(table).fields
        } else {
            queried_table(table).fields.push(next)
        },
{
    reveal(Seq::filter);
    table.fields.lemma_filter_push(next, |field: FieldView| field.name != "binary_payload"@);
}

/// An answer fails for the first of its lists that does, unless it was full
/// before; one that is not cut has read every list.
pub proof fn law_an_answer_fails_for_its_first_list(
    lists: Seq<Result<Seq<u8>, Seq<char>>>,
    width: nat,
    count: nat,
    at: int,
)
    requires
        0 <= at < count <= lists.len(),
    ensures
        batches_read(lists, width, count) matches Ok(answer) ==> (!answer.1 ==> list_rows(
            lists[at],
        ) is Ok),
        batches_read(lists, width, at as nat) matches Ok(answer) ==> (!answer.1 ==> (list_rows(
            lists[at],
        ) matches Err(failure) ==> batches_read(lists, width, count) == Err::<
            (Seq<Seq<Seq<char>>>, bool),
            Failure,
        >(failure))),
    decreases count,
{
    if at < count - 1 {
        law_an_answer_fails_for_its_first_list(lists, width, (count - 1) as nat, at);
    }
}

/// A query text is taken exactly where it can be handed to the parser and that
/// finds one statement, which reads only.
pub proof fn law_which_query_texts_are_taken(sql: Seq<char>)
    ensures
        select_failure(sql) is None <==> parseable(sql) && sql_statements(sql) == Ok::<
            Seq<bool>,
            Seq<char>,
        >(seq![true]),
{
    law_one_reading_statement_is_taken(sql_statements(sql));
}

/// The models of rows, lists and statements hold what these hold, in their order.
pub proof fn law_models_of_an_answer_are_whole(
    rows: Seq<Vec<String>>,
    lists: Seq<Result<Vec<u8>, String>>,
    statements: Result<Vec<bool>, String>,
    entries_of_rows: Seq<Vec<(String, String)>>,
    at: int,
)
    ensures
        row_texts(rows).len() == rows.len(),
        0 <= at < rows.len() ==> row_texts(rows)[at] == texts(rows[at]@),
        written_lists(lists).len() == lists.len(),
        0 <= at < lists.len() ==> (lists[at] matches Ok(bytes) ==> written_lists(lists)[at] == Ok::<
            Seq<u8>,
            Seq<char>,
        >(bytes@)),
        0 <= at < lists.len() ==> (lists[at] matches Err(message) ==> written_lists(lists)[at]
            == Err::<Seq<u8>, Seq<char>>(message@)),
        statements matches Ok(kinds) ==> parsed(statements) == Ok::<Seq<bool>, Seq<char>>(kinds@),
        statements matches Err(message) ==> parsed(statements) == Err::<Seq<bool>, Seq<char>>(
            message@,
        ),
        row_entries(entries_of_rows).len() == entries_of_rows.len(),
        0 <= at < entries_of_rows.len() ==> row_entries(entries_of_rows)[at] == entries(
            entries_of_rows[at]@,
        ),
{
}

/// A list of an answer is what the writer makes of the batch with its columns
/// numbered, and a batch that cannot be written is refused; a list that was not
/// written, or does not read as rows, fails with the words of the one or the other.
pub proof fn law_where_the_rows_of_an_answer_come_from(
    batches: Seq<AnswerBatch>,
    at: int,
    list: Seq<u8>,
    message: Seq<char>,
)
    requires
        0 <= at < batches.len(),
    ensures
        answer_lists(batches).len() == batches.len(),
        all_written(
            answer_types(batches[at]),
            answer_nulls(batches[at]),
            answer_length(batches[at]),
        ) ==> answer_lists(batches)[at] == json_list_of(
            batches[at],
            places(answer_types(batches[at]).len()),
        ),
        !all_written(
            answer_types(batches[at]),
            answer_nulls(batches[at]),
            answer_length(batches[at]),
        ) ==> answer_lists(batches)[at] is Err,
        list_rows(Err(message)) == Err::<Seq<Seq<Entry>>, Failure>(arrow_failure(message)),
        json_rows(list) matches Ok(rows) ==> list_rows(Ok(list)) == Ok::<Seq<Seq<Entry>>, Failure>(
            rows,
        ),
        json_rows(list) matches Err(words) ==> list_rows(Ok(list)) == Err::<
            Seq<Seq<Entry>>,
            Failure,
        >(invalid_argument(words)),
{
}

/// A result is its model's: the columns, the rows and whether it was cut, or the
/// failure.
pub proof fn law_a_result_is_its_models(
    result: Result<SqlQueryResult, StoreError>,
    columns: Vec<String>,
    model: Result<(Seq<Seq<Seq<char>>>, bool), Failure>,
)
    requires
        is_result_of(result, columns, model),
    ensures
        result is Ok <==> model is Ok,
        result matches Ok(answer) ==> answer.columns == columns && row_texts(answer.rows@)
            == model->Ok_0.0 && answer.truncated == model->Ok_0.1,
        result matches Err(error) ==> error@ == model->Err_0,
{
}

} // verus!
