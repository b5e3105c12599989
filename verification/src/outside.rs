//! Calls into the crates and the parts of `std` the library builds on.
//!
//! Nothing in this module is proved: each function makes one call, and its
//! contract says what is believed of that call.

use vstd::prelude::*;

use crate::storage::mentions;

verus! {

/// What `serde_json` makes of a JSON text: the document it reads, written back
/// without spaces, or the text of its error.
pub uninterp spec fn json_compact(text: Seq<char>) -> Result<Seq<char>, Seq<char>>;

/// Whether a count of microseconds since the Unix epoch is a point in time
/// that `chrono` can represent: from the first instant of the year -262143 to
/// the last one of the year 262142.
pub open spec fn timestamp_in_range(micros: i64) -> bool {
    -8_334_601_228_800_000_000 <= micros <= 8_210_266_876_799_999_999
}

/// The name-based identifier (version 5) of `name` in the object-identifier
/// namespace.
pub uninterp spec fn uuid_v5_oid(name: Seq<char>) -> u128;

/// What DataFusion's SQL parser makes of a text: for each statement, whether
/// it is a query; or the text of its error.
pub uninterp spec fn sql_statements(sql: Seq<char>) -> Result<Seq<bool>, Seq<char>>;

/// The tokens that DataFusion's SQL parser starts from: nothing for white space
/// and comments, the name of its keyword for a word, `NoKeyword` for a word that
/// is none or is quoted, and its own text for anything else. There are none
/// where the text has no tokens at all.
pub uninterp spec fn sql_tokens(sql: Seq<char>) -> Option<Seq<Option<Seq<char>>>>;

/// The types of a batch's columns, as Arrow writes them out.
pub uninterp spec fn answer_types(answer: AnswerBatch) -> Seq<Seq<char>>;

/// How many rows a batch has.
pub uninterp spec fn answer_length(answer: AnswerBatch) -> usize;

/// In how many rows each column of a batch is null.
pub uninterp spec fn answer_nulls(answer: AnswerBatch) -> Seq<usize>;

/// What `arrow_json` writes of a batch whose columns have the given names: a
/// JSON list with one object for each row, which holds the value of each column
/// under its name and leaves out nulls; or the text of its error.
pub uninterp spec fn json_list_of(answer: AnswerBatch, names: Seq<Seq<char>>) -> Result<
    Seq<u8>,
    Seq<char>,
>;

/// What `serde_json` makes of the bytes of a JSON list of objects: for each
/// object its keys with their values, written without spaces; or the text of
/// its error.
pub uninterp spec fn json_rows(bytes: Seq<u8>) -> Result<Seq<Seq<(Seq<char>, Seq<char>)>>, Seq<char>>;

/// The text that the standard library reads from bytes, with each part that
/// is no UTF-8 replaced.
pub uninterp spec fn utf8_lossy(bytes: Seq<u8>) -> Seq<char>;

/// Whether the standard library counts a character beyond ASCII as a letter or
/// a number.
pub uninterp spec fn unicode_alphanumeric(character: char) -> bool;

/// The characters that the standard library gives as lower case of one beyond
/// ASCII.
pub uninterp spec fn unicode_lowercase(character: char) -> Seq<char>;

/// Whether a character is a letter or a number.
pub open spec fn is_word_char(character: char) -> bool {
    if character as u32 <= 0x7F {
        '0' <= character <= '9' || 'A' <= character <= 'Z' || 'a' <= character <= 'z'
    } else {
        unicode_alphanumeric(character)
    }
}

/// The lower case of a character.
pub open spec fn lower_chars(character: char) -> Seq<char> {
    if 'A' <= character <= 'Z' {
        seq![((character as u32) + 32) as char]
    } else if character as u32 <= 0x7F {
        seq![character]
    } else {
        unicode_lowercase(character)
    }
}

/// The words of Arrow's error about a column that none of `names` is.
pub uninterp spec fn arrow_missing_field(names: Seq<Seq<char>>, name: Seq<char>) -> Seq<char>;

/// Looks a column up with `arrow_schema::Schema::field_with_name` in a schema
/// whose columns have the given names, none of which is the wanted one, and
/// gives the words of the error that comes back. They depend on the names
/// alone and are named `arrow_missing_field`.
#[verifier::external_body]
pub(crate) fn missing_field_message(names: &Vec<String>, name: &str) -> (message: String)
    requires
        !crate::text::texts(names@).contains(name@),
    ensures
        message@ == arrow_missing_field(crate::text::texts(names@), name@),
{
    let fields: Vec<arrow_schema::Field> = names.iter().map(
        |name| arrow_schema::Field::new(name, arrow_schema::DataType::Null, true),
    ).collect();
    match arrow_schema::Schema::new(fields).field_with_name(name) {
        Err(arrow_schema::ArrowError::SchemaError(message)) => message,
        Err(error) => error.to_string(),
        Ok(_) => String::new(),
    }
}

/// Reads a JSON text with `serde_json::from_str` into a `serde_json::Value`
/// and writes the value back with its `Display`, which adds no spaces. The
/// result is a function of the text alone and is named `json_compact`.
#[verifier::external_body]
pub(crate) fn compact_json(text: &str) -> (result: Result<String, String>)
    ensures
        match json_compact(text@) {
            Ok(compact) => result is Ok && result->Ok_0@ == compact,
            Err(message) => result is Err && result->Err_0@ == message,
        },
{
    match serde_json::from_str::<serde_json::Value>(text) {
        Ok(value) => Ok(value.to_string()),
        Err(error) => Err(error.to_string()),
    }
}

/// Asks `chrono::DateTime::from_timestamp_micros` whether it has a value for a
/// count of microseconds. It has one for the instants of the years that `chrono`
/// has, -262143 to 262142, and for no other.
#[verifier::external_body]
pub(crate) fn is_timestamp(micros: i64) -> (result: bool)
    ensures
        result == timestamp_in_range(micros),
{
    chrono::DateTime::from_timestamp_micros(micros).is_some()
}

/// Derives a version 5 identifier with `uuid::Uuid::new_v5` from the
/// object-identifier namespace and the UTF-8 bytes of `name`, as a big-endian
/// number. It is a hash of its two arguments, and is named `uuid_v5_oid`. That
/// two names have two identifiers is left unsaid: a hash does not promise it.
#[verifier::external_body]
pub(crate) fn name_based_uuid(name: &str) -> (result: u128)
    ensures
        result == uuid_v5_oid(name@),
{
    uuid::Uuid::new_v5(&uuid::Uuid::NAMESPACE_OID, name.as_bytes()).as_u128()
}

/// The models of tokens.
pub open spec fn token_views(tokens: Seq<Option<String>>) -> Seq<Option<Seq<char>>> {
    Seq::new(tokens.len(), |i: int| crate::text::opt_text(tokens[i]))
}

/// Splits a text with `sqlparser::tokenizer::Tokenizer::tokenize` in the generic
/// dialect, which is the first step of DataFusion's parser, and gives the
/// keyword of each word and the text of each other token. The result is a
/// function of the text alone and is named `sql_tokens`.
#[verifier::external_body]
pub(crate) fn tokenize_sql(sql: &str) -> (result: Option<Vec<Option<String>>>)
    ensures
        match sql_tokens(sql@) {
            Some(tokens) => result is Some && token_views(result->Some_0@) == tokens,
            None => result is None,
        },
{
    let dialect = datafusion::sql::sqlparser::dialect::GenericDialect {};
    match datafusion::sql::sqlparser::tokenizer::Tokenizer::new(&dialect, sql).tokenize() {
        Ok(tokens) => Some(tokens.iter().map(|token| match token {
            datafusion::sql::sqlparser::tokenizer::Token::Whitespace(_) => None,
            datafusion::sql::sqlparser::tokenizer::Token::Word(word) => Some(
                format!("{:?}", word.keyword),
            ),
            other => Some(other.to_string()),
        }).collect()),
        Err(_) => None,
    }
}

/// The tokens of a text without white space and comments.
pub open spec fn meaningful(tokens: Seq<Option<Seq<char>>>) -> Seq<Seq<char>>
    decreases tokens.len(),
{
    if tokens.len() == 0 {
        Seq::empty()
    } else {
        match tokens.last() {
            Some(token) => meaningful(tokens.drop_last()).push(token),
            None => meaningful(tokens.drop_last()),
        }
    }
}

/// A statement with this keyword may hold other statements.
pub open spec fn holds_statements(token: Seq<char>) -> bool {
    token == "EXPLAIN"@ || token == "DESC"@ || token == "DESCRIBE"@ || token == "BEGIN"@ || token
        == "IF"@ || token == "CASE"@ || token == "WHILE"@ || token == "PREPARE"@ || token
        == "CREATE"@
}

/// At this place the parser may begin to read a statement: at the start, behind
/// a semicolon, or anywhere behind a keyword of a statement that holds others.
pub open spec fn begins_statement(tokens: Seq<Seq<char>>, at: int) -> bool {
    &&& 0 <= at < tokens.len()
    &&& at == 0 || tokens[at - 1] == ";"@ || exists|k: int|
        0 <= k < at && holds_statements(#[trigger] tokens[k])
}

/// A token may be a name: it is a word or a text in quotes.
pub open spec fn may_be_name(token: Seq<char>) -> bool {
    token.len() > 0 && ('A' <= token[0] <= 'Z' || 'a' <= token[0] <= 'z' || token[0] == '\''
        || token[0] == '"')
}

/// At this place stands the last word of a statement that sets an authorization
/// for a name, of which the parser demands a scope: of `SET AUTHORIZATION` or
/// `SET HIVEVAR:AUTHORIZATION`.
pub open spec fn sets_authorization(tokens: Seq<Seq<char>>, at: int) -> bool {
    &&& 0 < at < tokens.len() - 1
    &&& tokens[at] == "AUTHORIZATION"@
    &&& may_be_name(tokens[at + 1])
    &&& (tokens[at - 1] == "SET"@ && begins_statement(tokens, at - 1)) || (at > 2 && tokens[at - 1]
        == ":"@ && tokens[at - 2] == "HIVEVAR"@ && tokens[at - 3] == "SET"@ && begins_statement(
        tokens,
        at - 3,
    ))
}

/// Behind this place stands a plain name and then the end of the statement.
pub open spec fn one_name_follows(tokens: Seq<Seq<char>>, at: int) -> bool {
    &&& 0 <= at < tokens.len() - 1
    &&& tokens[at + 1] == "NoKeyword"@
    &&& at + 2 == tokens.len() || tokens[at + 2] == ";"@
}

/// At this place the parser may begin to read a `FLUSH` statement.
pub open spec fn flushes(tokens: Seq<Seq<char>>, at: int) -> bool {
    begins_statement(tokens, at) && tokens[at] == "FLUSH"@
}

/// At this place ends `FLUSH RELAY LOGS FOR CHANNEL`, with at most one word behind
/// `FLUSH`, of which the parser demands a channel, and no plain name follows.
pub open spec fn names_relay_channel(tokens: Seq<Seq<char>>, at: int) -> bool {
    &&& 4 <= at < tokens.len()
    &&& tokens[at] == "CHANNEL"@
    &&& tokens[at - 1] == "FOR"@
    &&& tokens[at - 2] == "LOGS"@
    &&& tokens[at - 3] == "RELAY"@
    &&& flushes(tokens, at - 4) || flushes(tokens, at - 5)
    &&& !one_name_follows(tokens, at)
}

/// A statement with this first token is a query.
pub open spec fn starts_query(token: Seq<char>) -> bool {
    token == "SELECT"@ || token == "WITH"@ || token == "VALUES"@ || token == "FROM"@ || token
        == "("@
}

/// The tokens are those of one query: they start as a query does, and behind a
/// semicolon stand only more of them.
pub open spec fn one_query(tokens: Seq<Seq<char>>) -> bool {
    &&& tokens.len() > 0
    &&& starts_query(tokens[0])
    &&& forall|i: int|
        0 <= i < tokens.len() - 1 && #[trigger] tokens[i] == ";"@ ==> tokens[i + 1] == ";"@
}

/// The parser can be asked about a text: the text is one query, or it has none
/// of the statements that the parser cannot take.
pub open spec fn parseable(sql: Seq<char>) -> bool {
    match sql_tokens(sql) {
        Some(tokens) => can_be_parsed(meaningful(tokens)),
        None => true,
    }
}

/// Whether the parser can take these tokens.
pub open spec fn can_be_parsed(tokens: Seq<Seq<char>>) -> bool {
    one_query(tokens) || forall|at: int|
        #![trigger tokens[at]]
        0 <= at < tokens.len() ==> !sets_authorization(tokens, at) && !names_relay_channel(
            tokens,
            at,
        )
}

/// Parses a text with `datafusion::sql::parser::DFParser::parse_sql` and tells
/// of each statement whether it is a plain query. The result is a function of
/// the text alone and is named `sql_statements`. The parser panics on `SET
/// AUTHORIZATION` without a scope and on a relay log channel without a name,
/// both outside queries; such texts are left out.
#[verifier::external_body]
pub(crate) fn parse_sql(sql: &str) -> (result: Result<Vec<bool>, String>)
    requires
        parseable(sql@),
    ensures
        match sql_statements(sql@) {
            Ok(kinds) => result is Ok && result->Ok_0@ == kinds,
            Err(message) => result is Err && result->Err_0@ == message,
        },
{
    match datafusion::sql::parser::DFParser::parse_sql(sql) {
        Ok(statements) => Ok(statements.iter().map(|statement| match statement {
            datafusion::sql::parser::Statement::Statement(inner) => matches!(
                inner.as_ref(),
                datafusion::sql::sqlparser::ast::Statement::Query(_)
            ),
            _ => false,
        }).collect()),
        Err(error) => Err(error.to_string()),
    }
}

/// The rows of one batch of a query's answer, as Arrow holds them.
#[verifier::external_body]
pub struct AnswerBatch {
    pub batch: arrow_array::RecordBatch,
}

/// The types of the columns of a batch, each written with the `Debug` of
/// `arrow_schema::DataType`. They depend on the batch's schema alone and are
/// named `answer_types`.
#[verifier::external_body]
pub(crate) fn column_types(answer: &AnswerBatch) -> (result: Vec<String>)
    ensures
        crate::text::texts(result@) == answer_types(*answer),
{
    answer.batch.schema().fields().iter().map(
        |field| format!("{:?}", field.data_type()),
    ).collect()
}

/// Asks `arrow_array::RecordBatch::num_rows`. The answer depends on the batch
/// alone and is named `answer_length`.
#[verifier::external_body]
pub(crate) fn row_count(answer: &AnswerBatch) -> (result: usize)
    ensures
        result == answer_length(*answer),
{
    answer.batch.num_rows()
}

/// Asks `arrow_array::Array::null_count` of each column of a batch, which counts
/// the rows that the column's own validity bits mark as null. The answers depend
/// on the batch alone and are named `answer_nulls`.
#[verifier::external_body]
pub(crate) fn null_counts(answer: &AnswerBatch) -> (result: Vec<usize>)
    ensures
        result@ == answer_nulls(*answer),
{
    answer.batch.columns().iter().map(|column| column.null_count()).collect()
}

/// What is read of a type written out, from a place on, with the quoted names
/// left out. `quoted` tells whether the place is inside a name.
pub open spec fn unquoted_from(text: Seq<char>, at: int, quoted: bool) -> Seq<char>
    decreases text.len() - at,
{
    if at < 0 || at >= text.len() {
        Seq::empty()
    } else if quoted {
        if text[at] == '\\' && at + 1 < text.len() {
            unquoted_from(text, at + 2, true)
        } else {
            unquoted_from(text, at + 1, text[at] != '"')
        }
    } else if text[at] == '"' {
        unquoted_from(text, at + 1, true)
    } else {
        seq![text[at]] + unquoted_from(text, at + 1, false)
    }
}

/// A type written out, without the names in it.
pub open spec fn unquoted(text: Seq<char>) -> Seq<char> {
    unquoted_from(text, 0, false)
}

/// A type, written without names, holds a dictionary with these keys whose
/// values are nulls, or are runs while there are nulls somewhere in the type.
pub open spec fn null_dictionary(plain: Seq<char>, key: Seq<char>) -> bool {
    mentions(plain, "Dictionary("@ + key + ", Null)"@) || (mentions(
        plain,
        "Dictionary("@ + key + ", RunEndEncoded("@,
    ) && mentions(plain, "data_type: Null"@))
}

/// A column of this type can be written as JSON, whatever it holds.
pub open spec fn can_be_written(data_type: Seq<char>) -> bool {
    let plain = unquoted(data_type);
    &&& !null_dictionary(plain, "Int8"@)
    &&& !null_dictionary(plain, "Int16"@)
    &&& !null_dictionary(plain, "Int32"@)
    &&& !null_dictionary(plain, "Int64"@)
    &&& !null_dictionary(plain, "UInt8"@)
    &&& !null_dictionary(plain, "UInt16"@)
    &&& !null_dictionary(plain, "UInt32"@)
    &&& !null_dictionary(plain, "UInt64"@)
}

/// Each column can be written as JSON: its type can, or all of it is null.
pub open spec fn all_written(types: Seq<Seq<char>>, nulls: Seq<usize>, length: usize) -> bool {
    forall|i: int|
        0 <= i < types.len() ==> can_be_written(#[trigger] types[i]) || (i < nulls.len()
            && nulls[i] == length)
}

/// Gives the columns of a batch the given names with
/// `arrow_array::RecordBatch::try_new_with_options` and writes it with
/// `arrow_json::ArrayWriter` as a JSON list, one object for each row. The result
/// is a function of the batch and the names and is named `json_list_of`. The
/// writer panics on a dictionary of nulls with a key that is not null; columns
/// that may hold one are left out.
#[verifier::external_body]
pub(crate) fn write_json_list(answer: &AnswerBatch, names: &Vec<String>) -> (result: Result<
    Vec<u8>,
    String,
>)
    requires
        all_written(answer_types(*answer), answer_nulls(*answer), answer_length(*answer)),
        names@.len() == answer_types(*answer).len(),
    ensures
        match json_list_of(*answer, crate::text::texts(names@)) {
            Ok(bytes) => result is Ok && result->Ok_0@ == bytes,
            Err(message) => result is Err && result->Err_0@ == message,
        },
{
    let batch = &answer.batch;
    let named: arrow_schema::Fields = batch.schema().fields().iter().zip(names).map(
        |(field, name)| field.as_ref().clone().with_name(name),
    ).collect();
    let options = arrow_array::RecordBatchOptions::new().with_row_count(Some(batch.num_rows()));
    let schema = std::sync::Arc::new(arrow_schema::Schema::new(named));
    let mut writer = arrow_json::ArrayWriter::new(Vec::new());
    arrow_array::RecordBatch::try_new_with_options(schema, batch.columns().to_vec(), &options)
        .and_then(|renamed| writer.write(&renamed))
        .and_then(|_| writer.finish())
        .map(|_| writer.into_inner())
        .map_err(|error| error.to_string())
}

/// The models of rows of keys and values.
pub open spec fn row_entries(rows: Seq<Vec<(String, String)>>) -> Seq<Seq<(Seq<char>, Seq<char>)>> {
    Seq::new(rows.len(), |i: int| crate::schema::entries(rows[i]@))
}

/// Reads a JSON list of objects with `serde_json::from_slice` and gives each
/// object's keys with its values, each written back with its `Display`, which
/// adds no spaces. The result is a function of the bytes alone and is named
/// `json_rows`.
#[verifier::external_body]
pub(crate) fn parse_json_rows(bytes: &Vec<u8>) -> (result: Result<
    Vec<Vec<(String, String)>>,
    String,
>)
    ensures
        match json_rows(bytes@) {
            Ok(rows) => result is Ok && row_entries(result->Ok_0@) == rows,
            Err(message) => result is Err && result->Err_0@ == message,
        },
{
    match serde_json::from_slice::<Vec<serde_json::Map<String, serde_json::Value>>>(bytes) {
        Ok(rows) => Ok(rows.into_iter().map(|row| {
            row.into_iter().map(|(key, value)| (key, value.to_string())).collect()
        }).collect()),
        Err(error) => Err(error.to_string()),
    }
}

/// Reads text from bytes with `String::from_utf8_lossy`. Bytes that are valid
/// UTF-8 come back as the text they encode; of others only the name
/// `utf8_lossy` of the result is known.
#[verifier::external_body]
pub(crate) fn text_from_utf8_lossy(bytes: &Vec<u8>) -> (result: String)
    ensures
        result@ == utf8_lossy(bytes@),
        vstd::utf8::valid_utf8(bytes@) ==> result@ == vstd::utf8::decode_utf8(bytes@),
{
    String::from_utf8_lossy(bytes).into_owned()
}

/// Asks `char::is_alphanumeric`. Of ASCII characters the digits and the letters
/// are; of any other the answer is named `unicode_alphanumeric`.
#[verifier::external_body]
pub(crate) fn is_alphanumeric(character: char) -> (result: bool)
    ensures
        character as u32 > 0x7F ==> result == unicode_alphanumeric(character),
        result == is_word_char(character),
{
    character.is_alphanumeric()
}

/// The characters that `char::to_lowercase` yields, in order: one or more. Of
/// ASCII characters the capital letters become small and the others stay; what
/// comes of any other is named `unicode_lowercase`.
#[verifier::external_body]
pub(crate) fn lowercase(character: char) -> (result: Vec<char>)
    ensures
        character as u32 > 0x7F ==> result@ == unicode_lowercase(character),
        result@ == lower_chars(character),
        result@.len() > 0,
{
    character.to_lowercase().collect()
}

/// Tokens that mean nothing are left out, and the others keep their order.
pub proof fn law_meaningless_tokens_are_left_out(tokens: Seq<Option<Seq<char>>>, next: Seq<char>)
    ensures
        meaningful(Seq::empty()) == Seq::<Seq<char>>::empty(),
        meaningful(tokens.push(None)) == meaningful(tokens),
        meaningful(tokens.push(Some(next))) == meaningful(tokens).push(next),
{
    assert(tokens.push(None::<Seq<char>>).drop_last() =~= tokens);
    assert(tokens.push(Some(next)).drop_last() =~= tokens);
}

/// Only a text that speaks of an authorization or of a channel may be one that
/// cannot be parsed; a lone query always can be; and a text that begins with
/// setting the authorization to a name cannot.
pub proof fn law_which_tokens_can_be_parsed(tokens: Seq<Seq<char>>)
    ensures
        !tokens.contains("AUTHORIZATION"@) && !tokens.contains("CHANNEL"@)
            ==> can_be_parsed(tokens),
        tokens.len() > 0 && (tokens[0] == "SELECT"@ || tokens[0] == "WITH"@) && !tokens.contains(
            ";"@,
        ) ==> can_be_parsed(tokens),
        tokens.len() > 2 && tokens[0] == "SET"@ && tokens[1] == "AUTHORIZATION"@
            && tokens[2].len() > 0 && 'a' <= tokens[2][0] <= 'z' ==> !can_be_parsed(tokens),
        tokens.len() == 5 && tokens[0] == "FLUSH"@ && tokens[1] == "RELAY"@ && tokens[2] == "LOGS"@
            && tokens[3] == "FOR"@ && tokens[4] == "CHANNEL"@ ==> !can_be_parsed(tokens),
{
    if !tokens.contains("AUTHORIZATION"@) && !tokens.contains("CHANNEL"@) {
        assert forall|at: int|
            #![trigger tokens[at]]
            0 <= at < tokens.len() implies !sets_authorization(tokens, at) && !names_relay_channel(
            tokens,
            at,
        ) by {
            assert(tokens.contains(tokens[at]));
        }
    }
    if tokens.len() > 0 && !tokens.contains(";"@) {
        assert forall|i: int|
            0 <= i < tokens.len() - 1 && #[trigger] tokens[i] == ";"@ implies tokens[i + 1]
            == ";"@ by {
            assert(tokens.contains(tokens[i]));
        }
    }
    reveal_strlit("SET");
    reveal_strlit("FLUSH");
    reveal_strlit("SELECT");
    reveal_strlit("WITH");
    reveal_strlit("VALUES");
    reveal_strlit("FROM");
    reveal_strlit("(");
    assert("SET"@.len() == 3 && "FLUSH"@.len() == 5 && "SELECT"@.len() == 6 && "WITH"@.len() == 4
        && "VALUES"@.len() == 6 && "FROM"@.len() == 4 && "("@.len() == 1);
    if tokens.len() > 2 && tokens[0] == "SET"@ && tokens[1] == "AUTHORIZATION"@ && tokens[2].len()
        > 0 && 'a' <= tokens[2][0] <= 'z' {
        assert(sets_authorization(tokens, 1));
    }
    if tokens.len() == 5 && tokens[0] == "FLUSH"@ && tokens[1] == "RELAY"@ && tokens[2] == "LOGS"@
        && tokens[3] == "FOR"@ && tokens[4] == "CHANNEL"@ {
        assert(flushes(tokens, 0));
        assert(names_relay_channel(tokens, 4));
    }
}

/// A type whose description has no quotes cannot be written where it names a
/// dictionary of nulls, and can be where it names no dictionary.
pub proof fn law_a_dictionary_of_nulls_is_not_written(
    before: Seq<char>,
    key: Seq<char>,
    behind: Seq<char>,
)
    requires
        !before.contains('"'),
        !behind.contains('"'),
        key == "Int8"@ || key == "Int16"@ || key == "Int32"@ || key == "Int64"@ || key == "UInt8"@
            || key == "UInt16"@ || key == "UInt32"@ || key == "UInt64"@,
    ensures
        !can_be_written(before + ("Dictionary("@ + key + ", Null)"@) + behind),
{
    let middle = "Dictionary("@ + key + ", Null)"@;
    let text = before + middle + behind;
    reveal_strlit("Dictionary(");
    reveal_strlit(", Null)");
    reveal_strlit("Int8");
    reveal_strlit("Int16");
    reveal_strlit("Int32");
    reveal_strlit("Int64");
    reveal_strlit("UInt8");
    reveal_strlit("UInt16");
    reveal_strlit("UInt32");
    reveal_strlit("UInt64");
    assert forall|i: int| 0 <= i < text.len() implies #[trigger] text[i] != '"' by {
        if i < before.len() {
            assert(before.contains(before[i]));
        } else if i < before.len() + middle.len() {
            assert(text[i] == middle[i - before.len()]);
            if i - before.len() < 11 {
                assert(middle[i - before.len()] == "Dictionary("@[i - before.len()]);
            } else if i - before.len() < 11 + key.len() {
                assert(middle[i - before.len()] == key[i - before.len() - 11]);
            } else {
                assert(middle[i - before.len()] == ", Null)"@[i - before.len() - 11 - key.len()]);
            }
        } else {
            assert(behind.contains(behind[i - before.len() - middle.len()]));
        }
    }
    lemma_nothing_is_quoted(text, 0);
    assert(text.skip(0) =~= text);
    crate::storage::law_a_mention_is_a_part(before, middle, behind);
    assert(null_dictionary(text, key));
}

proof fn lemma_nothing_is_quoted(text: Seq<char>, at: int)
    requires
        0 <= at <= text.len(),
        forall|i: int| 0 <= i < text.len() ==> #[trigger] text[i] != '"',
    ensures
        unquoted_from(text, at, false) == text.skip(at),
    decreases text.len() - at,
{
    if at < text.len() {
        lemma_nothing_is_quoted(text, at + 1);
        assert(text.skip(at) =~= seq![text[at]] + text.skip(at + 1));
    } else {
        assert(text.skip(at) =~= Seq::<char>::empty());
    }
}

/// Columns are written where each has a type that can be, or holds nothing but
/// nulls.
pub proof fn law_which_columns_are_written(
    types: Seq<Seq<char>>,
    nulls: Seq<usize>,
    length: usize,
    at: int,
)
    requires
        0 <= at < types.len(),
        types.len() == nulls.len(),
    ensures
        all_written(types, nulls, length) ==> can_be_written(types[at]) || nulls[at] == length,
        (forall|i: int| 0 <= i < types.len()
            ==> can_be_written(#[trigger] types[i])) ==> all_written(
            types,
            nulls,
            length,
        ),
        (forall|i: int| 0 <= i < nulls.len() ==> #[trigger] nulls[i] == length) ==> all_written(
            types,
            nulls,
            length,
        ),
{
    if all_written(types, nulls, length) {
        assert(can_be_written(types[at]) || nulls[at] == length);
    }
    if forall|i: int| 0 <= i < nulls.len() ==> #[trigger] nulls[i] == length {
        assert forall|i: int| 0 <= i < types.len() implies can_be_written(#[trigger] types[i]) || (i
            < nulls.len() && nulls[i] == length) by {
            assert(nulls[i] == length);
        }
    }
}

} // verus!
