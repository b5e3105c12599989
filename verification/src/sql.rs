//! SQL text for the filters handed to a table scan.
//!
//! Every value a caller supplies reaches the scan inside a single-quoted
//! literal. A quote inside the value is written twice, so that a reader of the
//! literal gets back exactly the value.

use vstd::prelude::*;

use crate::text::{join3, push_char, texts};

verus! {

/// How one character is written inside a quoted literal.
pub open spec fn escaped_char(character: char) -> Seq<char> {
    if character == '\'' {
        seq!['\'', '\'']
    } else {
        seq![character]
    }
}

/// `value` with every quote doubled.
pub open spec fn escaped(value: Seq<char>) -> Seq<char>
    decreases value.len(),
{
    if value.len() == 0 {
        Seq::empty()
    } else {
        escaped_char(value[0]) + escaped(value.drop_first())
    }
}

/// `value` as a quoted literal.
pub open spec fn quoted(value: Seq<char>) -> Seq<char> {
    seq!['\''] + escaped(value) + seq!['\'']
}

/// The values as quoted literals with commas between them.
pub open spec fn quoted_list(values: Seq<Seq<char>>) -> Seq<char>
    decreases values.len(),
{
    if values.len() == 0 {
        Seq::empty()
    } else if values.len() == 1 {
        quoted(values[0])
    } else {
        quoted(values[0]) + seq![','] + quoted_list(values.drop_first())
    }
}

/// The filter that keeps rows whose `column` equals `value`.
pub open spec fn equals_text(column: Seq<char>, value: Seq<char>) -> Seq<char> {
    column + " = "@ + quoted(value)
}

/// The filter that keeps rows whose `column` is one of `values`.
pub open spec fn one_of_text(column: Seq<char>, values: Seq<Seq<char>>) -> Seq<char> {
    column + " IN ("@ + quoted_list(values) + ")"@
}

/// What a reader of a literal gets, from just behind its opening quote: the
/// value, and the text behind the closing quote. `None` where no quote closes
/// the literal.
pub open spec fn read_literal(text: Seq<char>) -> Option<(Seq<char>, Seq<char>)>
    decreases text.len(),
{
    if text.len() == 0 {
        None
    } else if text[0] != '\'' {
        match read_literal(text.skip(1)) {
            Some((value, rest)) => Some((seq![text[0]] + value, rest)),
            None => None,
        }
    } else if text.len() > 1 && text[1] == '\'' {
        match read_literal(text.skip(2)) {
            Some((value, rest)) => Some((seq!['\''] + value, rest)),
            None => None,
        }
    } else {
        Some((Seq::empty(), text.skip(1)))
    }
}

/// What a reader of a comma-separated list of literals gets.
pub open spec fn read_list(text: Seq<char>) -> Option<Seq<Seq<char>>>
    decreases text.len(),
{
    if text.len() == 0 {
        Some(Seq::empty())
    } else if text[0] != '\'' {
        None
    } else {
        match read_literal(text.skip(1)) {
            None => None,
            Some((value, rest)) => if rest.len() == 0 {
                Some(seq![value])
            } else if rest[0] != ',' || rest.len() >= text.len() {
                None
            } else {
                match read_list(rest.skip(1)) {
                    Some(others) => Some(seq![value] + others),
                    None => None,
                }
            },
        }
    }
}

proof fn lemma_escaped_push(value: Seq<char>, character: char)
    ensures
        escaped(value.push(character)) == escaped(value) + escaped_char(character),
    decreases value.len(),
{
    if value.len() == 0 {
        reveal_with_fuel(escaped, 2);
        assert(value.push(character).drop_first() =~= Seq::<char>::empty());
        assert(escaped(value.push(character)) =~= escaped(value) + escaped_char(character));
    } else {
        lemma_escaped_push(value.drop_first(), character);
        assert(value.push(character).drop_first() =~= value.drop_first().push(character));
        assert(escaped(value.push(character)) =~= escaped(value) + escaped_char(character));
    }
}

proof fn lemma_quoted_list_push(values: Seq<Seq<char>>, value: Seq<char>)
    requires
        values.len() > 0,
    ensures
        quoted_list(values.push(value)) == quoted_list(values) + seq![','] + quoted(value),
    decreases values.len(),
{
    let longer = values.push(value);
    if values.len() == 1 {
        assert(longer.drop_first() =~= seq![value]);
        assert(quoted_list(longer.drop_first()) == quoted(value));
    } else {
        lemma_quoted_list_push(values.drop_first(), value);
        assert(longer.drop_first() =~= values.drop_first().push(value));
    }
    assert(quoted_list(longer) =~= quoted_list(values) + seq![','] + quoted(value));
}

/// A quoted literal denotes exactly the value it was made from: a reader that
/// starts behind the opening quote gets the value back and stops right behind
/// the closing quote, whatever quotes the value holds, as long as the text
/// that follows does not itself start with a quote.
pub proof fn law_literal_reads_back(value: Seq<char>, rest: Seq<char>)
    requires
        rest.len() == 0 || rest[0] != '\'',
    ensures
        read_literal(escaped(value) + seq!['\''] + rest) == Some((value, rest)),
    decreases value.len(),
{
    let text = escaped(value) + seq!['\''] + rest;
    if value.len() == 0 {
        assert(text =~= seq!['\''] + rest);
        assert(text.skip(1) =~= rest);
        assert(read_literal(text) == Some((Seq::<char>::empty(), rest)));
        assert(value =~= Seq::<char>::empty());
    } else {
        let tail = escaped(value.drop_first()) + seq!['\''] + rest;
        law_literal_reads_back(value.drop_first(), rest);
        assert(text =~= escaped_char(value[0]) + tail);
        if value[0] == '\'' {
            assert(text.skip(2) =~= tail);
        } else {
            assert(text.skip(1) =~= tail);
        }
        assert(seq![value[0]] + value.drop_first() =~= value);
    }
}

/// A list of quoted literals denotes exactly the values it was made from, in
/// order: nothing a value holds can end its literal or start another one.
pub proof fn law_list_reads_back(values: Seq<Seq<char>>)
    ensures
        read_list(quoted_list(values)) == Some(values),
    decreases values.len(),
{
    let text = quoted_list(values);
    if values.len() == 0 {
        assert(values =~= Seq::<Seq<char>>::empty());
    } else if values.len() == 1 {
        law_literal_reads_back(values[0], Seq::empty());
        assert(text.skip(1) =~= escaped(values[0]) + seq!['\''] + Seq::<char>::empty());
        assert(values =~= seq![values[0]]);
    } else {
        let rest = seq![','] + quoted_list(values.drop_first());
        law_literal_reads_back(values[0], rest);
        law_list_reads_back(values.drop_first());
        assert(text.skip(1) =~= escaped(values[0]) + seq!['\''] + rest);
        assert(rest.skip(1) =~= quoted_list(values.drop_first()));
        assert(seq![values[0]] + values.drop_first() =~= values);
    }
}

/// Two values have the same escaped form only if they are the same.
pub proof fn law_escape_is_injective(left: Seq<char>, right: Seq<char>)
    requires
        escaped(left) == escaped(right),
    ensures
        left == right,
{
    law_literal_reads_back(left, Seq::empty());
    law_literal_reads_back(right, Seq::empty());
}

/// Doubles every quote of `value`, so that it can stand inside a quoted
/// literal.
pub fn escape_sql_literal(value: &str) -> (result: String)
    ensures
        result@ == escaped(value@),
{
    let mut result = String::new();
    let ghost whole = value@;
    proof {
        assert(whole.take(0) =~= Seq::<char>::empty());
    }
    for character in it: value.chars()
        invariant
            it.seq() == whole,
            result@ == escaped(whole.take(it.index() as int)),
    {
        proof {
            let done = it.index() as int;
            assert(whole.take(done + 1) =~= whole.take(done).push(character));
            lemma_escaped_push(whole.take(done), character);
        }
        push_char(&mut result, character);
        if character == '\'' {
            push_char(&mut result, '\'');
        }
        assert(result@ =~= escaped(whole.take(it.index() as int)) + escaped_char(character));
    }
    assert(whole.take(whole.len() as int) =~= whole);
    result
}

/// `value` as a quoted literal.
pub fn quote_sql_literal(value: &str) -> (result: String)
    ensures
        result@ == quoted(value@),
{
    let body = escape_sql_literal(value);
    let result = join3("'", body.as_str(), "'");
    proof {
        reveal_strlit("'");
        assert("'"@ =~= seq!['\'']);
    }
    result
}

/// Renders the values of an `IN (...)` clause: quoted literals with commas
/// between them.
pub fn sql_quoted_list(values: &Vec<String>) -> (result: String)
    ensures
        result@ == quoted_list(texts(values@)),
{
    let ghost all = texts(values@);
    let mut result = String::new();
    let mut index: usize = 0;
    assert(all.take(0) =~= Seq::<Seq<char>>::empty());
    while index < values.len()
        invariant
            index <= values.len(),
            all == texts(values@),
            result@ == quoted_list(all.take(index as int)),
        decreases values.len() - index,
    {
        let literal = quote_sql_literal(values[index].as_str());
        proof {
            assert(all.take(index + 1) =~= all.take(index as int).push(values[index as int]@));
            if index > 0 {
                lemma_quoted_list_push(all.take(index as int), all[index as int]);
            } else {
                assert(all.take(1)[0] == all[0]);
            }
        }
        if index > 0 {
            push_char(&mut result, ',');
        }
        result.append(literal.as_str());
        assert(result@ =~= quoted_list(all.take(index + 1)));
        index = index + 1;
    }
    assert(all.take(all.len() as int) =~= all);
    result
}

/// The filter `column = 'value'`.
pub fn equality_filter(column: &str, value: &str) -> (result: String)
    ensures
        result@ == equals_text(column@, value@),
{
    let literal = quote_sql_literal(value);
    join3(column, " = ", literal.as_str())
}

/// The filter `column IN ('a','b',...)`.
pub fn membership_filter(column: &str, values: &Vec<String>) -> (result: String)
    ensures
        result@ == one_of_text(column@, texts(values@)),
{
    let list = sql_quoted_list(values);
    let mut result = join3(column, " IN (", list.as_str());
    result.append(")");
    result
}

/// Escaping doubles each quote and leaves every other character, and a literal
/// stands between two quotes.
pub proof fn law_escaping_doubles_quotes(left: Seq<char>, right: Seq<char>, character: char)
    ensures
        escaped(Seq::empty()) == Seq::<char>::empty(),
        escaped(left + right) == escaped(left) + escaped(right),
        escaped(seq![character]) == if character == '\'' {
            seq![character, character]
        } else {
            seq![character]
        },
        quoted(left) == "'"@ + escaped(left) + "'"@,
    decreases left.len(),
{
    reveal_strlit("'");
    assert("'"@ =~= seq!['\'']);
    assert(seq![character].drop_first() =~= Seq::<char>::empty());
    assert(escaped(Seq::empty()) =~= Seq::<char>::empty());
    assert(escaped(seq![character]) =~= escaped_char(character));
    if left.len() == 0 {
        assert(left + right =~= right);
        assert(escaped(left) + escaped(right) =~= escaped(right));
    } else {
        law_escaping_doubles_quotes(left.drop_first(), right, character);
        assert((left + right).drop_first() =~= left.drop_first() + right);
        assert(escaped(left + right) =~= escaped(left) + escaped(right));
    }
}

/// A condition names its column first. A list of values stands in brackets, each
/// as a literal, with a comma between each two.
pub proof fn law_a_condition_names_its_column(
    column: Seq<char>,
    value: Seq<char>,
    values: Seq<Seq<char>>,
)
    ensures
        equals_text(column, value) == column + " = "@ + quoted(value),
        one_of_text(column, seq![value]) == column + " IN ("@ + quoted(value) + ")"@,
        values.len() > 0
            ==> quoted_list(seq![value] + values) == quoted(value) + ","@ + quoted_list(
            values,
        ),
        one_of_text(column, values) == column + " IN ("@ + quoted_list(values) + ")"@,
{
    reveal_strlit(",");
    assert(","@ =~= seq![',']);
    assert((seq![value] + values).drop_first() =~= values);
}

} // verus!
