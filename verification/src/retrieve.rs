//! The words that lexical retrieval compares.

use vstd::prelude::*;

use crate::order::chars_of;
use crate::outside::{is_alphanumeric, is_word_char, lower_chars, lowercase};
use crate::text::{contains_text, push_char, texts};

verus! {

/// The words that are complete after the first `count` characters, and the
/// word that is still being read.
pub open spec fn words_upto(text: Seq<char>, count: nat) -> (Seq<Seq<char>>, Seq<char>)
    decreases count,
{
    if count == 0 {
        (Seq::empty(), Seq::empty())
    } else {
        let (words, current) = words_upto(text, (count - 1) as nat);
        let character = text[count - 1];
        if is_word_char(character) {
            (words, current + lower_chars(character))
        } else if current.len() > 0 {
            (words.push(current), Seq::empty())
        } else {
            (words, current)
        }
    }
}

/// The words of a text, in lower case: the longest runs of letters and
/// numbers.
pub open spec fn words_of(text: Seq<char>) -> Seq<Seq<char>> {
    let (words, current) = words_upto(text, text.len());
    if current.len() > 0 {
        words.push(current)
    } else {
        words
    }
}

/// How many runs of letters and numbers begin in the first `count` characters.
pub open spec fn runs_upto(text: Seq<char>, count: nat) -> nat
    decreases count,
{
    if count == 0 {
        0
    } else {
        let earlier = runs_upto(text, (count - 1) as nat);
        if is_word_char(text[count - 1]) && (count == 1 || !is_word_char(text[count - 2])) {
            earlier + 1
        } else {
            earlier
        }
    }
}

proof fn lemma_no_runs(text: Seq<char>, count: nat)
    requires
        count <= text.len(),
    ensures
        runs_upto(text, count) == 0 <==> forall|i: int|
            0 <= i < count ==> !is_word_char(#[trigger] text[i]),
    decreases count,
{
    if count > 0 {
        lemma_no_runs(text, (count - 1) as nat);
        if runs_upto(text, count) > 0 && runs_upto(text, (count - 1) as nat) == 0 {
            assert(is_word_char(text[count - 1]));
        }
        if is_word_char(text[count - 1]) && count > 1 && is_word_char(text[count - 2]) {
            assert(runs_upto(text, (count - 1) as nat) > 0);
        }
    }
}

fn push_chars(target: &mut String, characters: &Vec<char>)
    ensures
        final(target)@ == old(target)@ + characters@,
{
    let ghost start = target@;
    let mut index: usize = 0;
    assert(start + characters@.take(0) =~= start);
    while index < characters.len()
        invariant
            index <= characters.len(),
            target@ == start + characters@.take(index as int),
        decreases characters.len() - index,
    {
        push_char(target, characters[index]);
        assert(start + characters@.take(index + 1) =~= (start + characters@.take(
            index as int,
        )).push(characters@[index as int]));
        index = index + 1;
    }
    assert(characters@.take(characters@.len() as int) =~= characters@);
}

/// Splits a text into its words, in lower case: one for each run of letters and
/// numbers.
pub fn tokenize_for_retrieval(text: &str) -> (result: Vec<String>)
    ensures
        texts(result@) == words_of(text@),
        result@.len() == runs_upto(text@, text@.len()),
{
    let characters = chars_of(text);
    let mut words: Vec<String> = Vec::new();
    let mut current = String::new();
    let mut index: usize = 0;
    assert(texts(words@) =~= Seq::<Seq<char>>::empty());
    while index < characters.len()
        invariant
            index <= characters.len(),
            characters@ == text@,
            (texts(words@), current@) == words_upto(text@, index as nat),
            current@.len() > 0 <==> index > 0 && is_word_char(text@[index - 1]),
            words@.len() + (if current@.len() > 0 {
                1int
            } else {
                0int
            }) == runs_upto(text@, index as nat),
        decreases characters.len() - index,
    {
        let character = characters[index];
        if is_alphanumeric(character) {
            let lower = lowercase(character);
            push_chars(&mut current, &lower);
        } else if !current.as_str().is_empty() {
            let ghost before = words@;
            words.push(current);
            assert(texts(words@) =~= texts(before).push(current@));
            current = String::new();
            assert(current@ =~= Seq::<char>::empty());
        }
        index = index + 1;
    }
    if !current.as_str().is_empty() {
        let ghost before = words@;
        words.push(current);
        assert(texts(words@) =~= texts(before).push(current@));
    }
    words
}

/// The values of a list, each at its first place.
pub open spec fn first_occurrences(values: Seq<Seq<char>>) -> Seq<Seq<char>>
    decreases values.len(),
{
    if values.len() == 0 {
        Seq::empty()
    } else {
        let earlier = first_occurrences(values.drop_last());
        if values.drop_last().contains(values.last()) {
            earlier
        } else {
            earlier.push(values.last())
        }
    }
}

proof fn lemma_first_occurrences(values: Seq<Seq<char>>)
    ensures
        forall|value: Seq<char>|
            #[trigger] first_occurrences(values).contains(value) == values.contains(value),
        first_occurrences(values).no_duplicates(),
    decreases values.len(),
{
    if values.len() > 0 {
        let shorter = values.drop_last();
        let last = values.last();
        let earlier = first_occurrences(shorter);
        lemma_first_occurrences(shorter);
        assert(earlier.contains(last) == shorter.contains(last));
        assert forall|value: Seq<char>| #[trigger] first_occurrences(values).contains(value)
            == values.contains(value) by {
            assert(earlier.contains(value) == shorter.contains(value));
            if shorter.contains(value) {
                let at = choose|at: int| 0 <= at < shorter.len() && shorter[at] == value;
                assert(values[at] == value);
            }
            if earlier.contains(value) {
                let at = choose|at: int| 0 <= at < earlier.len() && earlier[at] == value;
                assert(first_occurrences(values)[at] == value);
            }
            assert(values[values.len() - 1] == last);
            if values.contains(value) && value != last {
                let at = choose|at: int| 0 <= at < values.len() && values[at] == value;
                assert(shorter[at] == value);
            }
            if !shorter.contains(last) {
                assert(first_occurrences(values)[earlier.len() as int] == last);
            }
            if first_occurrences(values).contains(value) && !earlier.contains(value) {
                let at = choose|at: int|
                    0 <= at < first_occurrences(values).len() && first_occurrences(values)[at]
                        == value;
                if at < earlier.len() {
                    assert(earlier[at] == value);
                }
            }
        }
    }
}

/// The terms of a query are its words, each once, and no word is empty.
pub proof fn law_query_terms_are_the_words(text: Seq<char>)
    ensures
        first_occurrences(words_of(text)).no_duplicates(),
        forall|word: Seq<char>|
            #[trigger] first_occurrences(words_of(text)).contains(word) == words_of(text).contains(
                word,
            ),
        forall|i: int| 0 <= i < words_of(text).len() ==> (#[trigger] words_of(text)[i]).len() > 0,
{
    lemma_first_occurrences(words_of(text));
    lemma_words_are_not_empty(text, text.len());
}

proof fn lemma_words_are_not_empty(text: Seq<char>, count: nat)
    ensures
        forall|i: int|
            0 <= i < words_upto(text, count).0.len() ==> (#[trigger] words_upto(
                text,
                count,
            ).0[i]).len() > 0,
    decreases count,
{
    if count > 0 {
        lemma_words_are_not_empty(text, (count - 1) as nat);
        let earlier = words_upto(text, (count - 1) as nat).0;
        assert forall|i: int| 0 <= i < words_upto(text, count).0.len() implies (
        #[trigger] words_upto(text, count).0[i]).len() > 0 by {
            if i < earlier.len() {
                assert(words_upto(text, count).0[i] == earlier[i]);
            }
        }
    }
}

/// The words of a query, each once. There are none only where the query has no
/// letter and no number.
pub fn unique_query_terms(text: &str) -> (result: Vec<String>)
    ensures
        texts(result@) == first_occurrences(words_of(text@)),
        result@.len() == 0 <==> forall|i: int|
            0 <= i < text@.len() ==> !is_word_char(#[trigger] text@[i]),
{
    let words = tokenize_for_retrieval(text);
    let ghost all = texts(words@);
    let mut result: Vec<String> = Vec::new();
    let mut index: usize = 0;
    proof {
        assert(all.take(0) =~= Seq::<Seq<char>>::empty());
        assert(texts(result@) =~= Seq::<Seq<char>>::empty());
    }
    while index < words.len()
        invariant
            index <= words.len(),
            all == texts(words@),
            texts(result@) == first_occurrences(all.take(index as int)),
        decreases words.len() - index,
    {
        let word = words[index].as_str();
        proof {
            assert(all.take(index + 1).drop_last() =~= all.take(index as int));
            assert(all.take(index + 1).last() == word@);
            lemma_first_occurrences(all.take(index as int));
        }
        let ghost before = result@;
        if !contains_text(&result, word) {
            result.push(words[index].clone());
            assert(texts(result@) =~= texts(before).push(word@));
        }
        index = index + 1;
    }
    assert(all.take(all.len() as int) =~= all);
    proof {
        lemma_no_runs(text@, text@.len());
        lemma_first_occurrences(all);
        assert(texts(result@).len() == result@.len() && all.len() == words@.len());
        if all.len() > 0 {
            assert(all.contains(all[0]));
            assert(texts(result@).contains(all[0]));
        }
    }
    result
}

/// How many of the first `count` terms are among the words.
pub open spec fn matched_terms(terms: Seq<Seq<char>>, words: Seq<Seq<char>>, count: nat) -> nat
    decreases count,
{
    if count == 0 {
        0
    } else {
        matched_terms(terms, words, (count - 1) as nat) + (if words.contains(terms[count - 1]) {
            1nat
        } else {
            0nat
        })
    }
}

/// How many of a query's terms a text holds, and out of how many; none where
/// it holds no term.
pub open spec fn lexical_match_of(terms: Seq<Seq<char>>, text: Option<Seq<char>>) -> Option<
    (nat, nat),
> {
    match text {
        Some(payload) => {
            let matched = matched_terms(terms, words_of(payload), terms.len());
            if matched == 0 {
                None
            } else {
                Some((matched, terms.len()))
            }
        },
        None => None,
    }
}

/// How many of a query's terms a text holds, and out of how many. The lexical
/// score of the text is the quotient of the two.
pub fn lexical_match(terms: &Vec<String>, text: &Option<String>) -> (result: Option<(usize, usize)>)
    ensures
        match lexical_match_of(texts(terms@), crate::text::opt_text(*text)) {
            Some((matched, total)) => result is Some && result->Some_0.0 == matched
                && result->Some_0.1 == total,
            None => result is None,
        },
{
    let payload = match text {
        Some(payload) => payload,
        None => {
            return None;
        },
    };
    let words = tokenize_for_retrieval(payload.as_str());
    let ghost all = texts(terms@);
    let ghost found = words_of(payload@);
    let mut matched: usize = 0;
    let mut index: usize = 0;
    while index < terms.len()
        invariant
            index <= terms.len(),
            matched <= index,
            all == texts(terms@),
            found == texts(words@),
            matched == matched_terms(all, found, index as nat),
        decreases terms.len() - index,
    {
        assert(all[index as int] == terms@[index as int]@);
        if contains_text(&words, terms[index].as_str()) {
            matched = matched + 1;
        }
        index = index + 1;
    }
    if matched == 0 {
        None
    } else {
        Some((matched, terms.len()))
    }
}

/// A lexical match is a share of the query's terms: at least one of them, and
/// at most all.
pub proof fn law_lexical_match_is_a_share(terms: Seq<Seq<char>>, text: Option<Seq<char>>)
    ensures
        match lexical_match_of(terms, text) {
            Some((matched, total)) => 1 <= matched <= total && total == terms.len(),
            None => true,
        },
{
    if text is Some {
        lemma_matched_bound(terms, words_of(text->Some_0), terms.len());
    }
}

proof fn lemma_matched_bound(terms: Seq<Seq<char>>, words: Seq<Seq<char>>, count: nat)
    ensures
        matched_terms(terms, words, count) <= count,
    decreases count,
{
    if count > 0 {
        lemma_matched_bound(terms, words, (count - 1) as nat);
    }
}

/// A character that is neither letter nor number parts the words before it from
/// the words after it and leaves them as they are. A run of letters and numbers
/// is one word, the lower case of its characters one after the other.
pub proof fn law_words_are_runs_in_lower_case(
    left: Seq<char>,
    apart: char,
    right: Seq<char>,
    run: Seq<char>,
    next: char,
)
    ensures
        words_of(Seq::empty()) == Seq::<Seq<char>>::empty(),
        !is_word_char(apart) ==> words_of(left.push(apart) + right) == words_of(left) + words_of(
            right,
        ),
        is_word_char(next) && lower_chars(next).len() > 0 ==> words_of(seq![next]) == seq![
            lower_chars(next),
        ],
        is_word_char(next) && run.len() > 0 && (forall|i: int|
            0 <= i < run.len() ==> is_word_char(#[trigger] run[i]) && lower_chars(run[i]).len() > 0)
            ==> words_of(run).len() == 1 && words_of(run.push(next)) == seq![
            words_of(run)[0] + lower_chars(next),
        ],
{
    if !is_word_char(apart) {
        let whole = left.push(apart) + right;
        assert(whole.take(left.len() as int) =~= left);
        lemma_words_of_the_start(whole, left, left.len());
        assert(whole[left.len() as int] == apart);
        assert(words_upto(whole, left.len() + 1) == (words_of(left), Seq::<char>::empty()));
        lemma_words_after(whole, words_of(left), left.len() + 1, right, right.len());
        let (words, current) = words_upto(right, right.len());
        if current.len() > 0 {
            assert((words_of(left) + words).push(current) =~= words_of(left) + words.push(current));
        }
        assert(whole.len() == left.len() + 1 + right.len());
    }
    if is_word_char(next) && lower_chars(next).len() > 0 {
        let one = seq![next];
        assert(words_upto(one, 0) == (Seq::<Seq<char>>::empty(), Seq::<char>::empty()));
        assert(words_upto(one, 1).1 =~= lower_chars(next));
        assert(words_of(one) =~= seq![lower_chars(next)]);
    }
    if is_word_char(next) && run.len() > 0 && (forall|i: int|
        0 <= i < run.len() ==> is_word_char(#[trigger] run[i]) && lower_chars(run[i]).len() > 0) {
        lemma_one_run(run, run.len());
        let longer = run.push(next);
        assert(longer.take(run.len() as int) =~= run);
        lemma_words_of_the_start(longer, run, run.len());
        assert(longer[run.len() as int] == next);
        assert(words_of(run) =~= seq![words_upto(run, run.len()).1]);
        assert(words_of(longer) =~= seq![words_of(run)[0] + lower_chars(next)]);
    }
}

proof fn lemma_words_of_the_start(text: Seq<char>, start: Seq<char>, count: nat)
    requires
        count <= start.len() <= text.len(),
        text.take(start.len() as int) == start,
    ensures
        words_upto(text, count) == words_upto(start, count),
    decreases count,
{
    if count > 0 {
        lemma_words_of_the_start(text, start, (count - 1) as nat);
        assert(text.take(start.len() as int)[count - 1] == text[count - 1]);
    }
}

proof fn lemma_words_after(
    text: Seq<char>,
    before: Seq<Seq<char>>,
    from: nat,
    rest: Seq<char>,
    count: nat,
)
    requires
        words_upto(text, from) == (before, Seq::<char>::empty()),
        text.len() == from + rest.len(),
        forall|i: int| 0 <= i < rest.len() ==> text[from + i] == #[trigger] rest[i],
        count <= rest.len(),
    ensures
        words_upto(text, from + count) == (before + words_upto(rest, count).0, words_upto(
            rest,
            count,
        ).1),
    decreases count,
{
    if count == 0 {
        assert(before + Seq::<Seq<char>>::empty() =~= before);
    } else {
        let earlier = (count - 1) as nat;
        lemma_words_after(text, before, from, rest, earlier);
        assert(text[(from + earlier) as int] == rest[earlier as int]);
        let (words, current) = words_upto(rest, earlier);
        assert((before + words).push(current) =~= before + words.push(current));
    }
}

proof fn lemma_one_run(run: Seq<char>, count: nat)
    requires
        count <= run.len(),
        forall|i: int|
            0 <= i < run.len() ==> is_word_char(#[trigger] run[i]) && lower_chars(run[i]).len() > 0,
    ensures
        words_upto(run, count).0.len() == 0,
        count > 0 ==> words_upto(run, count).1.len() > 0,
    decreases count,
{
    if count > 0 {
        lemma_one_run(run, (count - 1) as nat);
        assert(is_word_char(run[count - 1]));
    }
}

/// Each value is kept once, at the place where it first stands, and the kept ones
/// keep their order.
pub proof fn law_values_are_kept_where_they_first_stand(
    values: Seq<Seq<char>>,
) -> (places: Seq<int>)
    ensures
        places.len() == first_occurrences(values).len(),
        forall|k: int|
            0 <= k < places.len() ==> 0 <= #[trigger] places[k] < values.len() && values[places[k]]
                == first_occurrences(values)[k],
        forall|k: int, i: int|
            0 <= k < places.len() && 0 <= i < #[trigger] places[k] ==> #[trigger] values[i]
                != first_occurrences(values)[k],
        forall|j: int, k: int|
            0 <= j < k < places.len() ==> #[trigger] places[j] < #[trigger] places[k],
        forall|i: int|
            0 <= i < values.len() ==> first_occurrences(values).contains(#[trigger] values[i]),
    decreases values.len(),
{
    lemma_first_occurrences(values);
    assert forall|i: int| 0 <= i < values.len() implies first_occurrences(values).contains(
        #[trigger] values[i],
    ) by {
        assert(values.contains(values[i]));
    }
    if values.len() == 0 {
        Seq::empty()
    } else {
        let rest = values.drop_last();
        let earlier = law_values_are_kept_where_they_first_stand(rest);
        if rest.contains(values.last()) {
            assert forall|k: int, i: int|
                0 <= k < earlier.len()
                    && 0 <= i < #[trigger] earlier[k] implies #[trigger] values[i]
                != first_occurrences(values)[k] by {
                assert(rest[i] == values[i]);
            }
            earlier
        } else {
            let places = earlier.push(values.len() - 1);
            assert forall|k: int, i: int|
                0 <= k < places.len() && 0 <= i < #[trigger] places[k] implies #[trigger] values[i]
                != first_occurrences(values)[k] by {
                assert(rest[i] == values[i]);
                if k == earlier.len() {
                    assert(rest.contains(rest[i]));
                } else {
                    assert(earlier[k] == places[k]);
                }
            }
            places
        }
    }
}

/// A match counts the query's terms that are words of the text.
pub proof fn law_a_match_counts_the_terms_in_the_text(
    terms: Seq<Seq<char>>,
    text: Option<Seq<char>>,
)
    requires
        terms.no_duplicates(),
    ensures
        text is None ==> lexical_match_of(terms, text) is None,
        text matches Some(payload) ==> {
            let shared = terms.to_set().intersect(words_of(payload).to_set());
            &&& shared.len() == 0 ==> lexical_match_of(terms, text) is None
            &&& shared.len() > 0 ==> lexical_match_of(terms, text) == Some(
                (shared.len(), terms.len()),
            )
        },
{
    if let Some(payload) = text {
        lemma_matched_terms_are_shared(terms, words_of(payload), terms.len());
        assert(terms.take(terms.len() as int) =~= terms);
    }
}

proof fn lemma_matched_terms_are_shared(terms: Seq<Seq<char>>, words: Seq<Seq<char>>, count: nat)
    requires
        terms.no_duplicates(),
        count <= terms.len(),
    ensures
        terms.take(count as int).to_set().intersect(words.to_set()).len() == matched_terms(
            terms,
            words,
            count,
        ),
        terms.take(count as int).to_set().intersect(words.to_set()).finite(),
    decreases count,
{
    let shared = terms.take(count as int).to_set().intersect(words.to_set());
    if count == 0 {
        assert(shared =~= Set::<Seq<char>>::empty());
    } else {
        let earlier = terms.take(count - 1).to_set().intersect(words.to_set());
        lemma_matched_terms_are_shared(terms, words, (count - 1) as nat);
        let term = terms[count - 1];
        assert(terms.take(count as int) =~= terms.take(count - 1).push(term));
        assert forall|word: Seq<char>|
            #[trigger] terms.take(count as int).contains(word)
                == (terms.take(count - 1).contains(word)
                || word == term) by {
            if terms.take(count - 1).contains(word) {
                let at = terms.take(count - 1).index_of(word);
                assert(terms.take(count as int)[at] == word);
            }
            assert(terms.take(count as int)[count - 1] == term);
            if terms.take(count as int).contains(word) && word != term {
                let at = terms.take(count as int).index_of(word);
                assert(terms.take(count - 1)[at] == word);
            }
        }
        if terms.take(count - 1).contains(term) {
            let at = terms.take(count - 1).index_of(term);
            assert(terms[at] == term);
        }
        if words.contains(term) {
            assert(shared =~= earlier.insert(term));
        } else {
            assert(shared =~= earlier);
        }
    }
}

} // verus!
