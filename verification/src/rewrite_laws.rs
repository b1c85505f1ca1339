use vstd::prelude::*;
use crate::rewrite::{
    admissible, admissible_choices, expansion, fires_at, is_candidate, is_rewrite,
    lemma_expansion_prefix, picked, production,
};
use crate::rule::{Rule, PROBABILITY_ONE};

verus! {

/// No rule is a candidate for any of the symbols.
pub open spec fn unmatched(rules: Seq<Rule>, input: Seq<char>) -> bool {
    forall|k: int, i: int| 0 <= k < input.len() ==> !#[trigger] is_candidate(rules, input[k], i)
}

/// Symbols without a rule are copied: where no rule is a candidate for any
/// symbol of `input`, every next generation of `input` is `input` itself.
pub proof fn lemma_unmatched_unchanged(rules: Seq<Rule>, input: Seq<char>, output: Seq<char>)
    requires
        unmatched(rules, input),
        is_rewrite(rules, input, output),
    ensures
        output == input,
{
    let choices = choose|choices: Seq<Option<usize>>| #[trigger]
        admissible_choices(rules, input, choices) && output == expansion(
            rules,
            input,
            choices,
            input.len() as int,
        );
    lemma_unmatched_prefix(rules, input, choices, input.len() as int);
    assert(input.subrange(0, input.len() as int) =~= input);
}

proof fn lemma_unmatched_prefix(
    rules: Seq<Rule>,
    input: Seq<char>,
    choices: Seq<Option<usize>>,
    n: int,
)
    requires
        unmatched(rules, input),
        admissible_choices(rules, input, choices),
        0 <= n <= input.len(),
    ensures
        expansion(rules, input, choices, n) == input.subrange(0, n),
    decreases n,
{
    if n > 0 {
        lemma_unmatched_prefix(rules, input, choices, n - 1);
        assert(admissible(rules, input[n - 1], choices[n - 1]));
        if choices[n - 1] is Some {
            assert(is_candidate(rules, input[n - 1], choices[n - 1]->0 as int));
        }
        assert(input.subrange(0, n - 1) + seq![input[n - 1]] =~= input.subrange(0, n));
    } else {
        assert(input.subrange(0, 0) =~= Seq::<char>::empty());
    }
}

/// Each string of the list but the first is a next generation of the one
/// before it.
pub open spec fn generations(rules: Seq<Rule>, strings: Seq<Seq<char>>) -> bool {
    forall|t: int|
        0 <= t < strings.len() - 1 ==> is_rewrite(rules, #[trigger] strings[t], strings[t + 1])
}

/// However many generations are grown from a string whose symbols have no
/// rule, each of them is that string.
pub proof fn lemma_unmatched_generations(rules: Seq<Rule>, strings: Seq<Seq<char>>, t: int)
    requires
        generations(rules, strings),
        0 <= t < strings.len(),
        unmatched(rules, strings[0]),
    ensures
        strings[t] == strings[0],
    decreases t,
{
    if t > 0 {
        lemma_unmatched_generations(rules, strings, t - 1);
        assert(is_rewrite(rules, strings[t - 1], strings[t - 1 + 1]));
        lemma_unmatched_unchanged(rules, strings[t - 1], strings[t]);
    }
}

/// Every candidate for a symbol of `input` fires always or never: its
/// probability is one or more, or zero or less.
pub open spec fn certain_on(rules: Seq<Rule>, input: Seq<char>) -> bool {
    forall|k: int, i: int|
        0 <= k < input.len() && #[trigger] is_candidate(rules, input[k], i) ==> rules[i].probability
            <= 0 || rules[i].probability >= PROBABILITY_ONE
}

/// The first candidate for `c` at index `from` or later whose probability
/// is above zero.
pub open spec fn first_live(rules: Seq<Rule>, c: char, from: int) -> Option<usize>
    decreases rules.len() - from,
{
    if from < 0 || from >= rules.len() {
        None
    } else if rules[from].predecessor == c && rules[from].probability > 0 {
        Some(from as usize)
    } else {
        first_live(rules, c, from + 1)
    }
}

/// What the symbols become where every candidate fires always or never:
/// each symbol is replaced by its first candidate of probability above zero,
/// and copied where it has none.
pub open spec fn certain_expansion(rules: Seq<Rule>, input: Seq<char>, n: int) -> Seq<char>
    decreases n,
{
    if n <= 0 {
        Seq::empty()
    } else {
        certain_expansion(rules, input, n - 1) + production(
            rules,
            input[n - 1],
            first_live(rules, input[n - 1], 0),
        )
    }
}

/// The sum, over the first `n` symbols, of the length of the replacement of
/// the symbol's first candidate of probability above zero, or of 1 where it
/// has none.
pub open spec fn certain_length(rules: Seq<Rule>, input: Seq<char>, n: int) -> nat
    decreases n,
{
    if n <= 0 {
        0
    } else {
        certain_length(rules, input, n - 1) + match first_live(rules, input[n - 1], 0) {
            Some(i) => rules[i as int].successor@.len(),
            None => 1,
        }
    }
}

proof fn lemma_first_live_some(rules: Seq<Rule>, c: char, from: int, i: int)
    requires
        0 <= from <= i < rules.len() <= usize::MAX,
        is_candidate(rules, c, i),
        rules[i].probability > 0,
        forall|j: int|
            from <= j < i && #[trigger] is_candidate(rules, c, j) ==> rules[j].probability <= 0,
    ensures
        first_live(rules, c, from) == Some(i as usize),
    decreases i - from,
{
    if from < i {
        assert(is_candidate(rules, c, from) ==> rules[from].probability <= 0);
        lemma_first_live_some(rules, c, from + 1, i);
    }
}

proof fn lemma_first_live_none(rules: Seq<Rule>, c: char, from: int)
    requires
        0 <= from,
        forall|j: int|
            from <= j && #[trigger] is_candidate(rules, c, j) ==> rules[j].probability <= 0,
    ensures
        first_live(rules, c, from) is None,
    decreases rules.len() - from,
{
    if from < rules.len() {
        assert(is_candidate(rules, c, from) ==> rules[from].probability <= 0);
        lemma_first_live_none(rules, c, from + 1);
    }
}

proof fn lemma_certain_prefix(
    rules: Seq<Rule>,
    input: Seq<char>,
    choices: Seq<Option<usize>>,
    n: int,
)
    requires
        rules.len() <= usize::MAX,
        certain_on(rules, input),
        admissible_choices(rules, input, choices),
        0 <= n <= input.len(),
    ensures
        expansion(rules, input, choices, n) == certain_expansion(rules, input, n),
        certain_expansion(rules, input, n).len() == certain_length(rules, input, n),
    decreases n,
{
    if n > 0 {
        lemma_certain_prefix(rules, input, choices, n - 1);
        let c = input[n - 1];
        let choice = choices[n - 1];
        assert(admissible(rules, c, choice));
        match choice {
            Some(i) => {
                assert forall|j: int|
                    0 <= j < i && #[trigger] is_candidate(rules, c, j) implies rules[j].probability
                    <= 0 by {}
                lemma_first_live_some(rules, c, 0, i as int);
            },
            None => {
                assert forall|j: int|
                    0 <= j && #[trigger] is_candidate(rules, c, j) implies rules[j].probability
                    <= 0 by {}
                lemma_first_live_none(rules, c, 0);
            },
        }
    }
}

/// Where every candidate for a symbol of `input` fires always or never (as
/// where each symbol has one rule, of probability one), chance has no say:
/// every next generation of `input` is the same string, and its length is
/// the sum of the lengths of what each symbol becomes, 1 for a symbol that
/// is copied.
pub proof fn lemma_certain_rewrite(rules: Seq<Rule>, input: Seq<char>, output: Seq<char>)
    requires
        rules.len() <= usize::MAX,
        certain_on(rules, input),
        is_rewrite(rules, input, output),
    ensures
        output == certain_expansion(rules, input, input.len() as int),
        output.len() == certain_length(rules, input, input.len() as int),
{
    let choices = choose|choices: Seq<Option<usize>>| #[trigger]
        admissible_choices(rules, input, choices) && output == expansion(
            rules,
            input,
            choices,
            input.len() as int,
        );
    lemma_certain_prefix(rules, input, choices, input.len() as int);
}

/// Every admissible choice is what some words pick: with
/// `lemma_picked_admissible`, the admissible choices for a symbol are
/// exactly the outcomes of trying its candidates in order on drawn words.
pub proof fn lemma_admissible_picked(rules: Seq<Rule>, c: char, choice: Option<usize>)
    requires
        admissible(rules, c, choice),
    ensures
        exists|words: Seq<u32>| picked(rules, c, words, choice),
{
    let words = Seq::new(
        rules.len(),
        |j: int|
            if choice == Some(j as usize) {
                0u32
            } else {
                0xffff_ffffu32
            },
    );
    assert(Rule::draw_of(0u32) == 0);
    assert(Rule::draw_of(0xffff_ffffu32) == PROBABILITY_ONE - 1);
    match choice {
        Some(i) => {
            assert(words[i as int] == 0u32);
            assert forall|j: int| 0 <= j < i implies !#[trigger] fires_at(rules, c, words, j) by {
                assert(words[j] == 0xffff_ffffu32);
            }
        },
        None => {
            assert forall|j: int| 0 <= j < rules.len() implies !#[trigger] fires_at(
                rules,
                c,
                words,
                j,
            ) by {
                assert(words[j] == 0xffff_ffffu32);
            }
        },
    }
    assert(picked(rules, c, words, choice));
}

proof fn lemma_expansion_joined(
    rules: Seq<Rule>,
    left: Seq<char>,
    left_choices: Seq<Option<usize>>,
    right: Seq<char>,
    right_choices: Seq<Option<usize>>,
    n: int,
)
    requires
        left_choices.len() == left.len(),
        right_choices.len() == right.len(),
        0 <= n <= right.len(),
    ensures
        expansion(rules, left + right, left_choices + right_choices, left.len() + n) == expansion(
            rules,
            left,
            left_choices,
            left.len() as int,
        ) + expansion(rules, right, right_choices, n),
    decreases n,
{
    let input = left + right;
    let choices = left_choices + right_choices;
    if n == 0 {
        lemma_expansion_prefix(rules, input, choices, left, left_choices, left.len() as int);
        assert(expansion(rules, right, right_choices, 0) =~= Seq::<char>::empty());
        assert(expansion(rules, left, left_choices, left.len() as int) + Seq::<char>::empty()
            =~= expansion(rules, left, left_choices, left.len() as int));
    } else {
        lemma_expansion_joined(rules, left, left_choices, right, right_choices, n - 1);
        assert(input[left.len() + n - 1] == right[n - 1]);
        assert(choices[left.len() + n - 1] == right_choices[n - 1]);
        let head = expansion(rules, left, left_choices, left.len() as int);
        let body = expansion(rules, right, right_choices, n - 1);
        let last = production(rules, right[n - 1], right_choices[n - 1]);
        assert((head + body) + last =~= head + (body + last));
    }
}

/// Rewriting is context-free: a next generation of one string followed by
/// a next generation of another is a next generation of the two strings
/// joined.
pub proof fn lemma_rewrite_joined(
    rules: Seq<Rule>,
    left: Seq<char>,
    left_output: Seq<char>,
    right: Seq<char>,
    right_output: Seq<char>,
)
    requires
        is_rewrite(rules, left, left_output),
        is_rewrite(rules, right, right_output),
    ensures
        is_rewrite(rules, left + right, left_output + right_output),
{
    let left_choices = choose|choices: Seq<Option<usize>>| #[trigger]
        admissible_choices(rules, left, choices) && left_output == expansion(
            rules,
            left,
            choices,
            left.len() as int,
        );
    let right_choices = choose|choices: Seq<Option<usize>>| #[trigger]
        admissible_choices(rules, right, choices) && right_output == expansion(
            rules,
            right,
            choices,
            right.len() as int,
        );
    let input = left + right;
    let choices = left_choices + right_choices;
    lemma_expansion_joined(rules, left, left_choices, right, right_choices, right.len() as int);
    assert forall|k: int| 0 <= k < input.len() implies admissible(
        rules,
        input[k],
        #[trigger] choices[k],
    ) by {
        if k < left.len() {
            assert(choices[k] == left_choices[k]);
            assert(admissible(rules, left[k], left_choices[k]));
        } else {
            assert(choices[k] == right_choices[k - left.len()]);
            assert(admissible(rules, right[k - left.len()], right_choices[k - left.len()]));
        }
    }
    assert(admissible_choices(rules, input, choices));
}

} // verus!
