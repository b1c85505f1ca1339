use vstd::prelude::*;
use rand::rngs::StdRng;
use rand::rngs::ThreadRng;
use crate::rewrite_laws::{certain_expansion, certain_on, lemma_certain_rewrite};
use crate::rule::{Rule, PROBABILITY_ONE};

verus! {

/// The generator that rewriting draws from: `rand::rngs::StdRng`. Nothing is
/// known of its state.
#[verifier::external_type_specification]
#[verifier::external_body]
pub struct ExStdRng(rand::rngs::StdRng);

/// Calls `rand::RngCore::next_u32` on the generator, which advances it and
/// hands out its next 32-bit word. Nothing is claimed of the word.
#[verifier::external_body]
fn next_word(rng: &mut StdRng) -> (word: u32) {
    rand::RngCore::next_u32(rng)
}

/// The thread's own generator: `rand::rngs::ThreadRng`. Nothing is known of
/// its state.
#[verifier::external_type_specification]
#[verifier::external_body]
pub struct ExThreadRng(rand::rngs::ThreadRng);

/// Calls `rand::rng`, which hands out the thread's own generator; the
/// operating system seeds it when a thread first asks. Nothing is claimed
/// of the generator.
#[verifier::external_body]
pub(crate) fn thread_generator() -> (source: ThreadRng) {
    rand::rng()
}

/// Calls `rand::SeedableRng::from_rng` for `StdRng`, which fills a seed from
/// `source` and makes a new generator of it. Nothing is claimed of the
/// generator.
#[verifier::external_body]
pub(crate) fn seeded_from(source: &mut ThreadRng) -> (rng: StdRng) {
    rand::SeedableRng::from_rng(source)
}

/// Whether rule `i` is a candidate for the symbol `c`.
pub open spec fn is_candidate(rules: Seq<Rule>, c: char, i: int) -> bool {
    0 <= i < rules.len() && rules[i].predecessor == c
}

/// What the draws can make of one symbol. The candidates are tried in
/// order and the first that fires is chosen. Rule `i` can be chosen when it
/// is a candidate that can fire and every candidate before it can fail; no
/// rule is chosen when every candidate can fail. A rule can fire when its
/// probability is above zero, and can fail when it is below one.
pub open spec fn admissible(rules: Seq<Rule>, c: char, choice: Option<usize>) -> bool {
    match choice {
        Some(i) => {
            &&& is_candidate(rules, c, i as int)
            &&& rules[i as int].probability > 0
            &&& forall|j: int|
                0 <= j < i && #[trigger] is_candidate(rules, c, j) ==> rules[j].probability
                    < PROBABILITY_ONE
        },
        None => forall|j: int| #[trigger]
            is_candidate(rules, c, j) ==> rules[j].probability < PROBABILITY_ONE,
    }
}

/// Whether rule `i` fires for the symbol `c`, where `words[i]` is the word
/// drawn for it: it is a candidate, and its probability exceeds the draw.
pub open spec fn fires_at(rules: Seq<Rule>, c: char, words: Seq<u32>, i: int) -> bool {
    is_candidate(rules, c, i) && Rule::draw_of(words[i]) < rules[i].probability
}

/// `choice` is what the words make of the symbol `c`, where `words` holds
/// one word for each rule: the first rule that fires, or none where none
/// fires. The word of a rule that is not tried plays no part.
pub open spec fn picked(rules: Seq<Rule>, c: char, words: Seq<u32>, choice: Option<usize>) -> bool {
    &&& words.len() == rules.len()
    &&& match choice {
        Some(i) => {
            &&& fires_at(rules, c, words, i as int)
            &&& forall|j: int| 0 <= j < i ==> !#[trigger] fires_at(rules, c, words, j)
        },
        None => forall|j: int| 0 <= j < rules.len() ==> !#[trigger] fires_at(rules, c, words, j),
    }
}

/// Whatever the words are, the rule they pick is an admissible choice.
pub proof fn lemma_picked_admissible(
    rules: Seq<Rule>,
    c: char,
    words: Seq<u32>,
    choice: Option<usize>,
)
    requires
        picked(rules, c, words, choice),
    ensures
        admissible(rules, c, choice),
{
    assert forall|j: int| 0 <= j < rules.len() && #[trigger] is_candidate(rules, c, j) && !fires_at(
        rules,
        c,
        words,
        j,
    ) implies rules[j].probability < PROBABILITY_ONE by {
        assert(words[j] <= 0xffff_ffff);
        assert(Rule::draw_of(words[j]) < PROBABILITY_ONE);
    }
    match choice {
        Some(i) => {
            assert(words[i as int] >= 0);
            assert(Rule::draw_of(words[i as int]) >= 0);
            assert forall|j: int| 0 <= j < i && #[trigger] is_candidate(rules, c, j) implies rules[j]
                .probability < PROBABILITY_ONE by {
                assert(!fires_at(rules, c, words, j));
            }
        },
        None => {
            assert forall|j: int| #[trigger] is_candidate(rules, c, j) implies rules[j].probability
                < PROBABILITY_ONE by {
                assert(!fires_at(rules, c, words, j));
            }
        },
    }
}

/// What a symbol becomes: the chosen rule's replacement, or the symbol
/// itself where no rule was chosen.
pub open spec fn production(rules: Seq<Rule>, c: char, choice: Option<usize>) -> Seq<char> {
    match choice {
        Some(i) => rules[i as int].successor@,
        None => seq![c],
    }
}

/// The productions of the first `n` symbols, one after the other.
pub open spec fn expansion(
    rules: Seq<Rule>,
    input: Seq<char>,
    choices: Seq<Option<usize>>,
    n: int,
) -> Seq<char>
    decreases n,
{
    if n <= 0 {
        Seq::empty()
    } else {
        expansion(rules, input, choices, n - 1) + production(rules, input[n - 1], choices[n - 1])
    }
}

/// The choices, one for each symbol, are all admissible.
pub open spec fn admissible_choices(
    rules: Seq<Rule>,
    input: Seq<char>,
    choices: Seq<Option<usize>>,
) -> bool {
    &&& choices.len() == input.len()
    &&& forall|k: int| 0 <= k < input.len() ==> admissible(rules, input[k], #[trigger] choices[k])
}

/// `output` is a next generation of `input`: each symbol was rewritten on
/// its own, from left to right, by an admissible choice.
pub open spec fn is_rewrite(rules: Seq<Rule>, input: Seq<char>, output: Seq<char>) -> bool {
    exists|choices: Seq<Option<usize>>| #[trigger]
        admissible_choices(rules, input, choices) && output == expansion(
            rules,
            input,
            choices,
            input.len() as int,
        )
}

/// Resolves one symbol: tries its candidates in rule order, with a fresh
/// draw for each, and returns the first that fires, or `None` where there
/// is no candidate or none fires. Whatever is drawn, the result is what
/// some words pick, and so an admissible choice.
pub fn choose_rule(rules: &Vec<Rule>, c: char, rng: &mut StdRng) -> (choice: Option<usize>)
    ensures
        exists|words: Seq<u32>| picked(rules@, c, words, choice),
        admissible(rules@, c, choice),
{
    let ghost mut words: Seq<u32> = Seq::empty();
    let mut i: usize = 0;
    while i < rules.len()
        invariant
            i <= rules.len(),
            words.len() == i,
            forall|j: int| 0 <= j < i ==> !#[trigger] fires_at(rules@, c, words, j),
        decreases rules.len() - i,
    {
        let ghost tried = words;
        if rules[i].predecessor == c {
            let word: u32 = next_word(rng);
            if rules[i].fires(word) {
                proof {
                    let rest = Seq::new((rules.len() - i - 1) as nat, |k: int| 0u32);
                    let full = tried.push(word) + rest;
                    assert(full[i as int] == word);
                    assert forall|j: int| 0 <= j < i implies !#[trigger] fires_at(
                        rules@,
                        c,
                        full,
                        j,
                    ) by {
                        assert(full[j] == tried[j]);
                        assert(!fires_at(rules@, c, tried, j));
                    }
                    assert(picked(rules@, c, full, Some(i)));
                    lemma_picked_admissible(rules@, c, full, Some(i));
                }
                return Some(i);
            }
            proof {
                words = tried.push(word);
            }
        } else {
            proof {
                words = tried.push(0u32);
            }
        }
        proof {
            assert forall|j: int| 0 <= j < i + 1 implies !#[trigger] fires_at(
                rules@,
                c,
                words,
                j,
            ) by {
                if j < i {
                    assert(words[j] == tried[j]);
                    assert(!fires_at(rules@, c, tried, j));
                }
            }
        }
        i += 1;
    }
    proof {
        assert(picked(rules@, c, words, None));
        lemma_picked_admissible(rules@, c, words, None);
    }
    None
}

/// Appends the symbols of `more` to `text`.
pub fn append_symbols(text: &mut Vec<char>, more: &Vec<char>)
    ensures
        final(text)@ == old(text)@ + more@,
{
    let mut k: usize = 0;
    while k < more.len()
        invariant
            k <= more.len(),
            text@ == old(text)@ + more@.subrange(0, k as int),
        decreases more.len() - k,
    {
        text.push(more[k]);
        k += 1;
        assert(text@ =~= old(text)@ + more@.subrange(0, k as int));
    }
    assert(more@.subrange(0, more.len() as int) =~= more@);
}

/// Rewrites every symbol of `input` once, from left to right, drawing from
/// `rng`, and returns the next generation. The rules are not changed, and
/// no symbol's production depends on its neighbours. Where every candidate
/// for a symbol of `input` fires always or never, the draws have no say and
/// the result is the one string that the rules give.
pub fn rewrite(input: &Vec<char>, rules: &Vec<Rule>, rng: &mut StdRng) -> (output: Vec<char>)
    ensures
        is_rewrite(rules@, input@, output@),
        certain_on(rules@, input@) ==> output@ == certain_expansion(
            rules@,
            input@,
            input@.len() as int,
        ),
{
    let mut output: Vec<char> = Vec::new();
    let ghost mut choices: Seq<Option<usize>> = Seq::empty();
    let mut k: usize = 0;
    while k < input.len()
        invariant
            k <= input.len(),
            choices.len() == k,
            forall|j: int| 0 <= j < k ==> admissible(rules@, input@[j], #[trigger] choices[j]),
            output@ == expansion(rules@, input@, choices, k as int),
        decreases input.len() - k,
    {
        let c: char = input[k];
        let choice = choose_rule(rules, c, rng);
        let ghost before = choices;
        proof {
            choices = choices.push(choice);
            lemma_expansion_prefix(rules@, input@, before, input@, choices, k as int);
        }
        match choice {
            Some(i) => {
                append_symbols(&mut output, &rules[i].successor);
            },
            None => {
                output.push(c);
                assert(output@ =~= expansion(rules@, input@, before, k as int) + seq![c]);
            },
        }
        k += 1;
    }
    proof {
        assert(admissible_choices(rules@, input@, choices));
        if certain_on(rules@, input@) {
            assert(rules@.len() == rules.len());
            lemma_certain_rewrite(rules@, input@, output@);
        }
    }
    output
}

/// The expansion of the first `n` symbols reads only the first `n` symbols
/// and the first `n` choices.
pub proof fn lemma_expansion_prefix(
    rules: Seq<Rule>,
    input: Seq<char>,
    first: Seq<Option<usize>>,
    other: Seq<char>,
    second: Seq<Option<usize>>,
    n: int,
)
    requires
        n <= first.len(),
        n <= second.len(),
        n <= input.len(),
        n <= other.len(),
        forall|k: int| 0 <= k < n ==> first[k] == second[k] && input[k] == other[k],
    ensures
        expansion(rules, input, first, n) == expansion(rules, other, second, n),
    decreases n,
{
    if n > 0 {
        lemma_expansion_prefix(rules, input, first, other, second, n - 1);
    }
}

} // verus!
