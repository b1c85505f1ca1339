use vstd::prelude::*;
use vstd::string::*;

verus! {

/// Probability 1, as a fixed-point number with 24 fractional bits.
///
/// A rule's `probability` counts units of 2^-24: a uniform draw has 24 random
/// bits, so every draw is one of the values `0 .. PROBABILITY_ONE`.
pub const PROBABILITY_ONE: i64 = 16_777_216;

/// Why a rule is refused when a grammar is configured.
#[derive(Clone, Copy, Debug, PartialEq, Eq, Structural)]
pub enum RuleError {
    /// The replacement holds no symbol.
    EmptyReplacement,
    /// The probability is negative or greater than one.
    ProbabilityOutOfRange,
}

/// A production: `predecessor` is replaced by `successor`, with `probability`
/// in units of 2^-24.
#[derive(Clone, Debug)]
pub struct Rule {
    pub predecessor: char,
    pub successor: Vec<char>,
    pub probability: i64,
}

/// The symbols of `text`, in order.
pub fn symbols_of(text: &str) -> (symbols: Vec<char>)
    ensures
        symbols@ == text@,
{
    let n: usize = text.unicode_len();
    let mut symbols: Vec<char> = Vec::new();
    let mut i: usize = 0;
    while i < n
        invariant
            n == text@.len(),
            i <= n,
            symbols@ == text@.subrange(0, i as int),
        decreases n - i,
    {
        let c: char = text.get_char(i);
        symbols.push(c);
        i += 1;
        assert(symbols@ =~= text@.subrange(0, i as int));
    }
    assert(text@.subrange(0, n as int) =~= text@);
    symbols
}

/// A copy of `symbols`.
pub fn copy_symbols(symbols: &Vec<char>) -> (copy: Vec<char>)
    ensures
        copy@ == symbols@,
{
    let mut copy: Vec<char> = Vec::new();
    let mut i: usize = 0;
    while i < symbols.len()
        invariant
            i <= symbols.len(),
            copy@ == symbols@.subrange(0, i as int),
        decreases symbols.len() - i,
    {
        copy.push(symbols[i]);
        i += 1;
        assert(copy@ =~= symbols@.subrange(0, i as int));
    }
    assert(symbols@.subrange(0, symbols.len() as int) =~= symbols@);
    copy
}

/// The first reason, if any, to refuse a rule with this replacement and
/// probability: an empty replacement is reported before a bad probability.
pub open spec fn rule_defect(successor: Seq<char>, probability: int) -> Option<RuleError> {
    if successor.len() == 0 {
        Some(RuleError::EmptyReplacement)
    } else if probability < 0 || probability > PROBABILITY_ONE {
        Some(RuleError::ProbabilityOutOfRange)
    } else {
        None
    }
}

impl Rule {
    /// The first reason, if any, to refuse this rule.
    pub open spec fn defect(&self) -> Option<RuleError> {
        rule_defect(self.successor@, self.probability as int)
    }

    /// A rule is well formed when its replacement is not empty and its
    /// probability lies between zero and one.
    pub open spec fn wf(&self) -> bool {
        self.defect() is None
    }

    /// A rule that always fires where it is the first candidate.
    pub fn new(predecessor: char, successor: &str) -> (made: Result<Rule, RuleError>)
        ensures
            match made {
                Ok(rule) => {
                    &&& successor@.len() > 0
                    &&& rule.predecessor == predecessor
                    &&& rule.successor@ == successor@
                    &&& rule.probability == PROBABILITY_ONE
                    &&& rule.wf()
                },
                Err(e) => successor@.len() == 0 && e == RuleError::EmptyReplacement,
            },
    {
        Rule::with_probability(predecessor, successor, PROBABILITY_ONE)
    }

    /// A rule that fires with the given probability, counted in units of
    /// 2^-24, where it is reached as a candidate.
    pub fn with_probability(predecessor: char, successor: &str, probability: i64) -> (made: Result<
        Rule,
        RuleError,
    >)
        ensures
            match made {
                Ok(rule) => {
                    &&& rule_defect(successor@, probability as int) is None
                    &&& rule.predecessor == predecessor
                    &&& rule.successor@ == successor@
                    &&& rule.probability == probability
                    &&& rule.wf()
                },
                Err(e) => rule_defect(successor@, probability as int) == Some(e),
            },
    {
        let rule = Rule { predecessor, successor: symbols_of(successor), probability };
        match rule.check() {
            Ok(()) => Ok(rule),
            Err(e) => Err(e),
        }
    }

    /// Tells whether the rule is well formed, and if not, why.
    pub fn check(&self) -> (checked: Result<(), RuleError>)
        ensures
            match checked {
                Ok(_) => self.defect() is None,
                Err(e) => self.defect() == Some(e),
            },
    {
        if self.successor.len() == 0 {
            Err(RuleError::EmptyReplacement)
        } else if self.probability < 0 || self.probability > PROBABILITY_ONE {
            Err(RuleError::ProbabilityOutOfRange)
        } else {
            Ok(())
        }
    }

    /// The 24-bit uniform draw that a random 32-bit word stands for: its
    /// upper 24 bits.
    pub open spec fn draw_of(word: u32) -> int {
        word as int / 256
    }

    /// Whether the rule fires on a draw made from `word`: it does when its
    /// probability exceeds the draw.
    pub fn fires(&self, word: u32) -> (fired: bool)
        ensures
            fired == (Rule::draw_of(word) < self.probability),
            fired ==> self.probability > 0,
            !fired ==> self.probability < PROBABILITY_ONE,
    {
        let draw: u32 = word / 256;
        assert(draw < 16_777_216) by {
            assert(word <= 0xffff_ffff);
        }
        let wide: i64 = draw as i64;
        wide < self.probability
    }
}

} // verus!
