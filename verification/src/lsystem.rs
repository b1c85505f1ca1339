use vstd::prelude::*;
use crate::rule::{symbols_of, Rule, RuleError};

verus! {

/// Why a grammar is refused: the rule at index `rule` is not well formed.
#[derive(Clone, Copy, Debug, PartialEq, Eq, Structural)]
pub struct GrammarError {
    pub rule: usize,
    pub cause: RuleError,
}

/// A grammar: the initiator, which is the string a plant starts from, the
/// rules in the order in which they are tried, and the turn angle in
/// thousandths of a degree. Rewriting reads it and never changes it.
#[derive(Clone, Debug)]
pub struct LSystem {
    pub initiator: Vec<char>,
    pub rules: Vec<Rule>,
    pub angle: i32,
}

/// Every rule of the list is well formed.
pub open spec fn rules_wf(rules: Seq<Rule>) -> bool {
    forall|i: int| 0 <= i < rules.len() ==> (#[trigger] rules[i]).wf()
}

/// `e` names the first rule of the list that is not well formed, and its
/// first defect.
pub open spec fn first_defect(rules: Seq<Rule>, e: GrammarError) -> bool {
    &&& e.rule < rules.len()
    &&& rules[e.rule as int].defect() == Some(e.cause)
    &&& forall|i: int| 0 <= i < e.rule ==> (#[trigger] rules[i]).wf()
}

/// Tells whether every rule is well formed, and if not, which is the first
/// that is not, and why.
pub fn check_rules(rules: &Vec<Rule>) -> (checked: Result<(), GrammarError>)
    ensures
        match checked {
            Ok(_) => rules_wf(rules@),
            Err(e) => first_defect(rules@, e),
        },
{
    let mut i: usize = 0;
    while i < rules.len()
        invariant
            i <= rules.len(),
            forall|j: int| 0 <= j < i ==> (#[trigger] rules@[j]).wf(),
        decreases rules.len() - i,
    {
        match rules[i].check() {
            Ok(()) => {},
            Err(cause) => {
                return Err(GrammarError { rule: i, cause });
            },
        }
        i += 1;
    }
    Ok(())
}

impl LSystem {
    /// A grammar is well formed when each of its rules is.
    pub open spec fn wf(&self) -> bool {
        rules_wf(self.rules@)
    }

    /// A grammar with the given initiator, rules and turn angle, unless one of
    /// the rules is not well formed.
    pub fn new(initiator: &str, rules: Vec<Rule>, angle: i32) -> (made: Result<
        LSystem,
        GrammarError,
    >)
        ensures
            match made {
                Ok(grammar) => {
                    &&& rules_wf(rules@)
                    &&& grammar.initiator@ == initiator@
                    &&& grammar.rules == rules
                    &&& grammar.angle == angle
                    &&& grammar.wf()
                },
                Err(e) => first_defect(rules@, e),
            },
    {
        match check_rules(&rules) {
            Ok(()) => Ok(LSystem { initiator: symbols_of(initiator), rules, angle }),
            Err(e) => Err(e),
        }
    }

    /// Tells whether the grammar is still well formed after an edit, and if
    /// not, which is the first rule that is not, and why.
    pub fn validate(&self) -> (checked: Result<(), GrammarError>)
        ensures
            match checked {
                Ok(_) => self.wf(),
                Err(e) => first_defect(self.rules@, e),
            },
    {
        check_rules(&self.rules)
    }
}

} // verus!
