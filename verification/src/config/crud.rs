//! The live set of flow rules.

use vstd::prelude::*;

use super::model::{self, Config, FlowRule, FlowRuleView};
use super::validate::{
    self, validate_config, validate_rule, ValidationError, Verdict, MAX_KEYS_BUDGET,
};
use crate::text;

verus! {

/// How many flow rules there may be.
pub const FLOW_RULE_SET_MAX: usize = 16;

/// Why a change to the set was refused.
#[derive(Debug, PartialEq, Eq)]
pub enum CrudError<S = String> {
    NameExists(S),
    NotFound(S),
    InvalidSpec(ValidationError<S>),
    BudgetExceeded { used: u64, requested: u32, budget: u32 },
    SetFull { max: usize },
}

pub type CrudErrorView = CrudError<Seq<char>>;

impl View for CrudError<String> {
    type V = CrudErrorView;

    open spec fn view(&self) -> CrudErrorView {
        match self {
            CrudError::NameExists(n) => CrudError::NameExists(n@),
            CrudError::NotFound(n) => CrudError::NotFound(n@),
            CrudError::InvalidSpec(e) => CrudError::InvalidSpec(e@),
            CrudError::BudgetExceeded { used, requested, budget } => CrudError::BudgetExceeded {
                used: *used,
                requested: *requested,
                budget: *budget,
            },
            CrudError::SetFull { max } => CrudError::SetFull { max: *max },
        }
    }
}

impl CrudError<Seq<char>> {
    /// The wording of the error.
    pub open spec fn text(self) -> Seq<char> {
        match self {
            CrudError::NameExists(n) => "flow-rule name already exists: "@ + n,
            CrudError::NotFound(n) => "flow-rule not found: "@ + n,
            CrudError::InvalidSpec(e) => "validation error: "@ + e.text(),
            CrudError::BudgetExceeded { used, requested, budget } => "budget exceeded: adding "@
                + text::decimal(requested as nat) + " keys would exceed budget "@ + text::decimal(
                budget as nat,
            ) + " (used: "@ + text::decimal(used as nat) + ")"@,
            CrudError::SetFull { max } => "flow-rule set is full (max "@ + text::decimal(
                max as nat,
            ) + ")"@,
        }
    }
}

impl CrudError<String> {
    /// The wording of the error.
    pub fn message(&self) -> (r: String)
        ensures
            r@ == self@.text(),
    {
        let mut r = String::new();
        match self {
            CrudError::NameExists(n) => {
                r.append("flow-rule name already exists: ");
                r.append(n.as_str());
            },
            CrudError::NotFound(n) => {
                r.append("flow-rule not found: ");
                r.append(n.as_str());
            },
            CrudError::InvalidSpec(e) => {
                r.append("validation error: ");
                r.append(e.message().as_str());
            },
            CrudError::BudgetExceeded { used, requested, budget } => {
                r.append("budget exceeded: adding ");
                text::push_decimal(&mut r, *requested as u64);
                r.append(" keys would exceed budget ");
                text::push_decimal(&mut r, *budget as u64);
                r.append(" (used: ");
                text::push_decimal(&mut r, *used);
                r.append(")");
            },
            CrudError::SetFull { max } => {
                r.append("flow-rule set is full (max ");
                text::push_decimal(&mut r, *max as u64);
                r.append(")");
            },
        }
        assert(r@ =~= self@.text());
        r
    }
}

/// The flow rules in force, within a budget of keys.
pub struct FlowRuleSet {
    rules: Vec<FlowRule>,
    max_keys_budget: u32,
}

/// The position of the rule with this name, or the number of rules where there is none.
pub open spec fn position(rules: Seq<FlowRuleView>, name: Seq<char>) -> nat
    decreases rules.len(),
{
    if rules.len() == 0 || rules[0].name == name {
        0
    } else {
        1 + position(rules.drop_first(), name)
    }
}

proof fn position_is(rules: Seq<FlowRuleView>, name: Seq<char>, k: int)
    requires
        0 <= k <= rules.len(),
        k < rules.len() ==> rules[k].name == name,
        forall|i: int| 0 <= i < k ==> (#[trigger] rules[i]).name != name,
    ensures
        position(rules, name) == k,
    decreases rules.len(),
{
    if rules.len() > 0 && rules[0].name != name {
        assert forall|i: int| 0 <= i < k - 1 implies (#[trigger] rules.drop_first()[i]).name
            != name by {
            assert(rules.drop_first()[i] == rules[i + 1]);
        }
        position_is(rules.drop_first(), name, k - 1);
    }
}

/// A name has a position exactly where a rule bears it.
pub proof fn position_first(rules: Seq<FlowRuleView>, name: Seq<char>)
    ensures
        position(rules, name) <= rules.len(),
        position(rules, name) < rules.len() ==> rules[position(rules, name) as int].name == name,
        forall|i: int| 0 <= i < position(rules, name) ==> (#[trigger] rules[i]).name != name,
    decreases rules.len(),
{
    if rules.len() > 0 && rules[0].name != name {
        position_first(rules.drop_first(), name);
        assert forall|i: int| 0 <= i < position(rules, name) implies (#[trigger] rules[i]).name
            != name by {
            if i > 0 {
                assert(rules.drop_first()[i - 1] == rules[i]);
            }
        }
    }
}

/// Why `rule` cannot join `rules`: it is wrong by itself, there are enough rules, its name is
/// taken, or its keys are too many, in this order.
pub open spec fn add_error(
    rules: Seq<FlowRuleView>,
    budget: u32,
    rule: FlowRuleView,
) -> Option<CrudErrorView> {
    let used = validate::keys_in(rules, rules.len());
    if let Some(e) = validate::rule_error(rule) {
        Some(CrudError::InvalidSpec(e))
    } else if rules.len() >= FLOW_RULE_SET_MAX {
        Some(CrudError::SetFull { max: FLOW_RULE_SET_MAX })
    } else if position(rules, rule.name) < rules.len() {
        Some(CrudError::NameExists(rule.name))
    } else if used + rule.max_keys > budget {
        Some(CrudError::BudgetExceeded { used: used as u64, requested: rule.max_keys, budget })
    } else {
        None
    }
}

impl FlowRuleSet {
    /// The rules, in the order in which they came.
    pub closed spec fn rules(&self) -> Seq<FlowRuleView> {
        model::rule_views(self.rules@)
    }

    /// How many keys the rules may track together.
    pub closed spec fn budget(&self) -> u32 {
        self.max_keys_budget
    }

    /// Each rule is right by itself, no name stands twice, there are not too many rules, and
    /// their keys stay within the budget.
    pub open spec fn wf(&self) -> bool {
        validate::rules_sound(self.rules(), self.budget())
    }

    /// A set without rules.
    pub fn new(max_keys_budget: u32) -> (r: FlowRuleSet)
        ensures
            r.rules() == Seq::<FlowRuleView>::empty(),
            r.budget() == max_keys_budget,
            r.wf(),
    {
        let r = FlowRuleSet { rules: Vec::new(), max_keys_budget };
        assert(r.rules() =~= Seq::<FlowRuleView>::empty());
        r
    }

    /// The rules of a configuration: all of them, or none where anything in it is wrong.
    pub fn from_config(config: &Config) -> (r: Result<FlowRuleSet, CrudError>)
        requires
            !(validate::config_verdict(*config) is Overflows),
        ensures
            match validate::config_verdict(*config) {
                Verdict::Bad(e) => r is Err && r->Err_0@ == CrudError::InvalidSpec(e),
                _ => {
                    &&& r is Ok
                    &&& r->Ok_0.rules() == model::rule_views(config.flow_rules@)
                    &&& r->Ok_0.budget() == MAX_KEYS_BUDGET
                    &&& r->Ok_0.wf()
                },
            },
    {
        if let Err(e) = validate_config(config) {
            return Err(CrudError::InvalidSpec(e));
        }
        proof {
            validate::accepted_config_is_sound(*config);
        }
        Ok(
            FlowRuleSet {
                rules: model::copy_rules(&config.flow_rules),
                max_keys_budget: MAX_KEYS_BUDGET,
            },
        )
    }

    fn find(&self, name: &str) -> (r: usize)
        ensures
            r == position(self.rules(), name@),
            r <= self.rules@.len(),
    {
        let ghost views = self.rules();
        let mut i: usize = 0;
        while i < self.rules.len() && !text::same(self.rules[i].name.as_str(), name)
            invariant
                i <= self.rules.len(),
                views == self.rules(),
                forall|k: int| 0 <= k < i ==> (#[trigger] views[k]).name != name@,
            decreases self.rules.len() - i,
        {
            assert(views[i as int] == self.rules@[i as int]@);
            i = i + 1;
        }
        assert(i < self.rules.len() ==> views[i as int] == self.rules@[i as int]@);
        proof {
            position_is(views, name@, i as int);
        }
        i
    }

    /// How many keys the rules track together.
    pub fn used_keys(&self) -> (r: u64)
        requires
            self.wf(),
        ensures
            r == validate::keys_in(self.rules(), self.rules().len()),
    {
        validate::sum_keys(&self.rules)
    }

    /// Adds a rule at the end; where it cannot join, nothing changes.
    pub fn add(&mut self, rule: FlowRule) -> (r: Result<(), CrudError>)
        requires
            old(self).wf(),
        ensures
            final(self).wf(),
            final(self).budget() == old(self).budget(),
            match add_error(old(self).rules(), old(self).budget(), rule@) {
                Some(e) => r is Err && r->Err_0@ == e && final(self).rules() == old(self).rules(),
                None => r is Ok && final(self).rules() == old(self).rules().push(rule@),
            },
    {
        let ghost before = self.rules();
        if let Err(e) = validate_rule(&rule) {
            return Err(CrudError::InvalidSpec(e));
        }
        if self.rules.len() >= FLOW_RULE_SET_MAX {
            return Err(CrudError::SetFull { max: FLOW_RULE_SET_MAX });
        }
        if self.find(rule.name.as_str()) < self.rules.len() {
            return Err(CrudError::NameExists(rule.name));
        }
        let used: u64 = self.used_keys();
        if used + rule.max_keys as u64 > self.max_keys_budget as u64 {
            return Err(
                CrudError::BudgetExceeded {
                    used,
                    requested: rule.max_keys,
                    budget: self.max_keys_budget,
                },
            );
        }
        let ghost added = rule@;
        self.rules.push(rule);
        proof {
            assert(self.rules() =~= before.push(added));
            position_first(before, added.name);
            keys_of_push(before, added);
        }
        Ok(())
    }

    /// Takes the rule with this name out of the set.
    pub fn rm(&mut self, name: &str) -> (r: Result<FlowRule, CrudError>)
        requires
            old(self).wf(),
        ensures
            final(self).wf(),
            final(self).budget() == old(self).budget(),
            ({
                let k = position(old(self).rules(), name@);
                if k < old(self).rules().len() {
                    &&& r is Ok
                    &&& r->Ok_0@ == old(self).rules()[k as int]
                    &&& final(self).rules() == old(self).rules().remove(k as int)
                } else {
                    &&& r is Err
                    &&& r->Err_0@ == CrudError::<Seq<char>>::NotFound(name@)
                    &&& final(self).rules() == old(self).rules()
                }
            }),
    {
        let ghost before = self.rules();
        let k: usize = self.find(name);
        if k == self.rules.len() {
            return Err(CrudError::NotFound(name.to_owned()));
        }
        let rule = self.rules.remove(k);
        proof {
            assert(self.rules() =~= before.remove(k as int));
            keys_of_remove(before, k as int);
            let after = self.rules();
            assert forall|i: int| 0 <= i < after.len() implies validate::rule_error(
                #[trigger] after[i],
            ) is None by {
                assert(after[i] == before[i] || after[i] == before[i + 1]);
            }
            assert forall|i: int, j: int| 0 <= i < j < after.len() implies (#[trigger] after[i]).name
                != (#[trigger] after[j]).name by {
                let a = if i < k { i } else { i + 1 };
                let b = if j < k { j } else { j + 1 };
                assert(after[i] == before[a] && after[j] == before[b]);
            }
        }
        Ok(rule)
    }

    /// The rules, in the order in which they came.
    pub fn list(&self) -> (r: &[FlowRule])
        ensures
            model::rule_views(r@) == self.rules(),
    {
        self.rules.as_slice()
    }

    /// The rule with this name.
    pub fn show(&self, name: &str) -> (r: Result<&FlowRule, CrudError>)
        ensures
            ({
                let k = position(self.rules(), name@);
                if k < self.rules().len() {
                    r is Ok && r->Ok_0@ == self.rules()[k as int]
                } else {
                    r is Err && r->Err_0@ == CrudError::<Seq<char>>::NotFound(name@)
                }
            }),
    {
        let k: usize = self.find(name);
        if k == self.rules.len() {
            return Err(CrudError::NotFound(name.to_owned()));
        }
        assert(self.rules()[k as int] == self.rules@[k as int]@);
        Ok(&self.rules[k])
    }
}

proof fn keys_prefix(a: Seq<FlowRuleView>, b: Seq<FlowRuleView>, n: nat)
    requires
        n <= a.len(),
        n <= b.len(),
        forall|i: int| 0 <= i < n ==> a[i] == b[i],
    ensures
        validate::keys_in(a, n) == validate::keys_in(b, n),
    decreases n,
{
    if n > 0 {
        keys_prefix(a, b, (n - 1) as nat);
    }
}

proof fn keys_of_push(rules: Seq<FlowRuleView>, rule: FlowRuleView)
    ensures
        validate::keys_in(rules.push(rule), rules.len() + 1) == validate::keys_in(
            rules,
            rules.len(),
        ) + rule.max_keys,
{
    keys_prefix(rules, rules.push(rule), rules.len());
}

proof fn keys_of_remove(rules: Seq<FlowRuleView>, k: int)
    requires
        0 <= k < rules.len(),
    ensures
        validate::keys_in(rules.remove(k), (rules.len() - 1) as nat) + rules[k].max_keys
            == validate::keys_in(rules, rules.len()),
    decreases rules.len(),
{
    let n = rules.len();
    if k == n - 1 {
        keys_prefix(rules, rules.remove(k), (n - 1) as nat);
    } else {
        let front = rules.drop_last();
        keys_of_remove(front, k);
        keys_prefix(front, rules, (n - 1) as nat);
        keys_prefix(front.remove(k), rules.remove(k), (n - 2) as nat);
    }
}

/// A rule that was added is found under its name, and taking it out again restores the set.
pub proof fn add_undone_by_rm(rules: Seq<FlowRuleView>, budget: u32, rule: FlowRuleView)
    requires
        add_error(rules, budget, rule) is None,
    ensures
        position(rules.push(rule), rule.name) == rules.len(),
        rules.push(rule)[rules.len() as int] == rule,
        rules.push(rule).remove(rules.len() as int) == rules,
{
    position_first(rules, rule.name);
    position_is(rules.push(rule), rule.name, rules.len() as int);
    assert(rules.push(rule).remove(rules.len() as int) =~= rules);
}

/// Adding a rule changes nothing about the other names.
pub proof fn add_keeps_others(rules: Seq<FlowRuleView>, rule: FlowRuleView, name: Seq<char>)
    requires
        name != rule.name,
        position(rules, name) < rules.len(),
    ensures
        position(rules.push(rule), name) == position(rules, name),
        rules.push(rule)[position(rules, name) as int] == rules[position(rules, name) as int],
{
    position_first(rules, name);
    position_is(rules.push(rule), name, position(rules, name) as int);
}

/// A rule that was taken out is not found any more.
pub proof fn removed_rule_is_gone(rules: Seq<FlowRuleView>, budget: u32, name: Seq<char>)
    requires
        validate::rules_sound(rules, budget),
        position(rules, name) < rules.len(),
    ensures
        ({
            let after = rules.remove(position(rules, name) as int);
            position(after, name) == after.len()
        }),
{
    let k = position(rules, name) as int;
    position_first(rules, name);
    let after = rules.remove(k);
    assert forall|i: int| 0 <= i < after.len() implies (#[trigger] after[i]).name != name by {
        if i < k {
            assert(after[i] == rules[i]);
        } else {
            assert(after[i] == rules[i + 1]);
            assert(rules[k].name != rules[i + 1].name);
        }
    }
    position_is(after, name, after.len() as int);
}

/// A rule joins exactly where the set with it is sound.
pub proof fn add_accepts_exactly_sound(rules: Seq<FlowRuleView>, budget: u32, rule: FlowRuleView)
    requires
        validate::rules_sound(rules, budget),
    ensures
        add_error(rules, budget, rule) is None <==> validate::rules_sound(
            rules.push(rule),
            budget,
        ),
{
    let after = rules.push(rule);
    position_first(rules, rule.name);
    keys_of_push(rules, rule);
    if validate::rules_sound(after, budget) {
        assert(after[rules.len() as int] == rule);
        assert(validate::rule_error(after[rules.len() as int]) is None);
        if position(rules, rule.name) < rules.len() {
            let i = position(rules, rule.name) as int;
            assert(after[i] == rules[i]);
            assert(after[i].name != after[rules.len() as int].name);
        }
    }
}

/// Why a rule may not join, told truly: it is wrong by itself, sixteen rules are there already, one
/// of its name is there already, or its keys go beyond the budget; and it may join where none of
/// these holds.
pub proof fn refusals_tell_why(rules: Seq<FlowRuleView>, budget: u32, rule: FlowRuleView)
    ensures
        ({
            let taken = exists|i: int| 0 <= i < rules.len() && (#[trigger] rules[i]).name
                == rule.name;
            let used = validate::keys_together(rules);
            let e = add_error(rules, budget, rule);
            &&& e is None <==> validate::is_rule(rule) && rules.len() < 16 && !taken && used
                + rule.max_keys <= budget
            &&& (e is Some && e->Some_0 is InvalidSpec) == !validate::is_rule(rule)
            &&& e matches Some(CrudError::SetFull { max }) ==> max == 16 && rules.len() >= 16
            &&& e matches Some(CrudError::NameExists(n)) ==> n == rule.name && taken && rules.len()
                < 16
            &&& e matches Some(CrudError::BudgetExceeded { used: u, requested, budget: b }) ==> {
                &&& used <= u64::MAX ==> u == used
                &&& requested == rule.max_keys
                &&& b == budget
                &&& used + requested > b
                &&& !taken
            }
            &&& !(e matches Some(CrudError::NotFound(_)))
        }),
{
    validate::rules_are_judged(rule);
    validate::keys_are_summed(rules);
    position_first(rules, rule.name);
    let p = position(rules, rule.name);
    if p < rules.len() {
        assert(rules[p as int].name == rule.name);
    }
}

/// A name leads to a rule exactly where one bears it, and to the first that does.
pub proof fn names_lead_to_rules(rules: Seq<FlowRuleView>, name: Seq<char>)
    ensures
        position(rules, name) < rules.len() <==> exists|i: int|
            0 <= i < rules.len() && (#[trigger] rules[i]).name == name,
        position(rules, name) < rules.len() ==> rules[position(rules, name) as int].name == name,
        forall|i: int|
            0 <= i < position(rules, name) && i < rules.len() ==> (#[trigger] rules[i]).name
                != name,
{
    position_first(rules, name);
    let p = position(rules, name);
    if p < rules.len() {
        assert(rules[p as int].name == name);
    }
}

/// A refusal is worded by its cause, and names the rule or the numbers that it is about.
pub proof fn refusals_are_worded(e: CrudErrorView)
    ensures
        e matches CrudError::NameExists(n) ==> e.text() == "flow-rule name already exists: "@ + n,
        e matches CrudError::NotFound(n) ==> e.text() == "flow-rule not found: "@ + n,
        e matches CrudError::InvalidSpec(v) ==> e.text() == "validation error: "@ + v.text(),
        e matches CrudError::BudgetExceeded { used, requested, budget } ==> e.text()
            == "budget exceeded: adding "@ + text::decimal(requested as nat)
            + " keys would exceed budget "@ + text::decimal(budget as nat) + " (used: "@
            + text::decimal(used as nat) + ")"@,
        e matches CrudError::SetFull { max } ==> e.text() == "flow-rule set is full (max "@
            + text::decimal(max as nat) + ")"@,
{
}

} // verus!
