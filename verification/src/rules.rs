//! Auto-tunnel rules: texts that say which processes are tunneled without being picked.
use crate::text::{contains, has_substring, lowercase, lowercase_of, trim, trimmed};
use vstd::prelude::*;
use vstd::string::StringExecFns;

verus! {

/// A text with the extension of executables.
pub open spec fn with_exe(s: Seq<char>) -> Seq<char> {
    s + ".exe"@
}

/// Whether a rule speaks of a process, all three texts in lower case: it is the process's name,
/// with or without the extension on either side, or stands somewhere in its path.
pub open spec fn rule_matches(name: Seq<char>, path: Seq<char>, rule: Seq<char>) -> bool {
    ||| name == rule
    ||| name == with_exe(rule)
    ||| rule == with_exe(name)
    ||| has_substring(path, rule)
}

/// Whether one of the rules speaks of a process, whatever the case of the letters.
pub open spec fn any_rule_matches(
    name: Seq<char>,
    path: Seq<char>,
    rules: Seq<Seq<char>>,
) -> bool {
    exists|i: int|
        0 <= i < rules.len() && rule_matches(
            lowercase_of(name),
            lowercase_of(path),
            lowercase_of(#[trigger] rules[i]),
        )
}

/// Whether a rule speaks of a process, all three texts in lower case.
pub fn lowered_rule_matches(name: &String, path: &String, rule: &String) -> (r: bool)
    ensures
        r == rule_matches(name@, path@, rule@),
{
    if *name == *rule {
        return true;
    }
    let mut rule_exe = rule.clone();
    rule_exe.append(".exe");
    if *name == rule_exe {
        return true;
    }
    let mut name_exe = name.clone();
    name_exe.append(".exe");
    *rule == name_exe || contains(path.as_str(), rule.as_str())
}

/// Whether one of the rules speaks of a process.
pub fn process_matches(name: &str, path: &str, rules: &Vec<String>) -> (r: bool)
    ensures
        r == any_rule_matches(name@, path@, texts(rules@)),
{
    let name_lower = lowercase(name);
    let path_lower = lowercase(path);
    let mut i: usize = 0;
    while i < rules.len()
        invariant
            i <= rules.len(),
            name_lower@ == lowercase_of(name@),
            path_lower@ == lowercase_of(path@),
            forall|k: int|
                0 <= k < i ==> !rule_matches(
                    lowercase_of(name@),
                    lowercase_of(path@),
                    lowercase_of(#[trigger] texts(rules@)[k]),
                ),
        decreases rules.len() - i,
    {
        assert(texts(rules@)[i as int] == rules@[i as int]@);
        let rule_lower = lowercase(rules[i].as_str());
        if lowered_rule_matches(&name_lower, &path_lower, &rule_lower) {
            return true;
        }
        i = i + 1;
    }
    false
}

/// The texts of a list of strings.
pub open spec fn texts(names: Seq<String>) -> Seq<Seq<char>> {
    names.map_values(|name: String| name@)
}

/// The texts without repetition: each stands where it first occurs.
pub open spec fn first_uses(names: Seq<Seq<char>>) -> Seq<Seq<char>>
    decreases names.len(),
{
    if names.len() == 0 {
        seq![]
    } else {
        add_once(first_uses(names.drop_last()), names.last())
    }
}

/// The texts with `name` at the end, unless it is among them.
pub open spec fn add_once(names: Seq<Seq<char>>, name: Seq<char>) -> Seq<Seq<char>> {
    if names.contains(name) {
        names
    } else {
        names.push(name)
    }
}

/// The texts as rules: without white space around them, without empty ones, without repetition.
pub open spec fn as_rules(names: Seq<Seq<char>>) -> Seq<Seq<char>>
    decreases names.len(),
{
    if names.len() == 0 {
        seq![]
    } else {
        let rest = as_rules(names.drop_last());
        let rule = trimmed(names.last());
        if rule.len() == 0 {
            rest
        } else {
            add_once(rest, rule)
        }
    }
}

/// The auto-tunnel rules. None occurs twice.
pub struct RuleSet {
    names: Vec<String>,
}

impl View for RuleSet {
    type V = Seq<Seq<char>>;

    closed spec fn view(&self) -> Seq<Seq<char>> {
        texts(self.names@)
    }
}

impl RuleSet {
    #[verifier::type_invariant]
    spec fn distinct(self) -> bool {
        texts(self.names@).no_duplicates()
    }

    /// No rules.
    pub fn new() -> (r: RuleSet)
        ensures
            r@ == Seq::<Seq<char>>::empty(),
    {
        let r = RuleSet { names: Vec::new() };
        assert(r@ =~= Seq::<Seq<char>>::empty());
        r
    }

    /// The rules that were typed in.
    pub fn from_input(names: &Vec<String>) -> (r: RuleSet)
        ensures
            r@ == as_rules(texts(names@)),
            r@.no_duplicates(),
    {
        let mut rules = RuleSet::new();
        let mut i: usize = 0;
        let ghost all = texts(names@);
        assert(all.take(0) =~= Seq::<Seq<char>>::empty());
        while i < names.len()
            invariant
                i <= names.len(),
                all == texts(names@),
                rules@ == as_rules(all.take(i as int)),
            decreases names.len() - i,
        {
            let rule = trim(names[i].as_str());
            proof {
                assert(all.take(i + 1).drop_last() =~= all.take(i as int));
                assert(all.take(i + 1).last() == names@[i as int]@);
            }
            if !rule.as_str().is_empty() {
                rules.add_rule(rule);
            }
            i = i + 1;
        }
        assert(all.take(i as int) =~= all);
        proof {
            use_type_invariant(&rules);
        }
        rules
    }

    /// The rules that were saved.
    pub fn from_saved(names: &Vec<String>) -> (r: RuleSet)
        ensures
            r@ == first_uses(texts(names@)),
            r@.no_duplicates(),
    {
        let mut rules = RuleSet::new();
        let mut i: usize = 0;
        let ghost all = texts(names@);
        assert(all.take(0) =~= Seq::<Seq<char>>::empty());
        while i < names.len()
            invariant
                i <= names.len(),
                all == texts(names@),
                rules@ == first_uses(all.take(i as int)),
            decreases names.len() - i,
        {
            proof {
                assert(all.take(i + 1).drop_last() =~= all.take(i as int));
                assert(all.take(i + 1).last() == names@[i as int]@);
            }
            rules.add_rule(names[i].clone());
            i = i + 1;
        }
        assert(all.take(i as int) =~= all);
        proof {
            use_type_invariant(&rules);
        }
        rules
    }

    /// Adds a rule, unless it is there.
    fn add_rule(&mut self, rule: String)
        ensures
            final(self)@ == add_once(old(self)@, rule@),
    {
        proof {
            use_type_invariant(&*self);
        }
        let mut names: Vec<String> = Vec::new();
        std::mem::swap(&mut names, &mut self.names);
        let ghost before = texts(names@);
        let mut i: usize = 0;
        let mut found = false;
        while i < names.len() && !found
            invariant
                i <= names.len(),
                before == texts(names@),
                !found ==> forall|k: int| 0 <= k < i ==> #[trigger] before[k] != rule@,
                found ==> before.contains(rule@),
            decreases names.len() - i + if found { 0int } else { 1int },
        {
            if names[i] == rule {
                assert(before[i as int] == rule@);
                found = true;
            } else {
                i = i + 1;
            }
        }
        if !found {
            assert(!before.contains(rule@));
            names.push(rule);
            assert(texts(names@) =~= before.push(rule@));
        }
        assert(texts(names@).no_duplicates());
        self.names = names;
    }

    /// The rules, as a list.
    pub fn list(&self) -> (r: &Vec<String>)
        ensures
            texts(r@) == self@,
            self@.no_duplicates(),
    {
        proof {
            use_type_invariant(self);
        }
        &self.names
    }

    /// Whether there are none.
    pub fn is_empty(&self) -> (r: bool)
        ensures
            r == (self@.len() == 0),
    {
        self.names.len() == 0
    }
}

/// The rules are just the texts that hold something beside white space, without the white space
/// around them, each once.
pub proof fn rules_are_trimmed_input(names: Seq<Seq<char>>, rule: Seq<char>)
    ensures
        as_rules(names).no_duplicates(),
        as_rules(names).contains(rule) <==> rule.len() > 0 && exists|i: int|
            0 <= i < names.len() && trimmed(#[trigger] names[i]) == rule,
    decreases names.len(),
{
    if names.len() > 0 {
        let rest = names.drop_last();
        rules_are_trimmed_input(rest, rule);
        rules_are_trimmed_input(rest, trimmed(names.last()));
        let made = as_rules(names);
        let before = as_rules(rest);
        if made != before {
            assert(made == before.push(trimmed(names.last())));
            assert(made.contains(rule) <==> before.contains(rule) || trimmed(names.last()) == rule)
                by {
                if made.contains(rule) {
                    let k = choose|k: int| 0 <= k < made.len() && made[k] == rule;
                    if k < before.len() {
                        assert(before[k] == rule);
                    }
                }
                if before.contains(rule) {
                    let k = choose|k: int| 0 <= k < before.len() && before[k] == rule;
                    assert(made[k] == rule);
                }
                if trimmed(names.last()) == rule {
                    assert(made[made.len() - 1] == rule);
                }
            }
        }
        if exists|i: int| 0 <= i < rest.len() && trimmed(#[trigger] rest[i]) == rule {
            let i = choose|i: int| 0 <= i < rest.len() && trimmed(#[trigger] rest[i]) == rule;
            assert(trimmed(names[i]) == rule);
        }
        if exists|i: int| 0 <= i < names.len() && trimmed(#[trigger] names[i]) == rule {
            let i = choose|i: int| 0 <= i < names.len() && trimmed(#[trigger] names[i]) == rule;
            if i < rest.len() {
                assert(trimmed(rest[i]) == rule);
            }
        }
        if trimmed(names.last()) == rule {
            assert(trimmed(names[names.len() - 1]) == rule);
        }
    }
}

/// Rules that were saved are the same when they are read back.
pub proof fn saved_rules_are_read_back(rules: Seq<Seq<char>>)
    requires
        rules.no_duplicates(),
    ensures
        first_uses(rules) == rules,
    decreases rules.len(),
{
    if rules.len() > 0 {
        let rest = rules.drop_last();
        saved_rules_are_read_back(rest);
        if rest.contains(rules.last()) {
            let k = choose|k: int| 0 <= k < rest.len() && rest[k] == rules.last();
            assert(rules[k] == rules[rules.len() - 1]);
        }
        assert(rest.push(rules.last()) =~= rules);
    } else {
        assert(first_uses(rules) =~= rules);
    }
}

} // verus!
