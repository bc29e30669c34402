//! The auto-tunnel rules, by the texts that are compared.
use crate::laws::text::{a_substring_stands_between_two_parts, is_core};
use crate::laws::text::trimming_takes_white_space_off_the_ends;
use crate::rules::{
    any_rule_matches, as_rules, first_uses, rule_matches, rules_are_trimmed_input, texts,
};
use crate::text::{has_substring, lowercase_of, trimmed};
use vstd::prelude::*;

verus! {

/// A text with `.exe` behind it.
pub open spec fn dot_exe(s: Seq<char>) -> Seq<char> {
    s + seq!['.', 'e', 'x', 'e']
}

/// Whether a rule speaks of a process: in lower case it is the name, or the name is it with `.exe`,
/// or it is the name with `.exe`, or it is a part of the path.
pub open spec fn speaks_of(rule: Seq<char>, name: Seq<char>, path: Seq<char>) -> bool {
    let r = lowercase_of(rule);
    let n = lowercase_of(name);
    ||| n == r
    ||| n == dot_exe(r)
    ||| r == dot_exe(n)
    ||| exists|a: Seq<char>, b: Seq<char>| lowercase_of(path) == #[trigger] (a + r + b)
}

/// A process is matched if and only if one of the rules speaks of it, be it by the name or by the
/// path, whichever of the rules it is.
pub proof fn a_process_is_matched_by_any_rule(
    name: Seq<char>,
    path: Seq<char>,
    rules: Seq<Seq<char>>,
)
    ensures
        any_rule_matches(name, path, rules) <==> exists|i: int|
            0 <= i < rules.len() && speaks_of(#[trigger] rules[i], name, path),
{
    reveal_strlit(".exe");
    assert(".exe"@ =~= seq!['.', 'e', 'x', 'e']);
    assert forall|i: int| 0 <= i < rules.len() implies (rule_matches(
        lowercase_of(name),
        lowercase_of(path),
        lowercase_of(#[trigger] rules[i]),
    ) <==> speaks_of(rules[i], name, path)) by {
        a_substring_stands_between_two_parts(lowercase_of(path), lowercase_of(rules[i]));
    }
}

/// Neither the order of the rules nor a rule that is there twice has a part in what is matched.
pub proof fn matching_depends_on_the_set_of_rules(
    name: Seq<char>,
    path: Seq<char>,
    some: Seq<Seq<char>>,
    others: Seq<Seq<char>>,
)
    requires
        forall|rule: Seq<char>| some.contains(rule) ==> #[trigger] others.contains(rule),
    ensures
        any_rule_matches(name, path, some) ==> any_rule_matches(name, path, others),
{
    a_process_is_matched_by_any_rule(name, path, some);
    a_process_is_matched_by_any_rule(name, path, others);
    if any_rule_matches(name, path, some) {
        let i = choose|i: int| 0 <= i < some.len() && speaks_of(#[trigger] some[i], name, path);
        assert(some.contains(some[i]));
        assert(others.contains(some[i]));
        let j = choose|j: int| 0 <= j < others.len() && others[j] == some[i];
        assert(speaks_of(others[j], name, path));
    }
}

/// The texts of strings are those of the strings, place by place.
pub proof fn texts_are_taken_place_by_place(names: Seq<String>, i: int)
    requires
        0 <= i < names.len(),
    ensures
        texts(names).len() == names.len(),
        texts(names)[i] == names[i]@,
{
}

/// The rules that were saved are each there once, and no others.
pub proof fn saved_rules_are_each_there_once(names: Seq<Seq<char>>, rule: Seq<char>)
    ensures
        first_uses(names).no_duplicates(),
        first_uses(names).contains(rule) <==> names.contains(rule),
    decreases names.len(),
{
    if names.len() > 0 {
        let rest = names.drop_last();
        let last = names.last();
        saved_rules_are_each_there_once(rest, rule);
        saved_rules_are_each_there_once(rest, last);
        let before = first_uses(rest);
        let made = first_uses(names);
        assert(names =~= rest.push(last));
        if rest.contains(rule) {
            let k = choose|k: int| 0 <= k < rest.len() && rest[k] == rule;
            assert(names[k] == rule);
        }
        if names.contains(rule) && rule != last {
            let k = choose|k: int| 0 <= k < names.len() && names[k] == rule;
            assert(rest[k] == rule);
        }
        assert(names[names.len() - 1] == last);
        if !before.contains(last) {
            assert(made == before.push(last));
            if before.contains(rule) {
                let k = choose|k: int| 0 <= k < before.len() && before[k] == rule;
                assert(made[k] == rule);
            }
            if made.contains(rule) && rule != last {
                let k = choose|k: int| 0 <= k < made.len() && made[k] == rule;
                assert(before[k] == rule);
            }
            assert(made[before.len() as int] == last);
        }
    }
}

/// What is typed in becomes rules: a text is a rule if and only if it is not empty and one of the
/// texts without the white space at its ends; none is there twice.
pub proof fn typed_rules_are_trimmed(names: Seq<Seq<char>>, rule: Seq<char>)
    ensures
        as_rules(names).no_duplicates(),
        as_rules(names).contains(rule) ==> rule.len() > 0 && exists|n: int, i: int, j: int|
            0 <= n < names.len() && #[trigger] is_core(names[n], i, j) && rule
                == names[n].subrange(i, j),
        forall|n: int|
            0 <= n < names.len() && trimmed(#[trigger] names[n]).len() > 0 ==> as_rules(
                names,
            ).contains(trimmed(names[n])),
{
    rules_are_trimmed_input(names, rule);
    if as_rules(names).contains(rule) {
        let n = choose|n: int| 0 <= n < names.len() && trimmed(#[trigger] names[n]) == rule;
        trimming_takes_white_space_off_the_ends(names[n]);
        let (i, j) = choose|i: int, j: int| #[trigger]
            is_core(names[n], i, j) && trimmed(names[n]) == names[n].subrange(i, j);
        assert(is_core(names[n], i, j) && rule == names[n].subrange(i, j));
    }
    assert forall|n: int|
        0 <= n < names.len() && trimmed(#[trigger] names[n]).len() > 0 implies as_rules(
        names,
    ).contains(trimmed(names[n])) by {
        rules_are_trimmed_input(names, trimmed(names[n]));
    }
}

} // verus!
