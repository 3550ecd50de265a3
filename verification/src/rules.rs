use vstd::prelude::*;

use crate::matching::{re_is_whole_match, re_whole_match};
use crate::seqs::{lemma_filter_equiv, lemma_filter_push};

verus! {

/// One forwarding rule. `from` is matched against the origin interface name,
/// `to` against every relay-eligible interface name (a literal destination
/// name is the pattern matching exactly that name). A datagram triggers the
/// rule only through `allow_questions` or `allow_answers`; an absent field
/// means that trigger condition can never fire.
#[derive(Clone)]
pub struct Rule {
    pub from: String,
    pub to: String,
    pub allow_questions: Option<String>,
    pub allow_answers: Option<String>,
}

/// The whole configuration the engine consumes: the interface-selection
/// pattern and the ordered rule list.
pub struct Config {
    pub interfaces: String,
    pub rules: Vec<Rule>,
}

/// The name views of a sequence of strings.
pub open spec fn names_view(s: Seq<String>) -> Seq<Seq<char>> {
    s.map_values(|x: String| x@)
}

/// At least one of `names` matches `pattern`.
pub open spec fn any_name_matches(pattern: Seq<char>, names: Seq<Seq<char>>) -> bool {
    exists|i: int| 0 <= i < names.len() && re_whole_match(pattern, #[trigger] names[i])
}

/// The rule is triggered by a datagram: its `from` pattern matches the origin
/// interface name, and a question name matches `allow_questions` or an answer
/// name matches `allow_answers`. An absent allow field never matches.
pub open spec fn rule_triggers(
    r: Rule,
    origin: Seq<char>,
    questions: Seq<Seq<char>>,
    answers: Seq<Seq<char>>,
) -> bool {
    re_whole_match(r.from@, origin) && ((match r.allow_questions {
        Some(p) => any_name_matches(p@, questions),
        None => false,
    }) || (match r.allow_answers {
        Some(p) => any_name_matches(p@, answers),
        None => false,
    }))
}

/// Some rule of the list is triggered and names `n` as a destination through
/// its `to` pattern.
pub open spec fn name_selected(
    n: Seq<char>,
    origin: Seq<char>,
    questions: Seq<Seq<char>>,
    answers: Seq<Seq<char>>,
    rules: Seq<Rule>,
) -> bool {
    exists|i: int|
        0 <= i < rules.len() && rule_triggers(#[trigger] rules[i], origin, questions, answers)
            && re_whole_match(rules[i].to@, n)
}

/// A candidate relay name is a destination when some rule selects it and it
/// is not the origin interface itself (the post-rule half of loop
/// prevention).
pub open spec fn is_destination(
    name: String,
    origin: Seq<char>,
    questions: Seq<Seq<char>>,
    answers: Seq<Seq<char>>,
    rules: Seq<Rule>,
) -> bool {
    name@ != origin && name_selected(name@, origin, questions, answers, rules)
}

/// The destination interface names a datagram is relayed to: the relay names
/// selected by the rules, in their configured order, with the origin removed.
pub open spec fn destinations(
    relay_names: Seq<String>,
    origin: Seq<char>,
    questions: Seq<Seq<char>>,
    answers: Seq<Seq<char>>,
    rules: Seq<Rule>,
) -> Seq<String> {
    relay_names.filter(|n: String| is_destination(n, origin, questions, answers, rules))
}

/// Tests whether any of `names` matches `pattern`.
pub fn any_match(pattern: &str, names: &Vec<String>) -> (r: bool)
    ensures
        r == any_name_matches(pattern@, names_view(names@)),
{
    let mut i: usize = 0;
    while i < names.len()
        invariant
            i <= names@.len(),
            forall|j: int| 0 <= j < i ==> !re_whole_match(pattern@, #[trigger] names_view(names@)[j]),
        decreases names@.len() - i,
    {
        if re_is_whole_match(pattern, names[i].as_str()) {
            assert(re_whole_match(pattern@, names_view(names@)[i as int]));
            return true;
        }
        i = i + 1;
    }
    false
}

/// Decides whether one rule is triggered by the origin name and the
/// classified question and answer names.
pub fn rule_triggered(r: &Rule, origin: &String, questions: &Vec<String>, answers: &Vec<String>) -> (b:
    bool)
    ensures
        b == rule_triggers(*r, origin@, names_view(questions@), names_view(answers@)),
{
    if !re_is_whole_match(r.from.as_str(), origin.as_str()) {
        return false;
    }
    let by_questions = match &r.allow_questions {
        Some(p) => any_match(p.as_str(), questions),
        None => false,
    };
    if by_questions {
        return true;
    }
    match &r.allow_answers {
        Some(p) => any_match(p.as_str(), answers),
        None => false,
    }
}

/// Decides whether some rule of the list selects `name` as a destination.
pub fn selected_by_rules(
    name: &String,
    origin: &String,
    questions: &Vec<String>,
    answers: &Vec<String>,
    rules: &Vec<Rule>,
) -> (r: bool)
    ensures
        r == name_selected(name@, origin@, names_view(questions@), names_view(answers@), rules@),
{
    let mut i: usize = 0;
    while i < rules.len()
        invariant
            i <= rules@.len(),
            forall|j: int|
                0 <= j < i ==> !(rule_triggers(
                    #[trigger] rules@[j],
                    origin@,
                    names_view(questions@),
                    names_view(answers@),
                ) && re_whole_match(rules@[j].to@, name@)),
        decreases rules@.len() - i,
    {
        if rule_triggered(&rules[i], origin, questions, answers) && re_is_whole_match(
            rules[i].to.as_str(),
            name.as_str(),
        ) {
            return true;
        }
        i = i + 1;
    }
    false
}

/// Evaluates the rule list: returns the relay interface names the datagram
/// must be relayed to, in the relay table's order, with the origin interface
/// removed unconditionally. The result is a function of the arguments alone.
pub fn evaluate(
    origin: &String,
    questions: &Vec<String>,
    answers: &Vec<String>,
    rules: &Vec<Rule>,
    relay_names: &Vec<String>,
) -> (out: Vec<String>)
    ensures
        out@ == destinations(
            relay_names@,
            origin@,
            names_view(questions@),
            names_view(answers@),
            rules@,
        ),
        forall|i: int| 0 <= i < out@.len() ==> (#[trigger] out@[i])@ != origin@,
{
    let ghost qv = names_view(questions@);
    let ghost av = names_view(answers@);
    let mut out: Vec<String> = Vec::new();
    let mut i: usize = 0;
    while i < relay_names.len()
        invariant
            i <= relay_names@.len(),
            qv == names_view(questions@),
            av == names_view(answers@),
            out@ == destinations(relay_names@.subrange(0, i as int), origin@, qv, av, rules@),
        decreases relay_names@.len() - i,
    {
        let name = &relay_names[i];
        let differs = !(*name == *origin);
        let take = differs && selected_by_rules(name, origin, questions, answers, rules);
        proof {
            assert(relay_names@.subrange(0, i as int + 1) =~= relay_names@.subrange(
                0,
                i as int,
            ).push(relay_names@[i as int]));
            lemma_filter_push(
                relay_names@.subrange(0, i as int),
                |n: String| is_destination(n, origin@, qv, av, rules@),
                relay_names@[i as int],
            );
        }
        if take {
            out.push(name.clone());
        }
        i = i + 1;
    }
    proof {
        assert(relay_names@.subrange(0, relay_names@.len() as int) =~= relay_names@);
        broadcast use vstd::seq_lib::group_filter_ensures;

    }
    out
}

/// Law: a rule with neither `allow_questions` nor `allow_answers` present
/// never triggers, and appending it to a rule list leaves every destination
/// decision unchanged.
pub proof fn lemma_rule_without_allows_is_inert(
    r: Rule,
    origin: Seq<char>,
    questions: Seq<Seq<char>>,
    answers: Seq<Seq<char>>,
    rules: Seq<Rule>,
    relay_names: Seq<String>,
)
    requires
        r.allow_questions is None,
        r.allow_answers is None,
    ensures
        !rule_triggers(r, origin, questions, answers),
        destinations(relay_names, origin, questions, answers, rules.push(r)) == destinations(
            relay_names,
            origin,
            questions,
            answers,
            rules,
        ),
{
    assert forall|n: String|
        #[trigger] is_destination(n, origin, questions, answers, rules.push(r))
            == is_destination(n, origin, questions, answers, rules) by {
        if name_selected(n@, origin, questions, answers, rules.push(r)) {
            let i = choose|i: int|
                0 <= i < rules.push(r).len() && rule_triggers(
                    #[trigger] rules.push(r)[i],
                    origin,
                    questions,
                    answers,
                ) && re_whole_match(rules.push(r)[i].to@, n@);
            assert(i < rules.len());  // the appended rule cannot have triggered
            assert(rules[i] == rules.push(r)[i]);
            assert(name_selected(n@, origin, questions, answers, rules));
        }
        if name_selected(n@, origin, questions, answers, rules) {
            let i = choose|i: int|
                0 <= i < rules.len() && rule_triggers(
                    #[trigger] rules[i],
                    origin,
                    questions,
                    answers,
                ) && re_whole_match(rules[i].to@, n@);
            assert(rules.push(r)[i] == rules[i]);
            assert(name_selected(n@, origin, questions, answers, rules.push(r)));
        }
    }
    lemma_filter_equiv(
        relay_names,
        |n: String| is_destination(n, origin, questions, answers, rules.push(r)),
        |n: String| is_destination(n, origin, questions, answers, rules),
    );
}

/// Law: the Rule Engine is a pure function. Its contract pins the result to
/// the origin, the classified names, the rules and the relay names alone, so
/// two evaluations of the same inputs yield the same destinations.
pub proof fn lemma_evaluate_deterministic(
    out1: Seq<String>,
    out2: Seq<String>,
    relay_names: Seq<String>,
    origin: Seq<char>,
    questions: Seq<Seq<char>>,
    answers: Seq<Seq<char>>,
    rules: Seq<Rule>,
)
    requires
        out1 == destinations(relay_names, origin, questions, answers, rules),
        out2 == destinations(relay_names, origin, questions, answers, rules),
    ensures
        out1 == out2,
{
}

/// Law: the origin interface name is never among the computed destinations,
/// whatever the rules say.
pub proof fn lemma_origin_not_destination(
    relay_names: Seq<String>,
    origin: Seq<char>,
    questions: Seq<Seq<char>>,
    answers: Seq<Seq<char>>,
    rules: Seq<Rule>,
)
    ensures
        forall|i: int|
            0 <= i < destinations(relay_names, origin, questions, answers, rules).len() ==> (
            #[trigger] destinations(relay_names, origin, questions, answers, rules)[i])@ != origin,
{
    broadcast use vstd::seq_lib::group_filter_ensures;

}

/// Law: rule effects are unioned, never short-circuited, so the order of the
/// rule list does not affect the destination set: two rule lists with the
/// same rules yield the same destinations.
pub proof fn lemma_rule_order_irrelevant(
    relay_names: Seq<String>,
    origin: Seq<char>,
    questions: Seq<Seq<char>>,
    answers: Seq<Seq<char>>,
    r1: Seq<Rule>,
    r2: Seq<Rule>,
)
    requires
        r1.to_set() == r2.to_set(),
    ensures
        destinations(relay_names, origin, questions, answers, r1) == destinations(
            relay_names,
            origin,
            questions,
            answers,
            r2,
        ),
{
    assert forall|n: String|
        #[trigger] is_destination(n, origin, questions, answers, r1) == is_destination(
            n,
            origin,
            questions,
            answers,
            r2,
        ) by {
        if name_selected(n@, origin, questions, answers, r1) {
            let i = choose|i: int|
                0 <= i < r1.len() && rule_triggers(#[trigger] r1[i], origin, questions, answers)
                    && re_whole_match(r1[i].to@, n@);
            assert(r1.contains(r1[i]));
            assert(r2.to_set().contains(r1[i]));
            let j = choose|j: int| 0 <= j < r2.len() && r2[j] == r1[i];
            assert(rule_triggers(r2[j], origin, questions, answers) && re_whole_match(r2[j].to@, n@));
        }
        if name_selected(n@, origin, questions, answers, r2) {
            let i = choose|i: int|
                0 <= i < r2.len() && rule_triggers(#[trigger] r2[i], origin, questions, answers)
                    && re_whole_match(r2[i].to@, n@);
            assert(r2.contains(r2[i]));
            assert(r1.to_set().contains(r2[i]));
            let j = choose|j: int| 0 <= j < r1.len() && r1[j] == r2[i];
            assert(rule_triggers(r1[j], origin, questions, answers) && re_whole_match(r1[j].to@, n@));
        }
    }
    lemma_filter_equiv(
        relay_names,
        |n: String| is_destination(n, origin, questions, answers, r1),
        |n: String| is_destination(n, origin, questions, answers, r2),
    );
}

/// Matching is insensitive to order and duplication of the names: two name
/// sequences with the same elements satisfy the same `any_name_matches`.
pub proof fn lemma_any_match_same_names(pattern: Seq<char>, s1: Seq<Seq<char>>, s2: Seq<Seq<char>>)
    requires
        s1.to_set() == s2.to_set(),
    ensures
        any_name_matches(pattern, s1) == any_name_matches(pattern, s2),
{
    if any_name_matches(pattern, s1) {
        let i = choose|i: int| 0 <= i < s1.len() && re_whole_match(pattern, #[trigger] s1[i]);
        assert(s1.contains(s1[i]));
        assert(s2.to_set().contains(s1[i]));
        let j = choose|j: int| 0 <= j < s2.len() && s2[j] == s1[i];
        assert(re_whole_match(pattern, s2[j]));
    }
    if any_name_matches(pattern, s2) {
        let i = choose|i: int| 0 <= i < s2.len() && re_whole_match(pattern, #[trigger] s2[i]);
        assert(s2.contains(s2[i]));
        assert(s1.to_set().contains(s2[i]));
        let j = choose|j: int| 0 <= j < s1.len() && s1[j] == s2[i];
        assert(re_whole_match(pattern, s1[j]));
    }
}

/// The whole destination computation is likewise insensitive to order and
/// duplication of the classified names: deduplicating the question and answer
/// name lists changes no destination.
pub proof fn lemma_destinations_same_names(
    relay_names: Seq<String>,
    origin: Seq<char>,
    q1: Seq<Seq<char>>,
    q2: Seq<Seq<char>>,
    a1: Seq<Seq<char>>,
    a2: Seq<Seq<char>>,
    rules: Seq<Rule>,
)
    requires
        q1.to_set() == q2.to_set(),
        a1.to_set() == a2.to_set(),
    ensures
        destinations(relay_names, origin, q1, a1, rules) == destinations(
            relay_names,
            origin,
            q2,
            a2,
            rules,
        ),
{
    assert forall|r: Rule| #[trigger]
        rule_triggers(r, origin, q1, a1) == rule_triggers(r, origin, q2, a2) by {
        match r.allow_questions {
            Some(p) => lemma_any_match_same_names(p@, q1, q2),
            None => {},
        }
        match r.allow_answers {
            Some(p) => lemma_any_match_same_names(p@, a1, a2),
            None => {},
        }
    }
    assert forall|n: String|
        #[trigger] is_destination(n, origin, q1, a1, rules) == is_destination(
            n,
            origin,
            q2,
            a2,
            rules,
        ) by {
        if name_selected(n@, origin, q1, a1, rules) {
            let i = choose|i: int|
                0 <= i < rules.len() && rule_triggers(#[trigger] rules[i], origin, q1, a1)
                    && re_whole_match(rules[i].to@, n@);
            assert(rule_triggers(rules[i], origin, q2, a2));
        }
        if name_selected(n@, origin, q2, a2, rules) {
            let i = choose|i: int|
                0 <= i < rules.len() && rule_triggers(#[trigger] rules[i], origin, q2, a2)
                    && re_whole_match(rules[i].to@, n@);
            assert(rule_triggers(rules[i], origin, q1, a1));
        }
    }
    lemma_filter_equiv(
        relay_names,
        |n: String| is_destination(n, origin, q1, a1, rules),
        |n: String| is_destination(n, origin, q2, a2, rules),
    );
}

} // verus!
