//! The possible-function resolver: bare names used as values that match a
//! defined function's name are promoted to used functions.
use vstd::prelude::*;

use crate::expression_value::UsageFacts;
use crate::function_def::{FunctionDef, FunctionId};
use crate::lists::{insert_string, lemma_append_new_contains, lemma_append_new_distinct};
use crate::statement_value::{FileFacts, StatementValue};

verus! {

/// Whether some definition has the unqualified name `name`.
pub open spec fn is_defined_name(functions: Seq<FunctionId>, name: Seq<char>) -> bool {
    exists|d: FunctionId| functions.contains(d) && d.name == name
}

/// The names promoted by the resolver: for every candidate whose unqualified name
/// is that of some definition, the candidate's own qualified name (behind the class
/// it was found in, if any). By string matching, that name then counts as used for
/// every definition that shares it.
pub open spec fn promoted_calls(facts: FileFacts) -> Set<Seq<char>> {
    Set::new(
        |s: Seq<char>|
            exists|c: FunctionId|
                facts.usage.possible.contains(c) && is_defined_name(facts.functions, c.name)
                    && #[trigger] c.full_name() == s,
    )
}

/// Whether some definition of `functions` has the unqualified name `name`.
fn has_definition_named(functions: &Vec<FunctionDef>, name: &String) -> (r: bool)
    ensures
        r == is_defined_name(functions.deep_view(), name@),
{
    let mut i: usize = 0;
    while i < functions.len()
        invariant
            i <= functions.len(),
            forall|j: int| 0 <= j < i ==> functions.deep_view()[j].name != name@,
        decreases functions.len() - i,
    {
        if functions[i].name == *name {
            assert(functions.deep_view().contains(functions.deep_view()[i as int]));
            return true;
        }
        i += 1;
    }
    assert forall|d: FunctionId| functions.deep_view().contains(d) implies d.name != name@ by {
        let j = choose|j: int| 0 <= j < functions.len() && functions.deep_view()[j] == d;
    }
    false
}

/// Adds to the used functions of `statement_value` the qualified name of every
/// candidate function whose unqualified name is defined; every other fact is kept.
pub fn handle_possible_functions(statement_value: StatementValue) -> (r: StatementValue)
    requires
        statement_value.wf(),
    ensures
        r.wf(),
        r@ == (FileFacts {
            usage: UsageFacts { calls: r@.usage.calls, ..statement_value@.usage },
            ..statement_value@
        }),
        r@.usage.calls.to_set() == statement_value@.usage.calls.to_set().union(
            promoted_calls(statement_value@),
        ),
{
    let mut statement_value = statement_value;
    let ghost facts = statement_value@;
    let ghost candidates = facts.usage.possible;
    let mut used_functions: Vec<String> = Vec::new();
    std::mem::swap(&mut used_functions, &mut statement_value.expression_value.used_functions);
    let mut i: usize = 0;
    while i < statement_value.expression_value.possible_functions.len()
        invariant
            statement_value@ == (FileFacts {
                usage: UsageFacts { calls: statement_value@.usage.calls, ..facts.usage },
                ..facts
            }),
            statement_value.expression_value.possible_functions.deep_view() == candidates,
            statement_value.functions.deep_view() == facts.functions,
            candidates == facts.usage.possible,
            i <= candidates.len(),
            used_functions.deep_view().no_duplicates(),
            used_functions.deep_view().to_set() == facts.usage.calls.to_set().union(
                Set::new(
                    |s: Seq<char>|
                        exists|k: int|
                            0 <= k < i && is_defined_name(facts.functions, candidates[k].name)
                                && #[trigger] candidates[k].full_name() == s,
                ),
            ),
        decreases candidates.len() - i,
    {
        let candidate = &statement_value.expression_value.possible_functions[i];
        assert(candidate@ == candidates[i as int]);
        let defined = has_definition_named(&statement_value.functions, &candidate.name);
        let ghost before = used_functions.deep_view();
        if defined {
            let name = candidate.full_name();
            proof {
                lemma_append_new_distinct(before, seq![name@]);
                lemma_append_new_contains(before, seq![name@]);
                assert(seq![name@][0] == name@);
            }
            let ghost added = name@;
            insert_string(&mut used_functions, name);
            assert(used_functions.deep_view().to_set() =~= before.to_set().insert(added));
        }
        proof {
            let old_extra = Set::new(
                |s: Seq<char>|
                    exists|k: int|
                        0 <= k < i && is_defined_name(facts.functions, candidates[k].name)
                            && #[trigger] candidates[k].full_name() == s,
            );
            let new_extra = Set::new(
                |s: Seq<char>|
                    exists|k: int|
                        0 <= k < i + 1 && is_defined_name(facts.functions, candidates[k].name)
                            && #[trigger] candidates[k].full_name() == s,
            );
            assert forall|s: Seq<char>| new_extra.contains(s) implies old_extra.contains(s) || (
            defined && s == candidates[i as int].full_name()) by {
                let k = choose|k: int|
                    0 <= k < i + 1 && is_defined_name(facts.functions, candidates[k].name)
                        && #[trigger] candidates[k].full_name() == s;
                if k < i {
                    assert(old_extra.contains(s));
                }
            }
            assert forall|s: Seq<char>| old_extra.contains(s) implies new_extra.contains(s) by {
                let k = choose|k: int|
                    0 <= k < i && is_defined_name(facts.functions, candidates[k].name)
                        && #[trigger] candidates[k].full_name() == s;
                assert(0 <= k < i + 1);
            }
            if defined {
                assert(new_extra.contains(candidates[i as int].full_name()));
            }
            assert(used_functions.deep_view().to_set() =~= facts.usage.calls.to_set().union(
                new_extra,
            ));
        }
        i += 1;
    }
    proof {
        let extra = Set::new(
            |s: Seq<char>|
                exists|k: int|
                    0 <= k < candidates.len() && is_defined_name(
                        facts.functions,
                        candidates[k].name,
                    ) && #[trigger] candidates[k].full_name() == s,
        );
        assert forall|s: Seq<char>| promoted_calls(facts).contains(s) implies extra.contains(
            s,
        ) by {
            let c = choose|c: FunctionId|
                candidates.contains(c) && is_defined_name(facts.functions, c.name)
                    && #[trigger] c.full_name() == s;
            let k = choose|k: int| 0 <= k < candidates.len() && candidates[k] == c;
            assert(candidates[k].full_name() == s);
        }
        assert forall|s: Seq<char>| extra.contains(s) implies promoted_calls(facts).contains(
            s,
        ) by {
            let k = choose|k: int|
                0 <= k < candidates.len() && is_defined_name(facts.functions, candidates[k].name)
                    && #[trigger] candidates[k].full_name() == s;
            assert(candidates.contains(candidates[k]));
        }
        assert(extra =~= promoted_calls(facts));
    }
    statement_value.expression_value.used_functions = used_functions;
    statement_value
}

} // verus!
