//! The assignment resolver: call targets `variable.method` are rewritten through
//! the table of simple assignments.
use vstd::prelude::*;

use crate::expression_value::UsageFacts;
use crate::lists::{
    append_new, contains_string, insert_string, lemma_append_new_contains,
    lemma_append_new_distinct, lookup,
};
use crate::names::{before_last_dot, dot_count, dotted, join_dotted, last_segment, scan_dots};
use crate::statement_value::{FileFacts, StatementValue};

verus! {

/// What a call target becomes: `prefix.method`, with `prefix` assigned from class
/// `C`, becomes `C.method`, `C.__init__` and `C.__new__`; any other target, with
/// no dot, more than one dot, or an unassigned prefix, stays as it is.
pub open spec fn resolved_targets(
    target: Seq<char>,
    assignments: Map<Seq<char>, Seq<char>>,
) -> Set<Seq<char>> {
    if dot_count(target) == 1 && assignments.contains_key(before_last_dot(target)) {
        let c = assignments[before_last_dot(target)];
        set![dotted(c, last_segment(target)), dotted(c, "__init__"@), dotted(c, "__new__"@)]
    } else {
        set![target]
    }
}

/// The used functions after assignment resolution: the resolved call targets, and
/// the attribute references that name a defined function.
pub open spec fn resolved_calls(facts: FileFacts) -> Set<Seq<char>> {
    Set::new(
        |s: Seq<char>|
            (exists|u: Seq<char>|
                facts.usage.calls.contains(u) && #[trigger] resolved_targets(
                    u,
                    facts.assignments,
                ).contains(s)) || (facts.usage.attributes.contains(s)
                && facts.defined_names().contains(s)),
    )
}

/// The resolved targets of the first `n` call targets.
spec fn resolved_prefix(
    calls: Seq<Seq<char>>,
    assignments: Map<Seq<char>, Seq<char>>,
    n: int,
) -> Set<Seq<char>> {
    Set::new(
        |s: Seq<char>|
            exists|k: int| 0 <= k < n && #[trigger] resolved_targets(calls[k], assignments).contains(s),
    )
}

/// Adds `s`, keeping the list free of repetitions.
fn add_target(used: &mut Vec<String>, s: String)
    requires
        old(used).deep_view().no_duplicates(),
    ensures
        final(used).deep_view().no_duplicates(),
        final(used).deep_view().to_set() == old(used).deep_view().to_set().insert(s@),
{
    let ghost x = s@;
    proof {
        lemma_append_new_distinct(used.deep_view(), seq![x]);
        lemma_append_new_contains(used.deep_view(), seq![x]);
        assert(seq![x].contains(x)) by {
            assert(seq![x][0] == x);
        }
    }
    insert_string(used, s);
    assert(used.deep_view().to_set() =~= old(used).deep_view().to_set().insert(x));
}

/// Rewrites the used functions of `statement_value` through its assignment table,
/// then adds the attribute references that name a defined function. The old set
/// of used functions is replaced; every other fact is kept.
pub fn fix_assignments(statement_value: StatementValue) -> (r: StatementValue)
    requires
        statement_value.wf(),
    ensures
        r.wf(),
        r@ == (FileFacts {
            usage: UsageFacts { calls: r@.usage.calls, ..statement_value@.usage },
            ..statement_value@
        }),
        r@.usage.calls.to_set() == resolved_calls(statement_value@),
{
    let mut statement_value = statement_value;
    let ghost facts = statement_value@;
    let ghost calls = facts.usage.calls;
    let ghost asg = facts.assignments;
    let mut used_functions: Vec<String> = Vec::new();
    assert(used_functions.deep_view() =~= Seq::<Seq<char>>::empty());
    assert(resolved_prefix(calls, asg, 0) =~= Set::empty());
    let mut i: usize = 0;
    while i < statement_value.expression_value.used_functions.len()
        invariant
            statement_value@ == facts,
            statement_value.wf(),
            calls == facts.usage.calls,
            asg == facts.assignments,
            i <= calls.len(),
            used_functions.deep_view().no_duplicates(),
            used_functions.deep_view().to_set() == resolved_prefix(calls, asg, i as int),
        decreases calls.len() - i,
    {
        let function = &statement_value.expression_value.used_functions[i];
        let ghost u = function@;
        assert(u == calls[i as int]);
        let ghost before = used_functions.deep_view().to_set();
        let (count, last) = scan_dots(function.as_str());
        if count != 1 {
            add_target(&mut used_functions, function.clone());
        } else {
            let j = match last {
                Some(j) => j,
                None => 0,
            };
            let n = function.as_str().unicode_len();
            let prefix = String::from_str(function.as_str().substring_char(0, j));
            let method = String::from_str(function.as_str().substring_char(j + 1, n));
            assert(prefix@ == before_last_dot(u));
            match lookup(&statement_value.assignments, &prefix) {
                None => {
                    add_target(&mut used_functions, function.clone());
                },
                Some(class_name) => {
                    add_target(&mut used_functions, join_dotted(class_name, "__init__"));
                    add_target(&mut used_functions, join_dotted(class_name, "__new__"));
                    add_target(&mut used_functions, join_dotted(class_name, method.as_str()));
                },
            }
        }
        proof {
            assert(used_functions.deep_view().to_set() =~= before.union(resolved_targets(u, asg)));
            assert(resolved_prefix(calls, asg, i + 1) =~= resolved_prefix(calls, asg, i as int).union(
                resolved_targets(u, asg),
            )) by {
                assert forall|s: Seq<char>|
                    resolved_prefix(calls, asg, i + 1).contains(s) implies resolved_prefix(
                    calls,
                    asg,
                    i as int,
                ).union(resolved_targets(u, asg)).contains(s) by {
                    let k = choose|k: int|
                        0 <= k < i + 1 && #[trigger] resolved_targets(calls[k], asg).contains(s);
                    if k < i {
                        assert(resolved_prefix(calls, asg, i as int).contains(s));
                    }
                }
                assert forall|s: Seq<char>|
                    resolved_prefix(calls, asg, i as int).union(resolved_targets(u, asg)).contains(
                        s,
                    ) implies resolved_prefix(calls, asg, i + 1).contains(s) by {
                    if resolved_targets(u, asg).contains(s) {
                        assert(resolved_targets(calls[i as int], asg).contains(s));
                    } else {
                        let k = choose|k: int|
                            0 <= k < i && #[trigger] resolved_targets(calls[k], asg).contains(s);
                        assert(resolved_targets(calls[k], asg).contains(s));
                    }
                }
            }
        }
        i += 1;
    }
    let functions_name = statement_value.build_full_name_functions();
    let ghost defined = facts.defined_names();
    proof {
        lemma_append_new_contains(Seq::empty(), defined);
    }
    let ghost attrs = facts.usage.attributes;
    let mut a: usize = 0;
    while a < statement_value.expression_value.used_attributes.len()
        invariant
            statement_value@ == facts,
            statement_value.wf(),
            attrs == facts.usage.attributes,
            defined == facts.defined_names(),
            functions_name.deep_view() == append_new(Seq::empty(), defined),
            forall|x: Seq<char>| #[trigger]
                functions_name.deep_view().contains(x) <==> defined.contains(x),
            a <= attrs.len(),
            used_functions.deep_view().no_duplicates(),
            used_functions.deep_view().to_set() == resolved_prefix(calls, asg, calls.len() as int).union(
                Set::new(
                    |s: Seq<char>|
                        exists|k: int| 0 <= k < a && attrs[k] == s && defined.contains(s),
                ),
            ),
        decreases attrs.len() - a,
    {
        let attribute = &statement_value.expression_value.used_attributes[a];
        let ghost before = used_functions.deep_view().to_set();
        let is_function = contains_string(&functions_name, attribute);
        if is_function {
            add_target(&mut used_functions, attribute.clone());
        }
        proof {
            assert(attribute@ == attrs[a as int]);
            let old_extra = Set::new(
                |s: Seq<char>| exists|k: int| 0 <= k < a && attrs[k] == s && defined.contains(s),
            );
            let new_extra = Set::new(
                |s: Seq<char>| exists|k: int| 0 <= k < a + 1 && attrs[k] == s && defined.contains(s),
            );
            assert forall|s: Seq<char>| new_extra.contains(s) implies (old_extra.contains(s) || (s
                == attribute@ && is_function)) by {
                let k = choose|k: int| 0 <= k < a + 1 && attrs[k] == s && defined.contains(s);
                if k < a {
                    assert(old_extra.contains(s));
                }
            }
            assert forall|s: Seq<char>| old_extra.contains(s) implies new_extra.contains(s) by {
                let k = choose|k: int| 0 <= k < a && attrs[k] == s && defined.contains(s);
                assert(0 <= k < a + 1 && attrs[k] == s && defined.contains(s));
            }
            if is_function {
                assert(new_extra.contains(attribute@)) by {
                    assert(0 <= a < a + 1 && attrs[a as int] == attribute@ && defined.contains(
                        attribute@,
                    ));
                }
            }
            assert(used_functions.deep_view().to_set() =~= resolved_prefix(
                calls,
                asg,
                calls.len() as int,
            ).union(new_extra));
        }
        a += 1;
    }
    proof {
        assert forall|s: Seq<char>| #[trigger]
            resolved_calls(facts).contains(s) == used_functions.deep_view().to_set().contains(
                s,
            ) by {
            if exists|u: Seq<char>|
                calls.contains(u) && #[trigger] resolved_targets(u, asg).contains(s) {
                let u = choose|u: Seq<char>|
                    calls.contains(u) && #[trigger] resolved_targets(u, asg).contains(s);
                let k = choose|k: int| 0 <= k < calls.len() && calls[k] == u;
                assert(resolved_targets(calls[k], asg).contains(s));
            }
            if resolved_prefix(calls, asg, calls.len() as int).contains(s) {
                let k = choose|k: int|
                    0 <= k < calls.len() && #[trigger] resolved_targets(calls[k], asg).contains(s);
                assert(calls.contains(calls[k]));
            }
            if attrs.contains(s) && defined.contains(s) {
                let k = choose|k: int| 0 <= k < attrs.len() && attrs[k] == s;
            }
        }
        assert(resolved_calls(facts) =~= used_functions.deep_view().to_set());
    }
    statement_value.expression_value.used_functions = used_functions;
    statement_value
}

} // verus!
