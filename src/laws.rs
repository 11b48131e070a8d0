//! Laws of the analysis, proved over the models that the functions' contracts use.
use vstd::prelude::*;

use crate::analyzer::{
    contributes, is_source_path, project_facts, unused_report, used_after_resolution, SourceFile,
};
use crate::assignments::{resolved_calls, resolved_targets};
use crate::function_def::FunctionId;
use crate::lists::{lemma_append_new_absorbs, lemma_append_new_idempotent};
use crate::names::{after_last, before_last_dot, count_of, dot_count, dotted, last_segment};
use crate::statement_value::{
    merge_file_tables, merge_import_tables, FileFacts, FileImports, ImportId,
};

verus! {

/// Merging the same file's facts into an aggregate twice gives the same fact base
/// as merging them once. This holds of every collection: the import tables, whose
/// lists are merged without repeats, and the assignment table too, whose second
/// merge writes the same values over the same keys.
pub proof fn lemma_merge_twice_is_merge_once(aggregate: FileFacts, file: FileFacts)
    ensures
        aggregate.join(file).join(file) == aggregate.join(file),
{
    lemma_append_new_idempotent(aggregate.functions, file.functions);
    lemma_append_new_idempotent(aggregate.usage.calls, file.usage.calls);
    lemma_append_new_idempotent(aggregate.usage.names, file.usage.names);
    lemma_append_new_idempotent(aggregate.usage.attributes, file.usage.attributes);
    lemma_append_new_idempotent(aggregate.usage.possible, file.usage.possible);
    lemma_append_new_idempotent(aggregate.classes, file.classes);
    let once = aggregate.join(file);
    assert(once.assignments.union_prefer_right(file.assignments) =~= once.assignments);
    lemma_file_tables_idempotent(aggregate.files, file.files);
}

/// A table merged with itself is unchanged.
proof fn lemma_import_table_self(t: Map<Seq<char>, Seq<ImportId>>)
    ensures
        merge_import_tables(t, t) == t,
{
    assert forall|k: Seq<char>| t.contains_key(k) implies merge_import_tables(t, t)[k] == t[k] by {
        lemma_append_new_absorbs(t[k], t[k]);
    }
    assert(merge_import_tables(t, t) =~= t);
}

/// Merging the same import table twice is merging it once.
proof fn lemma_import_tables_idempotent(
    a: Map<Seq<char>, Seq<ImportId>>,
    b: Map<Seq<char>, Seq<ImportId>>,
)
    ensures
        merge_import_tables(merge_import_tables(a, b), b) == merge_import_tables(a, b),
{
    let once = merge_import_tables(a, b);
    assert forall|k: Seq<char>| once.contains_key(k) implies merge_import_tables(once, b)[k]
        == once[k] by {
        if a.contains_key(k) && b.contains_key(k) {
            lemma_append_new_idempotent(a[k], b[k]);
        } else if b.contains_key(k) {
            lemma_append_new_absorbs(b[k], b[k]);
        }
    }
    assert(merge_import_tables(once, b) =~= once);
}

/// Merging the same file tables twice is merging them once.
proof fn lemma_file_tables_idempotent(a: Map<Seq<char>, FileImports>, b: Map<Seq<char>, FileImports>)
    ensures
        merge_file_tables(merge_file_tables(a, b), b) == merge_file_tables(a, b),
{
    let once = merge_file_tables(a, b);
    assert forall|p: Seq<char>| once.contains_key(p) implies merge_file_tables(once, b)[p]
        == once[p] by {
        if a.contains_key(p) && b.contains_key(p) {
            lemma_import_tables_idempotent(a[p].imports, b[p].imports);
        } else if b.contains_key(p) {
            lemma_import_table_self(b[p].imports);
        }
    }
    assert(merge_file_tables(once, b) =~= once);
}

/// A file that does not take part (not a `.py` file, or under a `venv` path)
/// contributes no facts, whatever it holds and wherever it stands among the files.
pub proof fn lemma_excluded_file_contributes_nothing(
    before: Seq<SourceFile>,
    file: SourceFile,
    after: Seq<SourceFile>,
)
    requires
        !is_source_path(file.path@),
    ensures
        project_facts(before + seq![file] + after) == project_facts(before + after),
    decreases after.len(),
{
    let with = before + seq![file] + after;
    let without = before + after;
    if after.len() == 0 {
        assert(with.subrange(0, with.len() - 1) =~= before);
        assert(without =~= before);
        assert(!contributes(with[with.len() - 1]));
    } else {
        let shorter = after.subrange(0, after.len() - 1);
        lemma_excluded_file_contributes_nothing(before, file, shorter);
        assert(with.subrange(0, with.len() - 1) =~= before + seq![file] + shorter);
        assert(without.subrange(0, without.len() - 1) =~= before + shorter);
        assert(with[with.len() - 1] == without[without.len() - 1]);
    }
}

/// A call target with more than one dot, such as `a.b.c`, is kept as it is by the
/// assignment resolver, and so counts as used.
pub proof fn lemma_multi_dot_target_kept(facts: FileFacts, target: Seq<char>)
    requires
        facts.usage.calls.contains(target),
        dot_count(target) > 1,
    ensures
        resolved_calls(facts).contains(target),
        used_after_resolution(facts).contains(target),
{
    assert(resolved_targets(target, facts.assignments).contains(target));
}

proof fn lemma_count_of_concat(a: Seq<char>, b: Seq<char>, sep: char)
    ensures
        count_of(a + b, sep) == count_of(a, sep) + count_of(b, sep),
    decreases b.len(),
{
    if b.len() == 0 {
        assert(a + b =~= a);
    } else {
        lemma_count_of_concat(a, b.drop_last(), sep);
        assert((a + b).drop_last() =~= a + b.drop_last());
    }
}

proof fn lemma_after_last_concat(a: Seq<char>, b: Seq<char>, sep: char)
    requires
        count_of(b, sep) == 0,
    ensures
        after_last(a + seq![sep] + b, sep) == b,
    decreases b.len(),
{
    let s = a + seq![sep] + b;
    if b.len() == 0 {
        assert(s.last() == sep);
    } else {
        lemma_after_last_concat(a, b.drop_last(), sep);
        assert(s.drop_last() =~= a + seq![sep] + b.drop_last());
        assert(s.last() == b.last());
        assert(b.drop_last().push(b.last()) =~= b);
    }
}

/// The parts of `var.method`, when neither part holds a dot.
proof fn lemma_split_dotted(var: Seq<char>, method: Seq<char>)
    requires
        dot_count(var) == 0,
        dot_count(method) == 0,
    ensures
        dot_count(dotted(var, method)) == 1,
        last_segment(dotted(var, method)) == method,
        before_last_dot(dotted(var, method)) == var,
{
    let s = dotted(var, method);
    lemma_count_of_concat(var + seq!['.'], method, '.');
    lemma_count_of_concat(var, seq!['.'], '.');
    assert(seq!['.'].drop_last() =~= Seq::<char>::empty());
    assert(count_of(seq!['.'].drop_last(), '.') == 0);
    assert(count_of(seq!['.'], '.') == 1);
    lemma_after_last_concat(var, method, '.');
    assert(s.subrange(0, s.len() - method.len() - 1) =~= var);
}

/// A call `var.method()` where `var` was assigned from class `C` counts as a use of
/// `C.method`, `C.__init__` and `C.__new__`.
pub proof fn lemma_assigned_variable_call_resolved(
    facts: FileFacts,
    var: Seq<char>,
    method: Seq<char>,
)
    requires
        facts.usage.calls.contains(dotted(var, method)),
        dot_count(var) == 0,
        dot_count(method) == 0,
        facts.assignments.contains_key(var),
    ensures
        resolved_calls(facts).contains(dotted(facts.assignments[var], method)),
        resolved_calls(facts).contains(dotted(facts.assignments[var], "__init__"@)),
        resolved_calls(facts).contains(dotted(facts.assignments[var], "__new__"@)),
{
    lemma_split_dotted(var, method);
    let targets = resolved_targets(dotted(var, method), facts.assignments);
    assert(targets.contains(dotted(facts.assignments[var], method)));
    assert(targets.contains(dotted(facts.assignments[var], "__init__"@)));
    assert(targets.contains(dotted(facts.assignments[var], "__new__"@)));
}

/// A definition is reported exactly when its qualified name is not used.
proof fn lemma_reported_iff_unused(facts: FileFacts, d: FunctionId)
    requires
        facts.functions.contains(d),
    ensures
        unused_report(facts).contains((d.full_name(), d.file)) <==> !used_after_resolution(
            facts,
        ).contains(d.full_name()),
{
    if unused_report(facts).contains((d.full_name(), d.file)) {
        let e = choose|e: FunctionId|
            #[trigger] facts.functions.contains(e) && (d.full_name(), d.file) == (
                e.full_name(),
                e.file,
            ) && !used_after_resolution(facts).contains(e.full_name());
    }
}

/// Definitions that share a qualified name, in the same file or in different files,
/// are reported together or not at all: one use of the name counts for all of them.
pub proof fn lemma_shared_name_shared_fate(facts: FileFacts, first: FunctionId, second: FunctionId)
    requires
        facts.functions.contains(first),
        facts.functions.contains(second),
        first.full_name() == second.full_name(),
    ensures
        unused_report(facts).contains((first.full_name(), first.file)) <==> unused_report(
            facts,
        ).contains((second.full_name(), second.file)),
{
    lemma_reported_iff_unused(facts, first);
    lemma_reported_iff_unused(facts, second);
}

} // verus!
