//! The statement analyzer: the facts of a statement subtree, and of a file.
use vstd::prelude::*;

use crate::expression::{expr_facts, exprs_facts, handle_expression, handle_expressions};
use crate::expression_value::{ExpressionValue, UsageFacts};
use crate::function_def::{copy_option, FunctionDef, FunctionId};
use crate::lists::{append_new, keys_of, pairs_map, lemma_append_new_single, lemma_contains_split_last, upsert};
use crate::names::{last_part, last_segment};
use crate::statement_value::{
    add_import_entry, FileData, FileFacts, FileImports, ImportId, Imports, StatementValue,
};
use crate::syntax::{Alias, Expr, ExceptHandler, FunctionDefStmt, MatchCase, Stmt, WithItem};

verus! {

/// The facts of an optional expression: none when it is absent.
pub open spec fn optional_expr_facts(
    e: Option<Expr>,
    file: Seq<char>,
    class_name: Option<Seq<char>>,
) -> UsageFacts {
    match e {
        Some(inner) => expr_facts(inner, file, class_name),
        None => UsageFacts::empty(),
    }
}

/// The facts of the items of a `with` statement: each context expression, then
/// the variable it is bound to.
pub open spec fn with_items_facts(
    items: Seq<WithItem>,
    file: Seq<char>,
    class_name: Option<Seq<char>>,
) -> UsageFacts
    decreases items.len(),
{
    if items.len() == 0 {
        UsageFacts::empty()
    } else {
        let item = items[items.len() - 1];
        with_items_facts(items.subrange(0, items.len() - 1), file, class_name).join(
            expr_facts(item.context_expr, file, class_name).join(
                optional_expr_facts(item.optional_vars, file, class_name),
            ),
        )
    }
}

/// What an imported name records: its module path, the last segment of that path,
/// and its alias.
pub open spec fn import_of(alias: Alias) -> ImportId {
    ImportId { path: alias.name@, name: last_segment(alias.name@), alias: alias.asname.deep_view() }
}

/// The import table of one `import` statement.
pub open spec fn import_table(names: Seq<Alias>) -> Map<Seq<char>, Seq<ImportId>>
    decreases names.len(),
{
    if names.len() == 0 {
        Map::empty()
    } else {
        let alias = names[names.len() - 1];
        add_import_entry(
            import_table(names.subrange(0, names.len() - 1)),
            alias.name@,
            import_of(alias),
        )
    }
}

/// The facts of a simple assignment `targets = value`: when the value holds exactly
/// one name, every name of the targets is mapped to it.
pub open spec fn assign_facts(
    targets: Seq<Expr>,
    value: Expr,
    file: Seq<char>,
    class_name: Option<Seq<char>>,
) -> FileFacts {
    let right = expr_facts(value, file, class_name);
    let left = exprs_facts(targets, file, class_name);
    let facts = FileFacts::from_usage(right).add_usage(left);
    if right.names.len() == 1 {
        FileFacts {
            assignments: left.names.to_set().mk_map(|n: Seq<char>| right.names[0]),
            ..facts
        }
    } else {
        facts
    }
}

/// The facts of statement `s` in file `file`, inside class `class_name` if any.
pub open spec fn stmt_facts(s: Stmt, file: Seq<char>, class_name: Option<Seq<char>>) -> FileFacts
    decreases s,
{
    match s {
        Stmt::FunctionDef(d) => function_def_facts(d, file, class_name),
        Stmt::AsyncFunctionDef(d) => function_def_facts(d, file, class_name),
        Stmt::ClassDef { name, body } => class_body_facts(body@, name@, file),
        Stmt::Return { value } => FileFacts::from_usage(
            optional_expr_facts(value, file, class_name),
        ),
        Stmt::Delete { targets } => FileFacts::from_usage(exprs_facts(targets@, file, class_name)),
        Stmt::Assign { targets, value } => assign_facts(targets@, value, file, class_name),
        Stmt::AugAssign { target, value } => FileFacts::from_usage(
            expr_facts(value, file, class_name),
        ).add_usage(expr_facts(target, file, class_name)),
        Stmt::AnnAssign { target, annotation, value } => FileFacts::from_usage(
            optional_expr_facts(value, file, class_name),
        ).add_usage(expr_facts(annotation, file, class_name)).add_usage(
            expr_facts(target, file, class_name),
        ),
        Stmt::For { target, iter, body, orelse } => FileFacts::from_usage(
            expr_facts(target, file, class_name),
        ).add_usage(expr_facts(iter, file, class_name)).join(
            stmts_facts(body@, file, class_name),
        ).join(stmts_facts(orelse@, file, class_name)),
        Stmt::AsyncFor { target, iter, body, orelse } => FileFacts::from_usage(
            expr_facts(target, file, class_name),
        ).add_usage(expr_facts(iter, file, class_name)).join(
            stmts_facts(body@, file, class_name),
        ).join(stmts_facts(orelse@, file, class_name)),
        Stmt::While { test, body, orelse } => FileFacts::from_usage(
            expr_facts(test, file, class_name),
        ).join(stmts_facts(body@, file, class_name)).join(stmts_facts(orelse@, file, class_name)),
        Stmt::If { test, body, orelse } => FileFacts::from_usage(
            expr_facts(test, file, class_name),
        ).join(stmts_facts(body@, file, class_name)).join(stmts_facts(orelse@, file, class_name)),
        Stmt::With { items, body } => stmts_facts(body@, file, class_name).add_usage(
            with_items_facts(items@, file, class_name),
        ),
        Stmt::AsyncWith { items, body } => stmts_facts(body@, file, class_name).add_usage(
            with_items_facts(items@, file, class_name),
        ),
        Stmt::Match { subject, cases } => FileFacts::from_usage(
            expr_facts(subject, file, class_name),
        ).join(cases_facts(cases@, file, class_name)),
        Stmt::Raise { exc, cause } => FileFacts::from_usage(
            optional_expr_facts(exc, file, class_name),
        ).add_usage(optional_expr_facts(cause, file, class_name)),
        Stmt::Try { body, handlers, orelse, finalbody } => stmts_facts(
            body@,
            file,
            class_name,
        ).join(stmts_facts(orelse@, file, class_name)).join(
            stmts_facts(finalbody@, file, class_name),
        ).join(handlers_facts(handlers@, file, class_name)),
        Stmt::TryStar { body, handlers, orelse, finalbody } => stmts_facts(
            body@,
            file,
            class_name,
        ).join(stmts_facts(orelse@, file, class_name)).join(
            stmts_facts(finalbody@, file, class_name),
        ).join(handlers_facts(handlers@, file, class_name)),
        Stmt::Assert { test, msg } => FileFacts::from_usage(
            optional_expr_facts(msg, file, class_name),
        ).add_usage(expr_facts(test, file, class_name)),
        Stmt::Import { names } => FileFacts {
            files: Map::empty().insert(
                file,
                FileImports { path: file, imports: import_table(names@) },
            ),
            ..FileFacts::empty()
        },
        Stmt::Expr { value } => FileFacts::from_usage(expr_facts(value, file, class_name)),
        _ => FileFacts::empty(),
    }
}

/// The facts of a list of statements, merged from first to last.
pub open spec fn stmts_facts(ss: Seq<Stmt>, file: Seq<char>, class_name: Option<Seq<char>>) -> FileFacts
    decreases ss,
{
    if ss.len() == 0 {
        FileFacts::empty()
    } else {
        stmts_facts(ss.subrange(0, ss.len() - 1), file, class_name).join(
            stmt_facts(ss[ss.len() - 1], file, class_name),
        )
    }
}

/// The facts of a function definition: the definition itself, its body, and its
/// decorators as usage sites.
pub open spec fn function_def_facts(
    d: FunctionDefStmt,
    file: Seq<char>,
    class_name: Option<Seq<char>>,
) -> FileFacts
    decreases d,
{
    let own = FileFacts {
        functions: seq![FunctionId { name: d.name@, file, class_name }],
        ..FileFacts::empty()
    };
    own.join(stmts_facts(d.body@, file, class_name)).add_usage(
        exprs_facts(d.decorator_list@, file, class_name),
    )
}

/// The facts of the body of class `name`: each statement seen inside the class,
/// and the class recorded once a statement has been seen.
pub open spec fn class_body_facts(body: Seq<Stmt>, name: Seq<char>, file: Seq<char>) -> FileFacts
    decreases body,
{
    if body.len() == 0 {
        FileFacts::empty()
    } else {
        let f = class_body_facts(body.subrange(0, body.len() - 1), name, file).join(
            stmt_facts(body[body.len() - 1], file, Some(name)),
        );
        FileFacts { classes: append_new(f.classes, seq![name]), ..f }
    }
}

/// The facts of the cases of a `match`: each guard, then each body.
pub open spec fn cases_facts(
    cases: Seq<MatchCase>,
    file: Seq<char>,
    class_name: Option<Seq<char>>,
) -> FileFacts
    decreases cases,
{
    if cases.len() == 0 {
        FileFacts::empty()
    } else {
        let c = cases[cases.len() - 1];
        cases_facts(cases.subrange(0, cases.len() - 1), file, class_name).join(
            FileFacts::from_usage(optional_expr_facts(c.guard, file, class_name)).join(
                stmts_facts(c.body@, file, class_name),
            ),
        )
    }
}

/// The facts of the `except` clauses of a `try`: each exception type, then each body.
pub open spec fn handlers_facts(
    handlers: Seq<ExceptHandler>,
    file: Seq<char>,
    class_name: Option<Seq<char>>,
) -> FileFacts
    decreases handlers,
{
    if handlers.len() == 0 {
        FileFacts::empty()
    } else {
        let h = handlers[handlers.len() - 1];
        handlers_facts(handlers.subrange(0, handlers.len() - 1), file, class_name).join(
            FileFacts::from_usage(optional_expr_facts(h.type_, file, class_name)).join(
                stmts_facts(h.body@, file, class_name),
            ),
        )
    }
}

/// The facts of the top-level statements of the file at `file`.
pub open spec fn file_facts(file: Seq<char>, body: Seq<Stmt>) -> FileFacts {
    stmts_facts(body, file, None)
}

/// The facts of an optional expression.
fn handle_optional_expression(
    expression: &Option<Expr>,
    path: &String,
    class_name: Option<String>,
) -> (r: ExpressionValue)
    ensures
        r@ == optional_expr_facts(*expression, path@, class_name.deep_view()),
        r.wf(),
{
    match expression {
        Some(inner) => handle_expression(inner, path, class_name),
        None => ExpressionValue::new(),
    }
}

/// The facts of the items of a `with` statement.
fn handle_with_items(items: &Vec<WithItem>, path: &String, class_name: Option<String>) -> (r:
    ExpressionValue)
    ensures
        r@ == with_items_facts(items@, path@, class_name.deep_view()),
        r.wf(),
{
    let ghost its = items@;
    let mut r = ExpressionValue::new();
    let mut i: usize = 0;
    while i < items.len()
        invariant
            i <= its.len(),
            its == items@,
            r@ == with_items_facts(its.subrange(0, i as int), path@, class_name.deep_view()),
            r.wf(),
        decreases its.len() - i,
    {
        proof {
            assert(its.subrange(0, i as int + 1).subrange(0, i as int) =~= its.subrange(0, i as int));
        }
        let item = &items[i];
        let mut facts = handle_expression(&item.context_expr, path, copy_option(&class_name));
        facts.merge_expression_result(
            handle_optional_expression(&item.optional_vars, path, copy_option(&class_name)),
        );
        r.merge_expression_result(facts);
        i += 1;
    }
    assert(its.subrange(0, its.len() as int) =~= its);
    r
}

/// The import table of the file at `path` after one `import` statement.
fn handle_import(names: &Vec<Alias>, path: &String) -> (r: FileData)
    ensures
        r.deep_view() == (FileImports { path: path@, imports: import_table(names@) }),
        r.wf(),
{
    let ghost ns = names@;
    let mut file_data = FileData::new(path.clone());
    let mut i: usize = 0;
    while i < names.len()
        invariant
            i <= ns.len(),
            ns == names@,
            file_data.wf(),
            file_data.deep_view() == (FileImports {
                path: path@,
                imports: import_table(ns.subrange(0, i as int)),
            }),
        decreases ns.len() - i,
    {
        proof {
            assert(ns.subrange(0, i as int + 1).subrange(0, i as int) =~= ns.subrange(0, i as int));
        }
        let alias = &names[i];
        let import_data = Imports::new(
            alias.name.clone(),
            last_part(&alias.name),
            copy_option(&alias.asname),
        );
        file_data.add_import(alias.name.clone(), import_data);
        i += 1;
    }
    assert(ns.subrange(0, ns.len() as int) =~= ns);
    file_data
}

/// The facts of `targets = value`.
fn handle_assign(targets: &Vec<Expr>, value: &Expr, path: &String, class_name: Option<String>) -> (r:
    StatementValue)
    ensures
        r@ == assign_facts(targets@, *value, path@, class_name.deep_view()),
        r.wf(),
{
    let right_side = handle_expression(value, path, copy_option(&class_name));
    let left_side = handle_expressions(targets, path, class_name);
    let mut statement_value = StatementValue::new();
    if right_side.used_names.len() == 1 {
        let ghost c = right_side@.names[0];
        let ghost left = left_side@.names;
        assert(left.subrange(0, 0).to_set().mk_map(|n: Seq<char>| c) =~= Map::empty());
        let mut i: usize = 0;
        while i < left_side.used_names.len()
            invariant
                i <= left.len(),
                left == left_side.used_names.deep_view(),
                c == right_side.used_names.deep_view()[0],
                right_side.used_names.len() == 1,
                statement_value.wf(),
                statement_value@ == (FileFacts {
                    assignments: left.subrange(0, i as int).to_set().mk_map(
                        |n: Seq<char>| c,
                    ),
                    ..FileFacts::empty()
                }),
            decreases left.len() - i,
        {
            let ghost before = statement_value.assignments.deep_view();
            upsert(
                &mut statement_value.assignments,
                left_side.used_names[i].clone(),
                right_side.used_names[0].clone(),
            );
            proof {
                let t = left.subrange(0, i as int + 1);
                assert(t.drop_last() =~= left.subrange(0, i as int));
                lemma_contains_split_last(t);
                assert(left.subrange(0, i as int + 1).to_set() =~= left.subrange(
                    0,
                    i as int,
                ).to_set().insert(left[i as int]));
                assert(left.subrange(0, i as int + 1).to_set().mk_map(|n: Seq<char>| c)
                    =~= left.subrange(0, i as int).to_set().mk_map(|n: Seq<char>| c).insert(
                    left[i as int],
                    c,
                ));
            }
            i += 1;
        }
        assert(left.subrange(0, left.len() as int) =~= left);
    }
    statement_value.merge_expression_value(right_side);
    statement_value.merge_expression_value(left_side);
    statement_value
}

/// Facts that hold no definition and no usage.
fn get_empty_result() -> (r: StatementValue)
    ensures
        r@ == FileFacts::empty(),
        r.wf(),
{
    StatementValue::new()
}

/// The facts of a list of statements.
pub fn handle_statements(statements: &Vec<Stmt>, path: &String, class_name: Option<String>) -> (r:
    StatementValue)
    ensures
        r@ == stmts_facts(statements@, path@, class_name.deep_view()),
        r.wf(),
    decreases statements@,
{
    let ghost ss = statements@;
    let mut r = StatementValue::new();
    let mut i: usize = 0;
    while i < statements.len()
        invariant
            i <= ss.len(),
            ss == statements@,
            r@ == stmts_facts(ss.subrange(0, i as int), path@, class_name.deep_view()),
            r.wf(),
        decreases ss.len() - i,
    {
        proof {
            assert(ss.subrange(0, i as int + 1).subrange(0, i as int) =~= ss.subrange(0, i as int));
        }
        r.merge_statement_value(handle_statement(&statements[i], path, copy_option(&class_name)));
        i += 1;
    }
    assert(ss.subrange(0, ss.len() as int) =~= ss);
    r
}

/// The facts of a `def` or `async def`.
fn handle_function_def(data: &FunctionDefStmt, path: &String, class_name: Option<String>) -> (r:
    StatementValue)
    ensures
        r@ == function_def_facts(*data, path@, class_name.deep_view()),
        r.wf(),
    decreases data,
{
    let mut statement_value = StatementValue::new();
    let definition = FunctionDef::new(data.name.clone(), path.clone(), copy_option(&class_name));
    let ghost id = definition@;
    statement_value.insert_function(definition);
    proof {
        lemma_append_new_single(Seq::<FunctionId>::empty(), id);
    }
    statement_value.merge_statement_value(
        handle_statements(&data.body, path, copy_option(&class_name)),
    );
    statement_value.merge_expression_value(
        handle_expressions(&data.decorator_list, path, class_name),
    );
    statement_value
}

/// The facts of the body of class `name`.
fn handle_class_def(name: &String, body: &Vec<Stmt>, path: &String) -> (r: StatementValue)
    ensures
        r@ == class_body_facts(body@, name@, path@),
        r.wf(),
    decreases body@,
{
    let ghost ss = body@;
    let mut statement_value = StatementValue::new();
    let mut i: usize = 0;
    while i < body.len()
        invariant
            i <= ss.len(),
            ss == body@,
            statement_value@ == class_body_facts(ss.subrange(0, i as int), name@, path@),
            statement_value.wf(),
        decreases ss.len() - i,
    {
        proof {
            assert(ss.subrange(0, i as int + 1).subrange(0, i as int) =~= ss.subrange(0, i as int));
        }
        statement_value.merge_statement_value(handle_statement(&body[i], path, Some(name.clone())));
        statement_value.insert_class(name.clone());
        i += 1;
    }
    assert(ss.subrange(0, ss.len() as int) =~= ss);
    statement_value
}

/// The facts of the cases of a `match`.
fn handle_cases(cases: &Vec<MatchCase>, path: &String, class_name: Option<String>) -> (r:
    StatementValue)
    ensures
        r@ == cases_facts(cases@, path@, class_name.deep_view()),
        r.wf(),
    decreases cases@,
{
    let ghost cs = cases@;
    let mut r = StatementValue::new();
    let mut i: usize = 0;
    while i < cases.len()
        invariant
            i <= cs.len(),
            cs == cases@,
            r@ == cases_facts(cs.subrange(0, i as int), path@, class_name.deep_view()),
            r.wf(),
        decreases cs.len() - i,
    {
        proof {
            assert(cs.subrange(0, i as int + 1).subrange(0, i as int) =~= cs.subrange(0, i as int));
        }
        let case = &cases[i];
        let mut facts = StatementValue::new();
        facts.merge_expression_value(
            handle_optional_expression(&case.guard, path, copy_option(&class_name)),
        );
        facts.merge_statement_value(handle_statements(&case.body, path, copy_option(&class_name)));
        r.merge_statement_value(facts);
        i += 1;
    }
    assert(cs.subrange(0, cs.len() as int) =~= cs);
    r
}

/// The facts of the `except` clauses of a `try`.
fn handle_handlers(handlers: &Vec<ExceptHandler>, path: &String, class_name: Option<String>) -> (r:
    StatementValue)
    ensures
        r@ == handlers_facts(handlers@, path@, class_name.deep_view()),
        r.wf(),
    decreases handlers@,
{
    let ghost hs = handlers@;
    let mut r = StatementValue::new();
    let mut i: usize = 0;
    while i < handlers.len()
        invariant
            i <= hs.len(),
            hs == handlers@,
            r@ == handlers_facts(hs.subrange(0, i as int), path@, class_name.deep_view()),
            r.wf(),
        decreases hs.len() - i,
    {
        proof {
            assert(hs.subrange(0, i as int + 1).subrange(0, i as int) =~= hs.subrange(0, i as int));
        }
        let handler = &handlers[i];
        let mut facts = StatementValue::new();
        facts.merge_expression_value(
            handle_optional_expression(&handler.type_, path, copy_option(&class_name)),
        );
        facts.merge_statement_value(handle_statements(&handler.body, path, copy_option(&class_name)));
        r.merge_statement_value(facts);
        i += 1;
    }
    assert(hs.subrange(0, hs.len() as int) =~= hs);
    r
}

/// The facts of `statement`, found in file `path` inside class `class_name` if any.
///
/// A definition records itself and the facts of its body and decorators; a class
/// body is analyzed inside the class; an assignment whose value holds exactly one
/// name maps each name of its targets to it; an `import` records the file's import
/// table. Every other statement merges the facts of its expressions and blocks.
fn handle_statement(statement: &Stmt, path: &String, class_name: Option<String>) -> (r:
    StatementValue)
    ensures
        r@ == stmt_facts(*statement, path@, class_name.deep_view()),
        r.wf(),
    decreases statement,
{
    match statement {
        Stmt::FunctionDef(data) => handle_function_def(data, path, class_name),
        Stmt::AsyncFunctionDef(data) => handle_function_def(data, path, class_name),
        Stmt::Expr { value } => {
            let mut statement_value = StatementValue::new();
            statement_value.merge_expression_value(handle_expression(value, path, class_name));
            statement_value
        },
        Stmt::ClassDef { name, body } => handle_class_def(name, body, path),
        Stmt::Return { value } => {
            let mut statement_value = StatementValue::new();
            statement_value.merge_expression_value(
                handle_optional_expression(value, path, class_name),
            );
            statement_value
        },
        Stmt::Assign { targets, value } => handle_assign(targets, value, path, class_name),
        Stmt::AugAssign { target, value } => {
            let mut statement_value = StatementValue::new();
            statement_value.merge_expression_value(
                handle_expression(value, path, copy_option(&class_name)),
            );
            statement_value.merge_expression_value(handle_expression(target, path, class_name));
            statement_value
        },
        Stmt::AnnAssign { target, annotation, value } => {
            let mut statement_value = StatementValue::new();
            statement_value.merge_expression_value(
                handle_optional_expression(value, path, copy_option(&class_name)),
            );
            statement_value.merge_expression_value(
                handle_expression(annotation, path, copy_option(&class_name)),
            );
            statement_value.merge_expression_value(handle_expression(target, path, class_name));
            statement_value
        },
        Stmt::Delete { targets } => {
            let mut statement_value = StatementValue::new();
            statement_value.merge_expression_value(handle_expressions(targets, path, class_name));
            statement_value
        },
        Stmt::For { target, iter, body, orelse } | Stmt::AsyncFor { target, iter, body, orelse } => {
            let mut statement_value = StatementValue::new();
            statement_value.merge_expression_value(
                handle_expression(target, path, copy_option(&class_name)),
            );
            statement_value.merge_expression_value(
                handle_expression(iter, path, copy_option(&class_name)),
            );
            statement_value.merge_statement_value(
                handle_statements(body, path, copy_option(&class_name)),
            );
            statement_value.merge_statement_value(handle_statements(orelse, path, class_name));
            statement_value
        },
        Stmt::While { test, body, orelse } | Stmt::If { test, body, orelse } => {
            let mut statement_value = StatementValue::new();
            statement_value.merge_expression_value(
                handle_expression(test, path, copy_option(&class_name)),
            );
            statement_value.merge_statement_value(
                handle_statements(body, path, copy_option(&class_name)),
            );
            statement_value.merge_statement_value(handle_statements(orelse, path, class_name));
            statement_value
        },
        Stmt::With { items, body } | Stmt::AsyncWith { items, body } => {
            let mut statement_value = handle_statements(body, path, copy_option(&class_name));
            statement_value.merge_expression_value(handle_with_items(items, path, class_name));
            statement_value
        },
        Stmt::Match { subject, cases } => {
            let mut statement_value = StatementValue::new();
            statement_value.merge_expression_value(
                handle_expression(subject, path, copy_option(&class_name)),
            );
            statement_value.merge_statement_value(handle_cases(cases, path, class_name));
            statement_value
        },
        Stmt::Raise { exc, cause } => {
            let mut statement_value = StatementValue::new();
            statement_value.merge_expression_value(
                handle_optional_expression(exc, path, copy_option(&class_name)),
            );
            statement_value.merge_expression_value(
                handle_optional_expression(cause, path, class_name),
            );
            statement_value
        },
        Stmt::Try { body, handlers, orelse, finalbody }
        | Stmt::TryStar { body, handlers, orelse, finalbody } => {
            let mut statement_value = handle_statements(body, path, copy_option(&class_name));
            statement_value.merge_statement_value(
                handle_statements(orelse, path, copy_option(&class_name)),
            );
            statement_value.merge_statement_value(
                handle_statements(finalbody, path, copy_option(&class_name)),
            );
            statement_value.merge_statement_value(handle_handlers(handlers, path, class_name));
            statement_value
        },
        Stmt::Assert { test, msg } => {
            let mut statement_value = StatementValue::new();
            statement_value.merge_expression_value(
                handle_optional_expression(msg, path, copy_option(&class_name)),
            );
            statement_value.merge_expression_value(handle_expression(test, path, class_name));
            statement_value
        },
        Stmt::Import { names } => {
            let file_data = handle_import(names, path);
            let mut statement_value = StatementValue::new();
            let ghost entry = (path@, file_data.deep_view());
            statement_value.files.push((path.clone(), file_data));
            proof {
                let t = statement_value.files.deep_view();
                assert(t.len() == 1);
                assert(t[0] == entry);
                assert(t.drop_last() =~= Seq::<(Seq<char>, FileImports)>::empty());
                assert(keys_of(t) =~= seq![entry.0]);
                assert(pairs_map(t.drop_last()) =~= Map::<Seq<char>, FileImports>::empty());
                assert(pairs_map(t) == Map::<Seq<char>, FileImports>::empty().insert(
                    entry.0,
                    entry.1,
                ));
            }
            assert(statement_value@ =~= stmt_facts(*statement, path@, class_name.deep_view()));
            statement_value
        },
        Stmt::ImportFrom
        | Stmt::Global
        | Stmt::Nonlocal
        | Stmt::Pass
        | Stmt::Break
        | Stmt::Continue
        | Stmt::TypeAlias => get_empty_result(),
    }
}

/// The facts of the file at `path` whose top-level statements are `body`.
pub fn extract_file_data(path: &String, body: &Vec<Stmt>) -> (r: StatementValue)
    ensures
        r@ == file_facts(path@, body@),
        r.wf(),
{
    handle_statements(body, path, None)
}

} // verus!
