//! The expression analyzer: the usage facts of an expression subtree.
use vstd::prelude::*;

use crate::expression_value::{ExpressionValue, UsageFacts};
use crate::function_def::{copy_option, FunctionDef, FunctionId};
use crate::lists::lemma_append_new_single;
use crate::names::{dotted, join_dotted, qualified, qualify};
use crate::syntax::{Comprehension, Expr, Keyword};

verus! {

/// A bare name that is never taken for a function passed as a value.
pub open spec fn is_ignored_name(name: Seq<char>) -> bool {
    name == "staticmethod"@
}

/// The target of a call whose callee is `func`: `f` for `f(...)`, `g.attr` for
/// `g.attr(...)` and `g(...).attr(...)`; none for any other callee.
pub open spec fn call_target(func: Expr) -> Option<Seq<char>> {
    match func {
        Expr::Name { id } => Some(id@),
        Expr::Attribute { value, attr } => match *value {
            Expr::Name { id } => Some(dotted(id@, attr@)),
            Expr::Call { func: inner, .. } => match *inner {
                Expr::Name { id } => Some(dotted(id@, attr@)),
                _ => None,
            },
            _ => None,
        },
        _ => None,
    }
}

impl UsageFacts {
    /// A resolved call: the target is both called and referenced.
    pub open spec fn call(target: Seq<char>) -> UsageFacts {
        UsageFacts { calls: seq![target], names: seq![target], ..UsageFacts::empty() }
    }

    /// A bare name, which is also a candidate function unless it is ignored.
    pub open spec fn name(id: Seq<char>, file: Seq<char>, class_name: Option<Seq<char>>) -> UsageFacts {
        UsageFacts {
            names: seq![id],
            possible: if is_ignored_name(id) {
                Seq::empty()
            } else {
                seq![FunctionId { name: id, file, class_name }]
            },
            ..UsageFacts::empty()
        }
    }

    pub open spec fn attribute(full: Seq<char>) -> UsageFacts {
        UsageFacts { attributes: seq![full], ..UsageFacts::empty() }
    }
}

/// The usage facts of expression `e` in file `file`, inside class `class_name` if any.
pub open spec fn expr_facts(e: Expr, file: Seq<char>, class_name: Option<Seq<char>>) -> UsageFacts
    decreases e,
{
    match e {
        Expr::BoolOp { values } => exprs_facts(values@, file, class_name),
        Expr::NamedExpr { target, value } => expr_facts(*target, file, class_name).join(
            expr_facts(*value, file, class_name),
        ),
        Expr::BinOp { left, right } => expr_facts(*left, file, class_name).join(
            expr_facts(*right, file, class_name),
        ),
        Expr::UnaryOp { operand } => expr_facts(*operand, file, class_name),
        Expr::Lambda { body } => expr_facts(*body, file, class_name),
        Expr::IfExp { test, body, orelse } => expr_facts(*test, file, class_name).join(
            expr_facts(*orelse, file, class_name),
        ).join(expr_facts(*body, file, class_name)),
        Expr::Dict { keys, values } => optional_exprs_facts(keys@, file, class_name).join(
            exprs_facts(values@, file, class_name),
        ),
        Expr::SetDisplay { elts } => exprs_facts(elts@, file, class_name),
        Expr::ListComp { elt, generators } => expr_facts(*elt, file, class_name).join(
            generators_facts(generators@, file, class_name),
        ),
        Expr::SetComp { elt, generators } => expr_facts(*elt, file, class_name).join(
            generators_facts(generators@, file, class_name),
        ),
        Expr::DictComp { key, value, generators } => expr_facts(*key, file, class_name).join(
            expr_facts(*value, file, class_name),
        ).join(generators_facts(generators@, file, class_name)),
        Expr::GeneratorExp { elt, generators } => expr_facts(*elt, file, class_name).join(
            generators_facts(generators@, file, class_name),
        ),
        Expr::Await { value } => expr_facts(*value, file, class_name),
        Expr::Yield { value } => optional_facts(value, file, class_name),
        Expr::YieldFrom { value } => expr_facts(*value, file, class_name),
        Expr::Compare { left, comparators } => expr_facts(*left, file, class_name).join(
            exprs_facts(comparators@, file, class_name),
        ),
        Expr::Call { func, args, keywords } => {
            let own = match call_target(*func) {
                Some(target) => UsageFacts::call(qualified(class_name, target)),
                None => UsageFacts::empty(),
            };
            own.join(exprs_facts(args@, file, class_name)).join(
                keywords_facts(keywords@, file, class_name),
            )
        },
        Expr::FormattedValue { value, format_spec } => expr_facts(*value, file, class_name).join(
            optional_facts(format_spec, file, class_name),
        ),
        Expr::JoinedStr { values } => exprs_facts(values@, file, class_name),
        Expr::Constant => UsageFacts::empty(),
        Expr::Attribute { value, attr } => {
            let inner = expr_facts(*value, file, class_name);
            if inner.names.len() > 0 {
                inner.join(UsageFacts::attribute(dotted(inner.names[0], attr@)))
            } else {
                inner
            }
        },
        Expr::Subscript { value, slice } => expr_facts(*value, file, class_name).join(
            expr_facts(*slice, file, class_name),
        ),
        Expr::Starred { value } => expr_facts(*value, file, class_name),
        Expr::Name { id } => UsageFacts::name(id@, file, class_name),
        Expr::List { elts } => exprs_facts(elts@, file, class_name),
        Expr::Tuple { elts } => exprs_facts(elts@, file, class_name),
        Expr::Slice { lower, upper, step } => optional_facts(lower, file, class_name).join(
            optional_facts(upper, file, class_name),
        ).join(optional_facts(step, file, class_name)),
    }
}

/// The facts of a list of expressions, merged from first to last.
pub open spec fn exprs_facts(es: Seq<Expr>, file: Seq<char>, class_name: Option<Seq<char>>) -> UsageFacts
    decreases es,
{
    if es.len() == 0 {
        UsageFacts::empty()
    } else {
        exprs_facts(es.subrange(0, es.len() - 1), file, class_name).join(
            expr_facts(es[es.len() - 1], file, class_name),
        )
    }
}

/// The facts of an optional expression: none when it is absent.
pub open spec fn optional_facts(
    e: Option<Box<Expr>>,
    file: Seq<char>,
    class_name: Option<Seq<char>>,
) -> UsageFacts
    decreases e,
{
    match e {
        Some(inner) => expr_facts(*inner, file, class_name),
        None => UsageFacts::empty(),
    }
}

/// The facts of a list of optional expressions; absent ones are skipped.
pub open spec fn optional_exprs_facts(
    es: Seq<Option<Expr>>,
    file: Seq<char>,
    class_name: Option<Seq<char>>,
) -> UsageFacts
    decreases es,
{
    if es.len() == 0 {
        UsageFacts::empty()
    } else {
        let rest = optional_exprs_facts(es.subrange(0, es.len() - 1), file, class_name);
        match es[es.len() - 1] {
            Some(e) => rest.join(expr_facts(e, file, class_name)),
            None => rest,
        }
    }
}

/// The facts of the values of a list of keyword arguments.
pub open spec fn keywords_facts(
    ks: Seq<Keyword>,
    file: Seq<char>,
    class_name: Option<Seq<char>>,
) -> UsageFacts
    decreases ks,
{
    if ks.len() == 0 {
        UsageFacts::empty()
    } else {
        keywords_facts(ks.subrange(0, ks.len() - 1), file, class_name).join(
            expr_facts(ks[ks.len() - 1].value, file, class_name),
        )
    }
}

/// The facts of one comprehension clause: its target, its iterable, its conditions.
pub open spec fn comprehension_facts(
    g: Comprehension,
    file: Seq<char>,
    class_name: Option<Seq<char>>,
) -> UsageFacts
    decreases g,
{
    expr_facts(g.target, file, class_name).join(expr_facts(g.iter, file, class_name)).join(
        exprs_facts(g.ifs@, file, class_name),
    )
}

/// The facts of the clauses of a comprehension.
pub open spec fn generators_facts(
    gs: Seq<Comprehension>,
    file: Seq<char>,
    class_name: Option<Seq<char>>,
) -> UsageFacts
    decreases gs,
{
    if gs.len() == 0 {
        UsageFacts::empty()
    } else {
        generators_facts(gs.subrange(0, gs.len() - 1), file, class_name).join(
            comprehension_facts(gs[gs.len() - 1], file, class_name),
        )
    }
}

/// The target of a call on an attribute `value.attr`, when `value` is a bare name `g`
/// or a call whose callee is a bare name `g`: `g.attr`.
fn extract_inner_caller_id(value: &Expr, attr: &String) -> (r: Option<String>)
    ensures
        r.deep_view() == call_target(Expr::Attribute { value: Box::new(*value), attr: *attr }),
{
    match value {
        Expr::Call { func, .. } => match &**func {
            Expr::Name { id } => Some(join_dotted(id, attr.as_str())),
            _ => None,
        },
        Expr::Name { id } => Some(join_dotted(id, attr.as_str())),
        _ => None,
    }
}

/// The target of a call whose callee is `func`, if it can be named.
fn extract_called_function_id(func: &Expr) -> (r: Option<String>)
    ensures
        r.deep_view() == call_target(*func),
{
    match func {
        Expr::Name { id } => Some(id.clone()),
        Expr::Attribute { value, attr } => extract_inner_caller_id(value, attr),
        _ => None,
    }
}

/// The facts of a list of expressions.
pub fn handle_expressions(expressions: &Vec<Expr>, path: &String, class_name: Option<String>) -> (r:
    ExpressionValue)
    ensures
        r@ == exprs_facts(expressions@, path@, class_name.deep_view()),
        r.wf(),
    decreases expressions@,
{
    let ghost es = expressions@;
    let mut r = ExpressionValue::new();
    let mut i: usize = 0;
    while i < expressions.len()
        invariant
            i <= es.len(),
            es == expressions@,
            r@ == exprs_facts(es.subrange(0, i as int), path@, class_name.deep_view()),
            r.wf(),
        decreases es.len() - i,
    {
        proof {
            assert(es.subrange(0, i as int + 1).subrange(0, i as int) =~= es.subrange(0, i as int));
        }
        r.merge_expression_result(handle_expression(&expressions[i], path, copy_option(&class_name)));
        i += 1;
    }
    assert(es.subrange(0, es.len() as int) =~= es);
    r
}

/// The facts of an optional expression.
fn handle_optional(expression: &Option<Box<Expr>>, path: &String, class_name: Option<String>) -> (r:
    ExpressionValue)
    ensures
        r@ == optional_facts(*expression, path@, class_name.deep_view()),
        r.wf(),
    decreases expression,
{
    match expression {
        Some(inner) => handle_expression(inner, path, class_name),
        None => ExpressionValue::new(),
    }
}

/// The facts of a list of optional expressions (the keys of a dict display).
fn handle_optional_expressions(
    expressions: &Vec<Option<Expr>>,
    path: &String,
    class_name: Option<String>,
) -> (r: ExpressionValue)
    ensures
        r@ == optional_exprs_facts(expressions@, path@, class_name.deep_view()),
        r.wf(),
    decreases expressions@,
{
    let ghost es = expressions@;
    let mut r = ExpressionValue::new();
    let mut i: usize = 0;
    while i < expressions.len()
        invariant
            i <= es.len(),
            es == expressions@,
            r@ == optional_exprs_facts(es.subrange(0, i as int), path@, class_name.deep_view()),
            r.wf(),
        decreases es.len() - i,
    {
        proof {
            assert(es.subrange(0, i as int + 1).subrange(0, i as int) =~= es.subrange(0, i as int));
        }
        match &expressions[i] {
            Some(key) => {
                r.merge_expression_result(handle_expression(key, path, copy_option(&class_name)));
            },
            None => {},
        }
        i += 1;
    }
    assert(es.subrange(0, es.len() as int) =~= es);
    r
}

/// The facts of the values of keyword arguments.
fn handle_keywords(keywords: &Vec<Keyword>, path: &String, class_name: Option<String>) -> (r:
    ExpressionValue)
    ensures
        r@ == keywords_facts(keywords@, path@, class_name.deep_view()),
        r.wf(),
    decreases keywords@,
{
    let ghost ks = keywords@;
    let mut r = ExpressionValue::new();
    let mut i: usize = 0;
    while i < keywords.len()
        invariant
            i <= ks.len(),
            ks == keywords@,
            r@ == keywords_facts(ks.subrange(0, i as int), path@, class_name.deep_view()),
            r.wf(),
        decreases ks.len() - i,
    {
        proof {
            assert(ks.subrange(0, i as int + 1).subrange(0, i as int) =~= ks.subrange(0, i as int));
        }
        r.merge_expression_result(handle_expression(&keywords[i].value, path, copy_option(&class_name)));
        i += 1;
    }
    assert(ks.subrange(0, ks.len() as int) =~= ks);
    r
}

/// The facts of one comprehension clause.
fn handle_comprehension(generator: &Comprehension, path: &String, class_name: Option<String>) -> (r:
    ExpressionValue)
    ensures
        r@ == comprehension_facts(*generator, path@, class_name.deep_view()),
        r.wf(),
    decreases generator,
{
    let mut r = handle_expression(&generator.target, path, copy_option(&class_name));
    r.merge_expression_result(handle_expression(&generator.iter, path, copy_option(&class_name)));
    r.merge_expression_result(handle_expressions(&generator.ifs, path, class_name));
    r
}

/// The facts of the clauses of a comprehension.
fn extract_from_generators(
    generators: &Vec<Comprehension>,
    path: &String,
    class_name: Option<String>,
) -> (r: ExpressionValue)
    ensures
        r@ == generators_facts(generators@, path@, class_name.deep_view()),
        r.wf(),
    decreases generators@,
{
    let ghost gs = generators@;
    let mut r = ExpressionValue::new();
    let mut i: usize = 0;
    while i < generators.len()
        invariant
            i <= gs.len(),
            gs == generators@,
            r@ == generators_facts(gs.subrange(0, i as int), path@, class_name.deep_view()),
            r.wf(),
        decreases gs.len() - i,
    {
        proof {
            assert(gs.subrange(0, i as int + 1).subrange(0, i as int) =~= gs.subrange(0, i as int));
        }
        r.merge_expression_result(handle_comprehension(&generators[i], path, copy_option(&class_name)));
        i += 1;
    }
    assert(gs.subrange(0, gs.len() as int) =~= gs);
    r
}

/// The usage facts of `expression`, found in file `path` inside class `class_name` if any.
///
/// A call records its target, when it can be named, as a used function and a used
/// name, behind the enclosing class when there is one; a bare name records itself
/// and a candidate function; an attribute value `obj.attr` records `n.attr` for the
/// first name `n` found in `obj`. Every other node merges the facts of its children.
pub fn handle_expression(expression: &Expr, path: &String, class_name: Option<String>) -> (r:
    ExpressionValue)
    ensures
        r@ == expr_facts(*expression, path@, class_name.deep_view()),
        r.wf(),
    decreases expression,
{
    match expression {
        Expr::Call { func, args, keywords } => {
            let mut r = ExpressionValue::new();
            match extract_called_function_id(func) {
                Some(name) => {
                    let full_name = qualify(&class_name, &name);
                    r.insert(full_name.clone());
                    r.insert_name(full_name);
                    proof {
                        lemma_append_new_single(Seq::<Seq<char>>::empty(), full_name@);
                    }
                },
                None => {},
            }
            r.merge_expression_result(handle_expressions(args, path, copy_option(&class_name)));
            r.merge_expression_result(handle_keywords(keywords, path, class_name));
            r
        },
        Expr::BoolOp { values } => handle_expressions(values, path, class_name),
        Expr::NamedExpr { target, value } => {
            let mut r = handle_expression(target, path, copy_option(&class_name));
            r.merge_expression_result(handle_expression(value, path, class_name));
            r
        },
        Expr::BinOp { left, right } => {
            let mut r = handle_expression(left, path, copy_option(&class_name));
            r.merge_expression_result(handle_expression(right, path, class_name));
            r
        },
        Expr::UnaryOp { operand } => handle_expression(operand, path, class_name),
        Expr::Lambda { body } => handle_expression(body, path, class_name),
        Expr::IfExp { test, body, orelse } => {
            let mut r = handle_expression(test, path, copy_option(&class_name));
            r.merge_expression_result(handle_expression(orelse, path, copy_option(&class_name)));
            r.merge_expression_result(handle_expression(body, path, class_name));
            r
        },
        Expr::Dict { keys, values } => {
            let mut r = handle_optional_expressions(keys, path, copy_option(&class_name));
            r.merge_expression_result(handle_expressions(values, path, class_name));
            r
        },
        Expr::SetDisplay { elts } => handle_expressions(elts, path, class_name),
        Expr::ListComp { elt, generators } => {
            let mut r = handle_expression(elt, path, copy_option(&class_name));
            r.merge_expression_result(extract_from_generators(generators, path, class_name));
            r
        },
        Expr::SetComp { elt, generators } => {
            let mut r = handle_expression(elt, path, copy_option(&class_name));
            r.merge_expression_result(extract_from_generators(generators, path, class_name));
            r
        },
        Expr::DictComp { key, value, generators } => {
            let mut r = handle_expression(key, path, copy_option(&class_name));
            r.merge_expression_result(handle_expression(value, path, copy_option(&class_name)));
            r.merge_expression_result(extract_from_generators(generators, path, class_name));
            r
        },
        Expr::GeneratorExp { elt, generators } => {
            let mut r = handle_expression(elt, path, copy_option(&class_name));
            r.merge_expression_result(extract_from_generators(generators, path, class_name));
            r
        },
        Expr::Await { value } => handle_expression(value, path, class_name),
        Expr::Yield { value } => handle_optional(value, path, class_name),
        Expr::YieldFrom { value } => handle_expression(value, path, class_name),
        Expr::Compare { left, comparators } => {
            let mut r = handle_expression(left, path, copy_option(&class_name));
            r.merge_expression_result(handle_expressions(comparators, path, class_name));
            r
        },
        Expr::FormattedValue { value, format_spec } => {
            let mut r = handle_expression(value, path, copy_option(&class_name));
            r.merge_expression_result(handle_optional(format_spec, path, class_name));
            r
        },
        Expr::JoinedStr { values } => handle_expressions(values, path, class_name),
        Expr::Constant => ExpressionValue::new(),
        Expr::Attribute { value, attr } => {
            let mut r = handle_expression(value, path, class_name);
            if r.used_names.len() > 0 {
                let full_name = join_dotted(&r.used_names[0], attr.as_str());
                r.insert_attribute(full_name);
            }
            r
        },
        Expr::Subscript { value, slice } => {
            let mut r = handle_expression(value, path, copy_option(&class_name));
            r.merge_expression_result(handle_expression(slice, path, class_name));
            r
        },
        Expr::Starred { value } => handle_expression(value, path, class_name),
        Expr::Name { id } => {
            let mut r = ExpressionValue::new();
            r.insert_name(id.clone());
            proof {
                lemma_append_new_single(Seq::<Seq<char>>::empty(), id@);
            }
            let marker = String::from_str("staticmethod");
            if *id != marker {
                let candidate = FunctionDef::new(id.clone(), path.clone(), class_name);
                r.insert_possible_function(candidate);
                proof {
                    lemma_append_new_single(Seq::<FunctionId>::empty(), candidate@);
                }
            }
            r
        },
        Expr::List { elts } => handle_expressions(elts, path, class_name),
        Expr::Tuple { elts } => handle_expressions(elts, path, class_name),
        Expr::Slice { lower, upper, step } => {
            let mut r = handle_optional(lower, path, copy_option(&class_name));
            r.merge_expression_result(handle_optional(upper, path, copy_option(&class_name)));
            r.merge_expression_result(handle_optional(step, path, class_name));
            r
        },
    }
}

} // verus!
