use py_space::expression::handle_expression;
use py_space::expression_value::ExpressionValue;
use py_space::function_def::FunctionDef;
use py_space::names::{last_part, qualify};
use py_space::statement::extract_file_data;
use py_space::syntax::{Alias, Comprehension, Expr, Keyword, Stmt, WithItem};

fn s(text: &str) -> String {
    text.to_string()
}

fn name(id: &str) -> Expr {
    Expr::Name { id: s(id) }
}

fn call(func: Expr, args: Vec<Expr>) -> Expr {
    Expr::Call { func: Box::new(func), args, keywords: Vec::new() }
}

#[test]
fn full_name_of_method_and_function() {
    let method = FunctionDef::new(s("m"), s("a.py"), Some(s("C")));
    assert_eq!(method.full_name(), "C.m");
    let function = FunctionDef::new(s("f"), s("a.py"), None);
    assert_eq!(function.full_name(), "f");
    assert_eq!(qualify(&Some(s("Outer")), &s("x")), "Outer.x");
}

#[test]
fn last_part_of_dotted_paths() {
    assert_eq!(last_part(&s("a.b.c")), "c");
    assert_eq!(last_part(&s("abc")), "abc");
    assert_eq!(last_part(&s("a.")), "");
}

#[test]
fn bare_name_is_candidate_function() {
    let r = handle_expression(&name("cb"), &s("a.py"), Some(s("K")));
    assert_eq!(r.used_names, vec![s("cb")]);
    assert_eq!(r.possible_functions, vec![FunctionDef::new(s("cb"), s("a.py"), Some(s("K")))]);
    assert!(r.used_functions.is_empty());
}

#[test]
fn static_method_marker_is_not_a_candidate() {
    let r = handle_expression(&name("staticmethod"), &s("a.py"), None);
    assert_eq!(r.used_names, vec![s("staticmethod")]);
    assert!(r.possible_functions.is_empty());
}

#[test]
fn call_targets() {
    let direct = handle_expression(&call(name("f"), vec![]), &s("a.py"), None);
    assert_eq!(direct.used_functions, vec![s("f")]);
    assert_eq!(direct.used_names, vec![s("f")]);
    let chained = Expr::Attribute { value: Box::new(call(name("g"), vec![])), attr: s("h") };
    let r = handle_expression(&call(chained, vec![]), &s("a.py"), None);
    assert_eq!(r.used_functions, vec![s("g.h")]);
    let deep = Expr::Attribute {
        value: Box::new(Expr::Attribute { value: Box::new(name("a")), attr: s("b") }),
        attr: s("c"),
    };
    let r = handle_expression(&call(deep, vec![name("x")]), &s("a.py"), None);
    assert!(r.used_functions.is_empty());
    assert_eq!(r.used_names, vec![s("x")]);
}

#[test]
fn keyword_values_are_analyzed() {
    let e = Expr::Call {
        func: Box::new(name("f")),
        args: Vec::new(),
        keywords: vec![Keyword { arg: Some(s("key")), value: call(name("g"), vec![]) }],
    };
    let r = handle_expression(&e, &s("a.py"), None);
    assert_eq!(r.used_functions, vec![s("f"), s("g")]);
}

#[test]
fn attribute_value_records_first_name() {
    let e = Expr::Attribute { value: Box::new(name("obj")), attr: s("field") };
    let r = handle_expression(&e, &s("a.py"), None);
    assert_eq!(r.used_attributes, vec![s("obj.field")]);
    assert!(r.used_functions.is_empty());
    let constant = Expr::Attribute { value: Box::new(Expr::Constant), attr: s("upper") };
    let r = handle_expression(&constant, &s("a.py"), None);
    assert!(r.used_attributes.is_empty());
}

#[test]
fn comprehension_parts_are_analyzed() {
    let e = Expr::ListComp {
        elt: Box::new(call(name("helper"), vec![name("x")])),
        generators: vec![Comprehension {
            target: name("x"),
            iter: name("items"),
            ifs: vec![call(name("check"), vec![name("x")])],
        }],
    };
    let r = handle_expression(&e, &s("a.py"), None);
    assert_eq!(r.used_functions, vec![s("helper"), s("check")]);
    assert_eq!(r.used_names, vec![s("helper"), s("x"), s("items"), s("check")]);
}

#[test]
fn nested_structures_merge_children() {
    let e = Expr::Dict {
        keys: vec![None, Some(name("k"))],
        values: vec![
            Expr::Slice {
                lower: Some(Box::new(name("lo"))),
                upper: None,
                step: Some(Box::new(call(name("step"), vec![]))),
            },
            Expr::IfExp {
                test: Box::new(name("t")),
                body: Box::new(name("b")),
                orelse: Box::new(name("o")),
            },
        ],
    };
    let r = handle_expression(&e, &s("a.py"), None);
    assert_eq!(r.used_names, vec![s("k"), s("lo"), s("step"), s("t"), s("o"), s("b")]);
    assert_eq!(r.used_functions, vec![s("step")]);
}

#[test]
fn merged_facts_keep_each_element_once() {
    let mut a = handle_expression(&call(name("f"), vec![name("x")]), &s("a.py"), None);
    let b = handle_expression(&call(name("f"), vec![name("y")]), &s("a.py"), None);
    a.merge_expression_result(b);
    assert_eq!(a.used_functions, vec![s("f")]);
    assert_eq!(a.used_names, vec![s("f"), s("x"), s("y")]);
    let mut empty = ExpressionValue::new();
    assert!(empty.insert(s("g")));
    assert!(!empty.insert(s("g")));
}

#[test]
fn class_body_and_blocks() {
    let body = vec![
        Stmt::ClassDef {
            name: s("A"),
            body: vec![Stmt::FunctionDef(py_space::syntax::FunctionDefStmt {
                name: s("m"),
                decorator_list: Vec::new(),
                body: vec![Stmt::With {
                    items: vec![WithItem {
                        context_expr: call(name("open_it"), vec![]),
                        optional_vars: Some(name("h")),
                    }],
                    body: vec![Stmt::Return { value: Some(call(name("done"), vec![])) }],
                }],
            })],
        },
        Stmt::ClassDef { name: s("Empty"), body: Vec::new() },
    ];
    let facts = extract_file_data(&s("pkg/a.py"), &body);
    assert_eq!(facts.functions, vec![FunctionDef::new(s("m"), s("pkg/a.py"), Some(s("A")))]);
    assert_eq!(facts.classes, vec![s("A")]);
    assert_eq!(facts.expression_value.used_functions, vec![s("A.done"), s("A.open_it")]);
}

#[test]
fn import_records_module_paths() {
    let body = vec![Stmt::Import {
        names: vec![
            Alias { name: s("a.b.c"), asname: None },
            Alias { name: s("os"), asname: Some(s("o")) },
            Alias { name: s("os"), asname: None },
        ],
    }];
    let facts = extract_file_data(&s("pkg/m.py"), &body);
    assert_eq!(facts.files.len(), 1);
    let (path, data) = &facts.files[0];
    assert_eq!(path, "pkg/m.py");
    assert_eq!(data.path, "pkg/m.py");
    assert_eq!(data.imports.len(), 2);
    assert_eq!(data.imports[0].0, "a.b.c");
    assert_eq!(data.imports[0].1[0].name, "c");
    assert_eq!(data.imports[0].1[0].alias, None);
    assert_eq!(data.imports[1].0, "os");
    assert_eq!(data.imports[1].1.len(), 2);
    assert_eq!(data.imports[1].1[0].alias, Some(s("o")));
    assert!(facts.expression_value.used_names.is_empty());
}

#[test]
fn no_op_statements_contribute_nothing() {
    let body = vec![Stmt::Pass, Stmt::Global, Stmt::ImportFrom, Stmt::Break, Stmt::Continue];
    let facts = extract_file_data(&s("a.py"), &body);
    assert!(facts.functions.is_empty());
    assert!(facts.expression_value.used_names.is_empty());
    assert!(facts.files.is_empty());
}

#[test]
fn import_tables_of_one_file_are_merged() {
    let body = vec![
        Stmt::Import { names: vec![Alias { name: s("os"), asname: None }] },
        Stmt::Import { names: vec![Alias { name: s("sys"), asname: None }] },
        Stmt::Import { names: vec![Alias { name: s("os"), asname: Some(s("o")) }] },
        Stmt::Import { names: vec![Alias { name: s("os"), asname: None }] },
    ];
    let facts = extract_file_data(&s("pkg/m.py"), &body);
    assert_eq!(facts.files.len(), 1);
    let data = &facts.files[0].1;
    assert_eq!(data.imports.len(), 2);
    assert_eq!(data.imports[0].0, "os");
    assert_eq!(data.imports[0].1.len(), 2);
    assert_eq!(data.imports[0].1[0].alias, None);
    assert_eq!(data.imports[0].1[1].alias, Some(s("o")));
    assert_eq!(data.imports[1].0, "sys");
}
