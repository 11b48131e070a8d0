use py_space::analyzer::{
    analyze_files, find_unused_functions, is_source_file, render_report, SourceFile,
};
use py_space::assignments::fix_assignments;
use py_space::errors::PySpaceError;
use py_space::statement::extract_file_data;
use py_space::statement_value::StatementValue;
use py_space::syntax::{Expr, FunctionDefStmt, Stmt};

fn s(text: &str) -> String {
    text.to_string()
}

fn name(id: &str) -> Expr {
    Expr::Name { id: s(id) }
}

fn attr(value: Expr, attribute: &str) -> Expr {
    Expr::Attribute { value: Box::new(value), attr: s(attribute) }
}

fn call(func: Expr, args: Vec<Expr>) -> Expr {
    Expr::Call { func: Box::new(func), args, keywords: Vec::new() }
}

fn def(function: &str, body: Vec<Stmt>) -> Stmt {
    Stmt::FunctionDef(FunctionDefStmt { name: s(function), decorator_list: Vec::new(), body })
}

fn class(class_name: &str, body: Vec<Stmt>) -> Stmt {
    Stmt::ClassDef { name: s(class_name), body }
}

fn expr(value: Expr) -> Stmt {
    Stmt::Expr { value }
}

fn assign(target: Expr, value: Expr) -> Stmt {
    Stmt::Assign { targets: vec![target], value }
}

fn file(path: &str, body: Vec<Stmt>) -> SourceFile {
    SourceFile::new(s(path), Ok(body))
}

fn report(files: Vec<SourceFile>) -> Vec<(String, String)> {
    let mut r = find_unused_functions(&files);
    r.sort();
    r
}

fn pairs(items: &[(&str, &str)]) -> Vec<(String, String)> {
    let mut r: Vec<(String, String)> = items.iter().map(|(a, b)| (s(a), s(b))).collect();
    r.sort();
    r
}

fn widget_file(path: &str) -> SourceFile {
    file(path, vec![class("Widget", vec![def("run", vec![Stmt::Pass])])])
}

#[test]
fn basic_unused_detection() {
    let files = vec![file("proj/a.py", vec![def("foo", vec![Stmt::Pass])])];
    assert_eq!(report(files), pairs(&[("foo", "proj/a.py")]));
}

#[test]
fn used_by_call_suppresses_report() {
    let files = vec![file(
        "proj/a.py",
        vec![def("foo", vec![Stmt::Pass]), expr(call(name("foo"), vec![]))],
    )];
    assert_eq!(report(files), pairs(&[]));
}

#[test]
fn empty_project_reports_nothing() {
    assert_eq!(report(Vec::new()), pairs(&[]));
}

#[test]
fn assignment_resolution() {
    let files = vec![
        file("proj/foo.py", vec![class("Foo", vec![def("bar", vec![Stmt::Pass])])]),
        file(
            "proj/main.py",
            vec![
                assign(name("var"), call(name("Foo"), vec![])),
                expr(call(attr(name("var"), "bar"), vec![])),
            ],
        ),
    ];
    let facts = fix_assignments(analyze_files(&files));
    let used = &facts.expression_value.used_functions;
    assert!(used.contains(&s("Foo.bar")));
    assert!(used.contains(&s("Foo.__init__")));
    assert!(used.contains(&s("Foo.__new__")));
    assert!(!used.contains(&s("var.bar")));
    assert_eq!(report(files), pairs(&[]));
}

#[test]
fn assignment_last_write_wins() {
    let files = vec![
        file("proj/a.py", vec![assign(name("v"), call(name("A"), vec![]))]),
        file("proj/b.py", vec![assign(name("v"), call(name("B"), vec![]))]),
        file("proj/c.py", vec![expr(call(attr(name("v"), "run"), vec![]))]),
    ];
    let facts = fix_assignments(analyze_files(&files));
    let used = &facts.expression_value.used_functions;
    assert!(used.contains(&s("B.run")));
    assert!(!used.contains(&s("A.run")));

    let reversed = vec![
        file("proj/b.py", vec![assign(name("v"), call(name("B"), vec![]))]),
        file("proj/a.py", vec![assign(name("v"), call(name("A"), vec![]))]),
        file("proj/c.py", vec![expr(call(attr(name("v"), "run"), vec![]))]),
    ];
    let facts = fix_assignments(analyze_files(&reversed));
    let used = &facts.expression_value.used_functions;
    assert!(used.contains(&s("A.run")));
    assert!(!used.contains(&s("B.run")));
}

#[test]
fn assignment_from_several_names_not_recorded() {
    let body = vec![assign(name("x"), call(name("make"), vec![name("a")]))];
    let facts = extract_file_data(&s("proj/a.py"), &body);
    assert!(facts.assignments.is_empty());
}

#[test]
fn multi_dot_chains_left_unresolved() {
    let mut facts = StatementValue::new();
    facts.expression_value.used_functions.push(s("a.b.c"));
    facts.assignments.push((s("a"), s("Thing")));
    let fixed = fix_assignments(facts);
    assert_eq!(fixed.expression_value.used_functions, vec![s("a.b.c")]);
}

#[test]
fn call_inside_class_gets_class_prefix() {
    let body = vec![class(
        "C",
        vec![def("m", vec![expr(call(attr(name("a"), "b"), vec![])), expr(call(name("f"), vec![]))])],
    )];
    let facts = extract_file_data(&s("proj/a.py"), &body);
    let used = &facts.expression_value.used_functions;
    assert!(used.contains(&s("C.a.b")));
    assert!(used.contains(&s("C.f")));
    let fixed = fix_assignments(facts);
    assert!(fixed.expression_value.used_functions.contains(&s("C.a.b")));
}

#[test]
fn cross_file_name_collision() {
    let files = vec![
        widget_file("proj/one.py"),
        widget_file("proj/two.py"),
        file("proj/main.py", vec![expr(call(attr(name("Widget"), "run"), vec![]))]),
    ];
    assert_eq!(report(files), pairs(&[]));
    let unused = report(vec![widget_file("proj/one.py"), widget_file("proj/two.py")]);
    assert_eq!(unused, pairs(&[("Widget.run", "proj/one.py"), ("Widget.run", "proj/two.py")]));
}

#[test]
fn exclusion_filtering() {
    let files = vec![
        file("proj/notes.txt", vec![def("hidden", vec![Stmt::Pass])]),
        file("proj/venv/lib/site.py", vec![def("vendored", vec![Stmt::Pass])]),
        file("proj/venv/use.py", vec![expr(call(name("foo"), vec![]))]),
        file("proj/a.py", vec![def("foo", vec![Stmt::Pass])]),
    ];
    assert_eq!(report(files), pairs(&[("foo", "proj/a.py")]));
}

#[test]
fn source_file_recognition() {
    assert!(is_source_file(&s("a.py")));
    assert!(is_source_file(&s("dir/sub/a.py")));
    assert!(!is_source_file(&s("a.pyc")));
    assert!(!is_source_file(&s("dir/.py")));
    assert!(!is_source_file(&s("a.txt")));
    assert!(!is_source_file(&s("dir.py/file")));
    assert!(!is_source_file(&s("venv/a.py")));
    assert!(!is_source_file(&s("x/myvenv2/a.py")));
}

#[test]
fn unreadable_or_unparseable_file_contributes_nothing() {
    let files = vec![
        SourceFile::new(s("proj/bad.py"), Err(PySpaceError::FailedToParseFile(s("bad token")))),
        SourceFile::new(s("proj/gone.py"), Err(PySpaceError::FailedToReadFile(s("denied")))),
        file("proj/a.py", vec![def("foo", vec![Stmt::Pass])]),
    ];
    assert_eq!(report(files), pairs(&[("foo", "proj/a.py")]));
}

fn sample_body() -> Vec<Stmt> {
    vec![
        class("K", vec![def("m", vec![Stmt::Pass])]),
        assign(name("k"), call(name("K"), vec![])),
        expr(call(attr(name("k"), "m"), vec![name("arg")])),
        Stmt::Import { names: vec![py_space::syntax::Alias { name: s("os.path"), asname: None }] },
    ]
}

#[test]
fn merging_twice_equals_merging_once() {
    let path = s("proj/a.py");
    let mut once = StatementValue::new();
    once.merge_statement_value(extract_file_data(&path, &sample_body()));
    let mut twice = StatementValue::new();
    twice.merge_statement_value(extract_file_data(&path, &sample_body()));
    twice.merge_statement_value(extract_file_data(&path, &sample_body()));
    assert_eq!(once.functions, twice.functions);
    assert_eq!(once.classes, twice.classes);
    assert_eq!(once.assignments, twice.assignments);
    assert_eq!(once.expression_value.used_functions, twice.expression_value.used_functions);
    assert_eq!(once.expression_value.used_names, twice.expression_value.used_names);
    assert_eq!(once.expression_value.used_attributes, twice.expression_value.used_attributes);
    assert_eq!(once.expression_value.possible_functions, twice.expression_value.possible_functions);
    assert_eq!(once.files.len(), twice.files.len());
}

#[test]
fn callback_passed_by_name_counts_as_use() {
    let files = vec![file(
        "proj/a.py",
        vec![def("cb", vec![Stmt::Pass]), expr(call(name("register"), vec![name("cb")]))],
    )];
    assert_eq!(report(files), pairs(&[]));
}

#[test]
fn method_referenced_as_value_counts_as_use() {
    let files = vec![file(
        "proj/a.py",
        vec![class("K", vec![def("m", vec![Stmt::Pass])]), assign(name("x"), attr(name("K"), "m"))],
    )];
    assert_eq!(report(files), pairs(&[]));
}

#[test]
fn decorator_counts_as_use() {
    let decorated = Stmt::FunctionDef(FunctionDefStmt {
        name: s("g"),
        decorator_list: vec![name("deco")],
        body: vec![Stmt::Pass],
    });
    let files = vec![file("proj/a.py", vec![def("deco", vec![Stmt::Pass]), decorated])];
    assert_eq!(report(files), pairs(&[("g", "proj/a.py")]));
}

#[test]
fn report_lines() {
    let entries = vec![(s("foo"), s("a.py")), (s("A.b"), s("pkg/b.py"))];
    assert_eq!(render_report(&entries), "foo: a.py\nA.b: pkg/b.py\n");
    assert_eq!(render_report(&Vec::new()), "");
}

#[test]
fn error_messages() {
    assert_eq!(PySpaceError::CantGetCurrentPath(s("gone")).message(), "Can't get current path: gone");
    assert_eq!(PySpaceError::FailedToReadFile(s("denied")).message(), "Faild to read file: denied");
    assert_eq!(PySpaceError::FailedToParseFile(s("eof")).message(), "Faild to parse file: eof");
}
