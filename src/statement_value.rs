//! The fact base of a file or a project: definitions, usage facts, classes,
//! assignments and imports.
use vstd::prelude::*;

use crate::expression_value::{ExpressionValue, UsageFacts};
use crate::function_def::{FunctionDef, FunctionId};
use crate::lists::{
    append_new, extend_defs, extend_pairs, extend_strings, find_key, insert_def, insert_string,
    keys_of, lemma_append_new_distinct, lemma_append_new_push, lemma_append_new_single,
    lemma_pairs_map_dom, lemma_pairs_map_index, lemma_pairs_map_update, pairs_map,
};

verus! {

/// One imported name, as a value.
pub struct ImportId {
    pub path: Seq<char>,
    pub name: Seq<char>,
    pub alias: Option<Seq<char>>,
}

/// One imported name: the module path, the name it is known by, and its alias.
#[derive(Debug, Clone)]
pub struct Imports {
    pub path: String,
    pub name: String,
    pub alias: Option<String>,
}

impl DeepView for Imports {
    type V = ImportId;

    open spec fn deep_view(&self) -> ImportId {
        ImportId { path: self.path@, name: self.name@, alias: self.alias.deep_view() }
    }
}

/// Whether two optional strings hold the same text.
fn same_text(a: &Option<String>, b: &Option<String>) -> (r: bool)
    ensures
        r == (a.deep_view() == b.deep_view()),
{
    match (a, b) {
        (Some(x), Some(y)) => *x == *y,
        (None, None) => true,
        _ => false,
    }
}

impl Imports {
    /// Whether `self` and `other` record the same import.
    pub fn same_as(&self, other: &Imports) -> (r: bool)
        ensures
            r == (self.deep_view() == other.deep_view()),
    {
        self.path == other.path && self.name == other.name && same_text(&self.alias, &other.alias)
    }

    /// A copy with the same path, name and alias.
    pub fn duplicate(&self) -> (r: Imports)
        ensures
            r.deep_view() == self.deep_view(),
    {
        let alias = match &self.alias {
            Some(a) => Some(a.clone()),
            None => None,
        };
        Imports { path: self.path.clone(), name: self.name.clone(), alias }
    }

    pub fn new(path: String, name: String, alias: Option<String>) -> (r: Self)
        ensures
            r.deep_view() == (ImportId { path: path@, name: name@, alias: alias.deep_view() }),
    {
        Imports { path, name, alias }
    }
}

/// The import table of a file, as a value.
pub struct FileImports {
    pub path: Seq<char>,
    pub imports: Map<Seq<char>, Seq<ImportId>>,
}

/// The import table of a file: for each imported module path, what was imported.
#[derive(Debug)]
pub struct FileData {
    pub path: String,
    pub imports: Vec<(String, Vec<Imports>)>,
}

impl DeepView for FileData {
    type V = FileImports;

    open spec fn deep_view(&self) -> FileImports {
        FileImports { path: self.path@, imports: pairs_map(self.imports.deep_view()) }
    }
}

impl FileData {
    pub open spec fn wf(&self) -> bool {
        keys_of(self.imports.deep_view()).no_duplicates()
    }

    pub fn new(path: String) -> (r: Self)
        ensures
            r.deep_view() == (FileImports { path: path@, imports: Map::empty() }),
            r.wf(),
    {
        let r = FileData { path, imports: Vec::new() };
        assert(r.imports.deep_view() =~= Seq::<(Seq<char>, Seq<ImportId>)>::empty());
        assert(keys_of(r.imports.deep_view()) =~= Seq::<Seq<char>>::empty());
        r
    }

    /// Appends `import` to the list of module path `module`.
    pub fn add_import(&mut self, module: String, import: Imports)
        requires
            old(self).wf(),
        ensures
            final(self).wf(),
            final(self).deep_view() == (FileImports {
                imports: add_import_entry(old(self).deep_view().imports, module@, import.deep_view()),
                ..old(self).deep_view()
            }),
    {
        let ghost s = self.imports.deep_view();
        let ghost imp = import.deep_view();
        match find_key(&self.imports, &module) {
            Some(i) => {
                proof {
                    lemma_pairs_map_index(s, i as int);
                }
                let mut entry: (String, Vec<Imports>) = (String::new(), Vec::new());
                self.imports.set_and_swap(i, &mut entry);
                let ghost before = entry.1.deep_view();
                entry.1.push(import);
                assert(entry.1.deep_view() =~= before.push(imp));
                self.imports.set(i, entry);
                proof {
                    assert(self.imports.deep_view() =~= s.update(i as int, (s[i as int].0, before.push(imp))));
                    lemma_pairs_map_update(s, i as int, before.push(imp));
                }
            },
            None => {
                let ghost key = module@;
                let list = vec![import];
                assert(list.deep_view() =~= seq![imp]);
                self.imports.push((module, list));
                proof {
                    let t = self.imports.deep_view();
                    assert(t =~= s.push((key, seq![imp])));
                    assert(t.drop_last() =~= s);
                    assert(keys_of(t) =~= keys_of(s).push(key));
                    crate::lists::lemma_pairs_map_dom(s);
                }
            },
        }
    }
}

/// An import table with `import` appended to the list of `module`.
pub open spec fn add_import_entry(
    table: Map<Seq<char>, Seq<ImportId>>,
    module: Seq<char>,
    import: ImportId,
) -> Map<Seq<char>, Seq<ImportId>> {
    table.insert(
        module,
        if table.contains_key(module) {
            table[module].push(import)
        } else {
            seq![import]
        },
    )
}

/// Two import tables of one file together: a module path found in both keeps the
/// imports of the first table, then those of the second that it does not hold.
pub open spec fn merge_import_tables(
    a: Map<Seq<char>, Seq<ImportId>>,
    b: Map<Seq<char>, Seq<ImportId>>,
) -> Map<Seq<char>, Seq<ImportId>> {
    Map::new(
        |k: Seq<char>| a.contains_key(k) || b.contains_key(k),
        |k: Seq<char>|
            if a.contains_key(k) && b.contains_key(k) {
                append_new(a[k], b[k])
            } else if a.contains_key(k) {
                a[k]
            } else {
                b[k]
            },
    )
}

/// The import tables of two fact bases together: a file found in both gets the
/// union of its two tables.
pub open spec fn merge_file_tables(
    a: Map<Seq<char>, FileImports>,
    b: Map<Seq<char>, FileImports>,
) -> Map<Seq<char>, FileImports> {
    Map::new(
        |p: Seq<char>| a.contains_key(p) || b.contains_key(p),
        |p: Seq<char>|
            if a.contains_key(p) && b.contains_key(p) {
                FileImports {
                    path: a[p].path,
                    imports: merge_import_tables(a[p].imports, b[p].imports),
                }
            } else if a.contains_key(p) {
                a[p]
            } else {
                b[p]
            },
    )
}

/// The fact base as a value.
pub struct FileFacts {
    /// Definitions; none twice.
    pub functions: Seq<FunctionId>,
    pub usage: UsageFacts,
    /// Classes whose body held a statement.
    pub classes: Seq<Seq<char>>,
    /// Variable name to the class name it was last simply assigned from.
    pub assignments: Map<Seq<char>, Seq<char>>,
    /// File path to the import table of all its `import` statements.
    pub files: Map<Seq<char>, FileImports>,
}

impl FileFacts {
    pub open spec fn empty() -> FileFacts {
        FileFacts {
            functions: Seq::empty(),
            usage: UsageFacts::empty(),
            classes: Seq::empty(),
            assignments: Map::empty(),
            files: Map::empty(),
        }
    }

    /// The facts of `self`, then those of `other`: a union of each collection. On a
    /// shared variable `other`'s assignment wins; the import tables of a shared file
    /// are merged.
    pub open spec fn join(self, other: FileFacts) -> FileFacts {
        FileFacts {
            functions: append_new(self.functions, other.functions),
            usage: self.usage.join(other.usage),
            classes: append_new(self.classes, other.classes),
            assignments: self.assignments.union_prefer_right(other.assignments),
            files: merge_file_tables(self.files, other.files),
        }
    }

    /// `self` with the usage facts `usage` added.
    pub open spec fn add_usage(self, usage: UsageFacts) -> FileFacts {
        FileFacts { usage: self.usage.join(usage), ..self }
    }

    /// Facts that hold usage facts only.
    pub open spec fn from_usage(usage: UsageFacts) -> FileFacts {
        FileFacts::empty().add_usage(usage)
    }

    pub open spec fn well_formed(self) -> bool {
        &&& self.functions.no_duplicates()
        &&& self.usage.well_formed()
        &&& self.classes.no_duplicates()
    }

    /// The qualified names of the definitions.
    pub open spec fn defined_names(self) -> Seq<Seq<char>> {
        self.functions.map_values(|f: FunctionId| f.full_name())
    }
}

/// The fact base of a statement, a file or a project.
#[derive(Debug)]
pub struct StatementValue {
    pub functions: Vec<FunctionDef>,
    pub expression_value: ExpressionValue,
    pub classes: Vec<String>,
    pub assignments: Vec<(String, String)>,
    pub files: Vec<(String, FileData)>,
}

impl View for StatementValue {
    type V = FileFacts;

    open spec fn view(&self) -> FileFacts {
        FileFacts {
            functions: self.functions.deep_view(),
            usage: self.expression_value@,
            classes: self.classes.deep_view(),
            assignments: pairs_map(self.assignments.deep_view()),
            files: pairs_map(self.files.deep_view()),
        }
    }
}

impl StatementValue {
    pub open spec fn wf(&self) -> bool {
        &&& self@.well_formed()
        &&& keys_of(self.assignments.deep_view()).no_duplicates()
        &&& keys_of(self.files.deep_view()).no_duplicates()
        &&& forall|i: int| 0 <= i < self.files.len() ==> (#[trigger] self.files@[i]).1.wf()
    }

    pub fn new() -> (r: Self)
        ensures
            r@ == FileFacts::empty(),
            r.wf(),
            r.files.len() == 0,
    {
        let r = StatementValue {
            functions: Vec::new(),
            expression_value: ExpressionValue::new(),
            classes: Vec::new(),
            assignments: Vec::new(),
            files: Vec::new(),
        };
        assert(r.functions.deep_view() =~= Seq::<FunctionId>::empty());
        assert(r.classes.deep_view() =~= Seq::<Seq<char>>::empty());
        assert(r.assignments.deep_view() =~= Seq::<(Seq<char>, Seq<char>)>::empty());
        assert(r.files.deep_view() =~= Seq::<(Seq<char>, FileImports)>::empty());
        assert(keys_of(r.assignments.deep_view()) =~= Seq::<Seq<char>>::empty());
        assert(keys_of(r.files.deep_view()) =~= Seq::<Seq<char>>::empty());
        r
    }

    /// Adds usage facts.
    pub fn merge_expression_value(&mut self, expression_value: ExpressionValue)
        requires
            old(self).wf(),
        ensures
            final(self)@ == old(self)@.add_usage(expression_value@),
            final(self).wf(),
    {
        self.expression_value.merge_expression_result(expression_value);
    }

    /// Records a definition; returns whether it was new.
    pub fn insert_function(&mut self, value: FunctionDef) -> (added: bool)
        requires
            old(self).wf(),
        ensures
            final(self)@ == (FileFacts {
                functions: append_new(old(self)@.functions, seq![value@]),
                ..old(self)@
            }),
            added == !old(self)@.functions.contains(value@),
            final(self).wf(),
    {
        proof {
            lemma_append_new_distinct(self@.functions, seq![value@]);
        }
        insert_def(&mut self.functions, value)
    }

    /// Records a class name; returns whether it was new.
    pub fn insert_class(&mut self, value: String) -> (added: bool)
        requires
            old(self).wf(),
        ensures
            final(self)@ == (FileFacts {
                classes: append_new(old(self)@.classes, seq![value@]),
                ..old(self)@
            }),
            added == !old(self)@.classes.contains(value@),
            final(self).wf(),
    {
        proof {
            lemma_append_new_distinct(self@.classes, seq![value@]);
        }
        insert_string(&mut self.classes, value)
    }

    /// Adds every fact of `statement_value`; its assignments override those of `self`
    /// on shared variables, and the import tables of a shared file are merged.
    pub fn merge_statement_value(&mut self, statement_value: StatementValue)
        requires
            old(self).wf(),
            statement_value.wf(),
        ensures
            final(self)@ == old(self)@.join(statement_value@),
            final(self).wf(),
    {
        let StatementValue { functions, expression_value, classes, assignments, files } =
            statement_value;
        extend_defs(&mut self.functions, &functions);
        self.expression_value.merge_expression_result(expression_value);
        extend_strings(&mut self.classes, &classes);
        extend_pairs(&mut self.assignments, assignments);
        merge_files(&mut self.files, files);
        proof {
            lemma_append_new_distinct(old(self)@.functions, functions.deep_view());
            lemma_append_new_distinct(old(self)@.classes, classes.deep_view());
        }
    }

    /// The qualified names of the definitions, each once.
    pub fn build_full_name_functions(&self) -> (r: Vec<String>)
        ensures
            r.deep_view() == append_new(Seq::empty(), self@.defined_names()),
    {
        let ghost names = self@.defined_names();
        let mut r: Vec<String> = Vec::new();
        assert(r.deep_view() =~= Seq::<Seq<char>>::empty());
        let mut i: usize = 0;
        while i < self.functions.len()
            invariant
                i <= self.functions.len(),
                names == self@.defined_names(),
                names.len() == self.functions.len(),
                r.deep_view() == append_new(Seq::empty(), names.subrange(0, i as int)),
            decreases self.functions.len() - i,
        {
            let name = self.functions[i].full_name();
            proof {
                assert(names[i as int] == name@);
                assert(names.subrange(0, i as int + 1) =~= names.subrange(0, i as int).push(name@));
                lemma_append_new_push(Seq::empty(), names.subrange(0, i as int), name@);
            }
            insert_string(&mut r, name);
            i += 1;
        }
        assert(names.subrange(0, i as int) =~= names);
        r
    }
}

/// Whether `list` holds an import equal to `item`.
fn contains_import(list: &Vec<Imports>, item: &Imports) -> (r: bool)
    ensures
        r == list.deep_view().contains(item.deep_view()),
{
    let mut i: usize = 0;
    while i < list.len()
        invariant
            i <= list.len(),
            forall|j: int| 0 <= j < i ==> list.deep_view()[j] != item.deep_view(),
        decreases list.len() - i,
    {
        if list[i].same_as(item) {
            assert(list.deep_view()[i as int] == item.deep_view());
            return true;
        }
        i += 1;
    }
    false
}

/// Appends the imports of `items` that `list` does not hold yet, in order.
fn extend_imports(list: &mut Vec<Imports>, items: &Vec<Imports>)
    ensures
        final(list).deep_view() == append_new(old(list).deep_view(), items.deep_view()),
{
    let mut i: usize = 0;
    while i < items.len()
        invariant
            i <= items.len(),
            list.deep_view() == append_new(
                old(list).deep_view(),
                items.deep_view().subrange(0, i as int),
            ),
        decreases items.len() - i,
    {
        let ghost before = list.deep_view();
        let ghost x = items.deep_view()[i as int];
        proof {
            let s = items.deep_view().subrange(0, i as int);
            assert(items.deep_view().subrange(0, i as int + 1) =~= s.push(x));
            lemma_append_new_push(old(list).deep_view(), s, x);
            lemma_append_new_single(before, x);
        }
        if !contains_import(list, &items[i]) {
            list.push(items[i].duplicate());
            assert(list.deep_view() =~= before.push(x));
        }
        i += 1;
    }
    assert(items.deep_view().subrange(0, items.len() as int) =~= items.deep_view());
}

/// Merges the import table `items` into `table`, module path by module path.
fn merge_imports(table: &mut Vec<(String, Vec<Imports>)>, items: Vec<(String, Vec<Imports>)>)
    requires
        keys_of(old(table).deep_view()).no_duplicates(),
        keys_of(items.deep_view()).no_duplicates(),
    ensures
        keys_of(final(table).deep_view()).no_duplicates(),
        pairs_map(final(table).deep_view()) == merge_import_tables(
            pairs_map(old(table).deep_view()),
            pairs_map(items.deep_view()),
        ),
{
    let ghost all = items.deep_view();
    let ghost start = pairs_map(old(table).deep_view());
    assert(all.len() == items.len());
    assert(pairs_map(all.subrange(0, 0)) =~= Map::empty());
    assert(merge_import_tables(start, Map::empty()) =~= start);
    let mut rest = items;
    let mut done: usize = 0;
    while rest.len() > 0
        invariant
            done + rest.len() == all.len(),
            all.len() <= usize::MAX,
            keys_of(all).no_duplicates(),
            rest.deep_view() == all.subrange(done as int, all.len() as int),
            keys_of(table.deep_view()).no_duplicates(),
            pairs_map(table.deep_view()) == merge_import_tables(
                start,
                pairs_map(all.subrange(0, done as int)),
            ),
        decreases rest.len(),
    {
        let ghost before = rest.deep_view();
        let ghost cur = table.deep_view();
        let ghost m = pairs_map(all.subrange(0, done as int));
        let (key, list) = rest.remove(0);
        let ghost k = key@;
        let ghost l = list.deep_view();
        proof {
            assert(before[0] == (k, l));
            assert(all[done as int] == (k, l));
            assert(rest.deep_view() =~= before.subrange(1, before.len() as int));
            let t = all.subrange(0, done as int + 1);
            assert(t.drop_last() =~= all.subrange(0, done as int));
            assert(t.last() == (k, l));
            lemma_pairs_map_dom(all.subrange(0, done as int));
            assert(!keys_of(all.subrange(0, done as int)).contains(k)) by {
                if keys_of(all.subrange(0, done as int)).contains(k) {
                    let j = choose|j: int|
                        0 <= j < done && keys_of(all.subrange(0, done as int))[j] == k;
                    assert(keys_of(all)[j] == keys_of(all)[done as int]);
                }
            }
            lemma_pairs_map_dom(cur);
        }
        match find_key(table, &key) {
            Some(i) => {
                proof {
                    lemma_pairs_map_index(cur, i as int);
                }
                let mut entry: (String, Vec<Imports>) = (String::new(), Vec::new());
                table.set_and_swap(i, &mut entry);
                let ghost old_list = entry.1.deep_view();
                assert(old_list == start[k]);
                extend_imports(&mut entry.1, &list);
                let ghost merged = entry.1.deep_view();
                table.set(i, entry);
                proof {
                    assert(pairs_map(cur).contains_key(k));
                    assert(!m.contains_key(k));
                    assert(pairs_map(cur)[k] == start[k]);
                    assert(table.deep_view() =~= cur.update(i as int, (cur[i as int].0, merged)));
                    lemma_pairs_map_update(cur, i as int, merged);
                    assert(pairs_map(table.deep_view()) =~= merge_import_tables(
                        start,
                        m.insert(k, l),
                    ));
                }
            },
            None => {
                table.push((key, list));
                proof {
                    assert(!pairs_map(cur).contains_key(k));
                    assert(!m.contains_key(k));
                    assert(!start.contains_key(k));
                    let t = table.deep_view();
                    assert(t =~= cur.push((k, l)));
                    assert(t.drop_last() =~= cur);
                    assert(keys_of(t) =~= keys_of(cur).push(k));
                    assert(pairs_map(table.deep_view()) =~= merge_import_tables(
                        start,
                        m.insert(k, l),
                    ));
                }
            },
        }
        done += 1;
        proof {
            assert(rest.deep_view() =~= all.subrange(done as int, all.len() as int));
        }
    }
    assert(all.subrange(0, all.len() as int) =~= all);
}

/// Merges the file tables `items` into `files`: a file found in both gets the union
/// of its two import tables.
fn merge_files(files: &mut Vec<(String, FileData)>, items: Vec<(String, FileData)>)
    requires
        keys_of(old(files).deep_view()).no_duplicates(),
        forall|i: int| 0 <= i < old(files).len() ==> (#[trigger] old(files)@[i]).1.wf(),
        keys_of(items.deep_view()).no_duplicates(),
        forall|i: int| 0 <= i < items.len() ==> (#[trigger] items@[i]).1.wf(),
    ensures
        keys_of(final(files).deep_view()).no_duplicates(),
        forall|i: int| 0 <= i < final(files).len() ==> (#[trigger] final(files)@[i]).1.wf(),
        pairs_map(final(files).deep_view()) == merge_file_tables(
            pairs_map(old(files).deep_view()),
            pairs_map(items.deep_view()),
        ),
{
    let ghost all = items.deep_view();
    let ghost start = pairs_map(old(files).deep_view());
    assert(all.len() == items.len());
    assert(pairs_map(all.subrange(0, 0)) =~= Map::empty());
    assert(merge_file_tables(start, Map::empty()) =~= start);
    let mut rest = items;
    let mut done: usize = 0;
    while rest.len() > 0
        invariant
            done + rest.len() == all.len(),
            all.len() <= usize::MAX,
            keys_of(all).no_duplicates(),
            rest.deep_view() == all.subrange(done as int, all.len() as int),
            forall|i: int| 0 <= i < rest.len() ==> (#[trigger] rest@[i]).1.wf(),
            keys_of(files.deep_view()).no_duplicates(),
            forall|i: int| 0 <= i < files.len() ==> (#[trigger] files@[i]).1.wf(),
            pairs_map(files.deep_view()) == merge_file_tables(
                start,
                pairs_map(all.subrange(0, done as int)),
            ),
        decreases rest.len(),
    {
        let ghost before = rest.deep_view();
        let ghost before_exec = rest@;
        let ghost cur = files.deep_view();
        let ghost m = pairs_map(all.subrange(0, done as int));
        let (key, data) = rest.remove(0);
        let ghost k = key@;
        let ghost f = data.deep_view();
        proof {
            assert(before_exec[0].1.wf());
            assert(before[0] == (k, f));
            assert(all[done as int] == (k, f));
            assert(rest.deep_view() =~= before.subrange(1, before.len() as int));
            assert forall|i: int| 0 <= i < rest.len() implies (#[trigger] rest@[i]).1.wf() by {
                assert(rest@[i] == before_exec[i + 1]);
            }
            let t = all.subrange(0, done as int + 1);
            assert(t.drop_last() =~= all.subrange(0, done as int));
            assert(t.last() == (k, f));
            lemma_pairs_map_dom(all.subrange(0, done as int));
            assert(!keys_of(all.subrange(0, done as int)).contains(k)) by {
                if keys_of(all.subrange(0, done as int)).contains(k) {
                    let j = choose|j: int|
                        0 <= j < done && keys_of(all.subrange(0, done as int))[j] == k;
                    assert(keys_of(all)[j] == keys_of(all)[done as int]);
                }
            }
            lemma_pairs_map_dom(cur);
        }
        match find_key(files, &key) {
            Some(i) => {
                proof {
                    lemma_pairs_map_index(cur, i as int);
                }
                let ghost files_before = files@;
                let mut entry: (String, FileData) = (String::new(), FileData::new(String::new()));
                files.set_and_swap(i, &mut entry);
                assert(entry == files_before[i as int]);
                let ghost old_data = entry.1.deep_view();
                assert(old_data == start[k]);
                let FileData { imports, .. } = data;
                merge_imports(&mut entry.1.imports, imports);
                let ghost merged = entry.1.deep_view();
                files.set(i, entry);
                proof {
                    assert(pairs_map(cur).contains_key(k));
                    assert(!m.contains_key(k));
                    assert(pairs_map(cur)[k] == start[k]);
                    assert(files.deep_view() =~= cur.update(i as int, (cur[i as int].0, merged)));
                    lemma_pairs_map_update(cur, i as int, merged);
                    assert(pairs_map(files.deep_view()) =~= merge_file_tables(start, m.insert(k, f)));
                    assert forall|j: int| 0 <= j < files.len() implies (#[trigger] files@[j]).1.wf() by {
                        if j != i {
                            assert(files@[j] == files_before[j]);
                        }
                    }
                }
            },
            None => {
                let ghost files_before = files@;
                files.push((key, data));
                proof {
                    assert(!pairs_map(cur).contains_key(k));
                    assert(!m.contains_key(k));
                    assert(!start.contains_key(k));
                    let t = files.deep_view();
                    assert(t =~= cur.push((k, f)));
                    assert(t.drop_last() =~= cur);
                    assert(keys_of(t) =~= keys_of(cur).push(k));
                    assert(pairs_map(files.deep_view()) =~= merge_file_tables(start, m.insert(k, f)));
                    assert forall|j: int| 0 <= j < files.len() implies (#[trigger] files@[j]).1.wf() by {
                        if j < files_before.len() {
                            assert(files@[j] == files_before[j]);
                        }
                    }
                }
            },
        }
        done += 1;
        proof {
            assert(rest.deep_view() =~= all.subrange(done as int, all.len() as int));
        }
    }
    assert(all.subrange(0, all.len() as int) =~= all);
}

} // verus!
