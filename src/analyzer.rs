//! The whole analysis: which files take part, the project-wide fact base, the two
//! resolution passes and the report of unused functions.
use vstd::prelude::*;

use crate::assignments::{fix_assignments, resolved_calls};
use crate::errors::PySpaceError;
use crate::function_def::FunctionId;
use crate::lists::contains_string;
use crate::names::{after_last, before_last_dot, count_of, last_segment, scan_separator};
use crate::possible_functions::{handle_possible_functions, promoted_calls};
use crate::statement::{extract_file_data, file_facts};
use crate::statement_value::{FileFacts, StatementValue};
use crate::syntax::Stmt;

verus! {

/// The file name of a path: the text after its last `/`.
pub open spec fn file_name(path: Seq<char>) -> Seq<char> {
    after_last(path, '/')
}

/// The extension of a path: the text after the last dot of its file name, when that
/// dot follows a non-empty stem.
pub open spec fn extension(path: Seq<char>) -> Option<Seq<char>> {
    let name = file_name(path);
    if count_of(name, '.') > 0 && before_last_dot(name).len() > 0 {
        Some(last_segment(name))
    } else {
        None
    }
}

/// Whether `text` occurs in `s`.
pub open spec fn contains_text(s: Seq<char>, text: Seq<char>) -> bool {
    exists|i: int| 0 <= i && i + text.len() <= s.len() && #[trigger] s.subrange(i, i + text.len()) == text
}

/// Whether a file takes part in the analysis: a Python source outside any virtual
/// environment.
pub open spec fn is_source_path(path: Seq<char>) -> bool {
    extension(path) == Some("py"@) && !contains_text(path, "venv"@)
}

/// Whether `text` occurs in `s`.
fn find_text(s: &str, text: &str) -> (r: bool)
    ensures
        r == contains_text(s@, text@),
{
    let n = s.unicode_len();
    let k = text.unicode_len();
    if k > n {
        assert forall|i: int| 0 <= i && i + text@.len() <= s@.len() implies #[trigger] s@.subrange(
            i,
            i + text@.len(),
        ) != text@ by {}
        return false;
    }
    if k == 0 {
        assert(s@.subrange(0, 0 + text@.len() as int) =~= text@);
        return true;
    }
    let wanted = String::from_str(text);
    let mut i: usize = 0;
    while i <= n - k
        invariant
            n == s@.len(),
            k == text@.len(),
            0 < k <= n,
            i <= n - k + 1,
            wanted@ == text@,
            forall|j: int| 0 <= j < i ==> #[trigger] s@.subrange(j, j + k) != text@,
        decreases n - k + 1 - i,
    {
        let window = String::from_str(s.substring_char(i, i + k));
        if window == wanted {
            return true;
        }
        i += 1;
    }
    assert forall|j: int| 0 <= j && j + text@.len() <= s@.len() implies #[trigger] s@.subrange(
        j,
        j + text@.len(),
    ) != text@ by {
        assert(j < i);
    }
    false
}

/// Whether the file at `path` takes part in the analysis: its extension is `py`
/// and the path does not hold `venv`.
pub fn is_source_file(path: &String) -> (r: bool)
    ensures
        r == is_source_path(path@),
{
    let full = path.as_str();
    let n = full.unicode_len();
    let (_, slash) = scan_separator(full, '/');
    let name = match slash {
        Some(j) => full.substring_char(j + 1, n),
        None => full,
    };
    assert(name@ == file_name(path@));
    let name_len = name.unicode_len();
    let (_, last_dot) = scan_separator(name, '.');
    let has_extension = match last_dot {
        Some(j) => {
            assert(before_last_dot(name@) =~= name@.subrange(0, j as int));
            if j > 0 {
                let ext = String::from_str(name.substring_char(j + 1, name_len));
                ext == String::from_str("py")
            } else {
                false
            }
        },
        None => false,
    };
    has_extension && !find_text(full, "venv")
}

/// One file handed to the analysis: its path, and its top-level statements or the
/// reason it could not be read or parsed.
#[derive(Debug)]
pub struct SourceFile {
    pub path: String,
    pub body: Result<Vec<Stmt>, PySpaceError>,
}

impl SourceFile {
    pub fn new(path: String, body: Result<Vec<Stmt>, PySpaceError>) -> (r: Self)
        ensures
            r.path == path,
            r.body == body,
    {
        SourceFile { path, body }
    }
}

/// Whether a file contributes facts: it takes part and its statements could be had.
pub open spec fn contributes(f: SourceFile) -> bool {
    is_source_path(f.path@) && f.body is Ok
}

/// The project-wide fact base: the facts of each contributing file, merged in order.
pub open spec fn project_facts(files: Seq<SourceFile>) -> FileFacts
    decreases files.len(),
{
    if files.len() == 0 {
        FileFacts::empty()
    } else {
        let f = files[files.len() - 1];
        let before = project_facts(files.subrange(0, files.len() - 1));
        if contributes(f) {
            before.join(file_facts(f.path@, f.body->Ok_0@))
        } else {
            before
        }
    }
}

/// The names used once both resolution passes have run.
pub open spec fn used_after_resolution(facts: FileFacts) -> Set<Seq<char>> {
    resolved_calls(facts).union(promoted_calls(facts))
}

/// The unused functions of a fact base: `(qualified name, file)` of each definition
/// whose qualified name is not used.
pub open spec fn unused_report(facts: FileFacts) -> Set<(Seq<char>, Seq<char>)> {
    Set::new(
        |p: (Seq<char>, Seq<char>)|
            exists|d: FunctionId|
                #[trigger] facts.functions.contains(d) && p == (d.full_name(), d.file)
                    && !used_after_resolution(facts).contains(d.full_name()),
    )
}

/// Merges the facts of every contributing file, in order. Files that do not take
/// part, or could not be read or parsed, are skipped.
pub fn analyze_files(files: &Vec<SourceFile>) -> (r: StatementValue)
    ensures
        r@ == project_facts(files@),
        r.wf(),
{
    let ghost fs = files@;
    let mut statement_value = StatementValue::new();
    let mut i: usize = 0;
    while i < files.len()
        invariant
            i <= fs.len(),
            fs == files@,
            statement_value@ == project_facts(fs.subrange(0, i as int)),
            statement_value.wf(),
        decreases fs.len() - i,
    {
        proof {
            assert(fs.subrange(0, i as int + 1).subrange(0, i as int) =~= fs.subrange(0, i as int));
        }
        let file = &files[i];
        if is_source_file(&file.path) {
            match &file.body {
                Ok(body) => {
                    statement_value.merge_statement_value(extract_file_data(&file.path, body));
                },
                Err(_) => {},
            }
        }
        i += 1;
    }
    assert(fs.subrange(0, fs.len() as int) =~= fs);
    statement_value
}

/// Whether a list of pairs holds `(a, b)`.
fn contains_pair(v: &Vec<(String, String)>, a: &String, b: &String) -> (r: bool)
    ensures
        r == v.deep_view().contains((a@, b@)),
{
    let mut i: usize = 0;
    while i < v.len()
        invariant
            i <= v.len(),
            forall|j: int| 0 <= j < i ==> v.deep_view()[j] != (a@, b@),
        decreases v.len() - i,
    {
        if v[i].0 == *a && v[i].1 == *b {
            assert(v.deep_view()[i as int] == (a@, b@));
            return true;
        }
        i += 1;
    }
    false
}

/// `(qualified name, file)` of each definition whose qualified name is not among
/// the used functions, each pair once.
pub fn collect_unused(statement_value: &StatementValue) -> (r: Vec<(String, String)>)
    ensures
        r.deep_view().no_duplicates(),
        r.deep_view().to_set() == Set::new(
            |p: (Seq<char>, Seq<char>)|
                exists|d: FunctionId|
                    #[trigger] statement_value@.functions.contains(d) && p == (d.full_name(), d.file)
                        && !statement_value@.usage.calls.contains(d.full_name()),
        ),
{
    let ghost fs = statement_value@.functions;
    let ghost calls = statement_value@.usage.calls;
    let mut unused: Vec<(String, String)> = Vec::new();
    assert(unused.deep_view() =~= Seq::<(Seq<char>, Seq<char>)>::empty());
    let mut i: usize = 0;
    while i < statement_value.functions.len()
        invariant
            i <= fs.len(),
            fs == statement_value.functions.deep_view(),
            calls == statement_value.expression_value.used_functions.deep_view(),
            unused.deep_view().no_duplicates(),
            forall|p: (Seq<char>, Seq<char>)|
                unused.deep_view().contains(p) <==> exists|k: int|
                    0 <= k < i && p == (#[trigger] fs[k].full_name(), fs[k].file) && !calls.contains(
                        fs[k].full_name(),
                    ),
        decreases fs.len() - i,
    {
        let function = &statement_value.functions[i];
        let name = function.full_name();
        let ghost before = unused.deep_view();
        let used = contains_string(&statement_value.expression_value.used_functions, &name);
        if !used && !contains_pair(&unused, &name, &function.file) {
            let ghost p = (name@, function.file@);
            unused.push((name, function.file.clone()));
            assert(unused.deep_view() =~= before.push(p));
            proof {
                crate::lists::lemma_contains_split_last(unused.deep_view());
                assert(unused.deep_view().drop_last() =~= before);
            }
        }
        proof {
            assert(function@ == fs[i as int]);
            assert forall|p: (Seq<char>, Seq<char>)|
                unused.deep_view().contains(p) <==> exists|k: int|
                    0 <= k < i + 1 && p == (#[trigger] fs[k].full_name(), fs[k].file)
                        && !calls.contains(fs[k].full_name()) by {
                if exists|k: int|
                    0 <= k < i + 1 && p == (#[trigger] fs[k].full_name(), fs[k].file)
                        && !calls.contains(fs[k].full_name()) {
                    let k = choose|k: int|
                        0 <= k < i + 1 && p == (#[trigger] fs[k].full_name(), fs[k].file)
                            && !calls.contains(fs[k].full_name());
                    if k < i {
                        assert(before.contains(p));
                    }
                }
                if before.contains(p) {
                    let k = choose|k: int|
                        0 <= k < i && p == (#[trigger] fs[k].full_name(), fs[k].file)
                            && !calls.contains(fs[k].full_name());
                    assert(0 <= k < i + 1);
                }
            }
        }
        i += 1;
    }
    proof {
        let target = Set::new(
            |p: (Seq<char>, Seq<char>)|
                exists|d: FunctionId|
                    #[trigger] fs.contains(d) && p == (d.full_name(), d.file) && !calls.contains(
                        d.full_name(),
                    ),
        );
        assert forall|p: (Seq<char>, Seq<char>)| #[trigger]
            unused.deep_view().to_set().contains(p) == target.contains(p) by {
            if unused.deep_view().contains(p) {
                let k = choose|k: int|
                    0 <= k < fs.len() && p == (#[trigger] fs[k].full_name(), fs[k].file)
                        && !calls.contains(fs[k].full_name());
                assert(fs.contains(fs[k]));
            }
            if target.contains(p) {
                let d = choose|d: FunctionId|
                    #[trigger] fs.contains(d) && p == (d.full_name(), d.file) && !calls.contains(
                        d.full_name(),
                    );
                let k = choose|k: int| 0 <= k < fs.len() && fs[k] == d;
                assert(p == (fs[k].full_name(), fs[k].file));
            }
        }
        assert(unused.deep_view().to_set() =~= target);
    }
    unused
}

/// The unused functions of a project: each `(qualified name, file)` once.
pub fn find_unused_functions(files: &Vec<SourceFile>) -> (r: Vec<(String, String)>)
    ensures
        r.deep_view().no_duplicates(),
        r.deep_view().to_set() == unused_report(project_facts(files@)),
{
    let statement_value = analyze_files(files);
    let ghost facts = statement_value@;
    let statement_value = fix_assignments(statement_value);
    let ghost fixed = statement_value@;
    assert(promoted_calls(fixed) =~= promoted_calls(facts));
    let statement_value = handle_possible_functions(statement_value);
    let ghost used = statement_value@.usage.calls;
    assert(used.to_set() =~= used_after_resolution(facts));
    let r = collect_unused(&statement_value);
    proof {
        assert forall|d: FunctionId| #[trigger]
            facts.functions.contains(d) implies (used.contains(d.full_name())
            <==> used_after_resolution(facts).contains(d.full_name())) by {
            assert(used.to_set().contains(d.full_name()) == used.contains(d.full_name()));
        }
        assert(r.deep_view().to_set() =~= unused_report(facts));
    }
    r
}

/// The report: one line `name: file` for each entry, in order.
pub open spec fn report_text(entries: Seq<(Seq<char>, Seq<char>)>) -> Seq<char>
    decreases entries.len(),
{
    if entries.len() == 0 {
        Seq::empty()
    } else {
        let e = entries[entries.len() - 1];
        report_text(entries.subrange(0, entries.len() - 1)) + e.0 + ": "@ + e.1 + "\n"@
    }
}

/// Renders the report of unused functions, one line `name: file` per entry.
pub fn render_report(entries: &Vec<(String, String)>) -> (r: String)
    ensures
        r@ == report_text(entries.deep_view()),
{
    let ghost es = entries.deep_view();
    let mut text = String::new();
    let mut i: usize = 0;
    while i < entries.len()
        invariant
            i <= es.len(),
            es == entries.deep_view(),
            text@ == report_text(es.subrange(0, i as int)),
        decreases es.len() - i,
    {
        proof {
            assert(es.subrange(0, i as int + 1).subrange(0, i as int) =~= es.subrange(0, i as int));
        }
        text.append(entries[i].0.as_str());
        text.append(": ");
        text.append(entries[i].1.as_str());
        text.append("\n");
        i += 1;
    }
    assert(es.subrange(0, es.len() as int) =~= es);
    text
}

} // verus!
