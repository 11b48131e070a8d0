//! Dotted names: `Class.method`, `variable.attribute`.
use vstd::prelude::*;

verus! {

/// `owner.member`.
pub open spec fn dotted(owner: Seq<char>, member: Seq<char>) -> Seq<char> {
    owner + seq!['.'] + member
}

/// The name by which a function is known: `Class.name` inside a class, `name` elsewhere.
pub open spec fn qualified(class_name: Option<Seq<char>>, name: Seq<char>) -> Seq<char> {
    match class_name {
        Some(c) => dotted(c, name),
        None => name,
    }
}

/// Builds `owner.member`.
pub fn join_dotted(owner: &String, member: &str) -> (r: String)
    ensures
        r@ == dotted(owner@, member@),
{
    let mut r = owner.clone();
    r.append(".");
    r.append(member);
    proof {
        reveal_strlit(".");
    }
    r
}

/// Builds the qualified name of `name` under an optional enclosing class.
pub fn qualify(class_name: &Option<String>, name: &String) -> (r: String)
    ensures
        r@ == qualified(class_name.deep_view(), name@),
{
    match class_name {
        Some(c) => join_dotted(c, name.as_str()),
        None => name.clone(),
    }
}

/// The text after the last `sep`; all of `s` when it has none.
pub open spec fn after_last(s: Seq<char>, sep: char) -> Seq<char>
    decreases s.len(),
{
    if s.len() == 0 {
        s
    } else if s.last() == sep {
        Seq::empty()
    } else {
        after_last(s.drop_last(), sep).push(s.last())
    }
}

/// The number of times `sep` occurs in `s`.
pub open spec fn count_of(s: Seq<char>, sep: char) -> nat
    decreases s.len(),
{
    if s.len() == 0 {
        0
    } else {
        count_of(s.drop_last(), sep) + if s.last() == sep {
            1nat
        } else {
            0nat
        }
    }
}

/// The text after the last dot; all of `s` when it has no dot.
pub open spec fn last_segment(s: Seq<char>) -> Seq<char> {
    after_last(s, '.')
}

/// The text before the last dot.
pub open spec fn before_last_dot(s: Seq<char>) -> Seq<char> {
    s.subrange(0, s.len() - last_segment(s).len() - 1)
}

/// The number of dots in `s`.
pub open spec fn dot_count(s: Seq<char>) -> nat {
    count_of(s, '.')
}

/// Counts the occurrences of `sep` in `s` and finds the last one.
pub fn scan_separator(s: &str, sep: char) -> (r: (usize, Option<usize>))
    ensures
        r.0 == count_of(s@, sep),
        r.1 is Some <==> r.0 > 0,
        match r.1 {
            Some(j) => {
                &&& j < s@.len()
                &&& s@[j as int] == sep
                &&& after_last(s@, sep) == s@.subrange(j + 1, s@.len() as int)
            },
            None => after_last(s@, sep) == s@ && r.0 == 0,
        },
{
    let n = s.unicode_len();
    let mut count: usize = 0;
    let mut last: Option<usize> = None;
    let mut i: usize = 0;
    while i < n
        invariant
            n == s@.len(),
            i <= n,
            count <= i,
            count == count_of(s@.subrange(0, i as int), sep),
            last is Some <==> count > 0,
            match last {
                Some(j) => {
                    &&& j < i
                    &&& s@[j as int] == sep
                    &&& after_last(s@.subrange(0, i as int), sep) == s@.subrange(j + 1, i as int)
                },
                None => after_last(s@.subrange(0, i as int), sep) == s@.subrange(0, i as int)
                    && count == 0,
            },
        decreases n - i,
    {
        let c = s.get_char(i);
        proof {
            let t = s@.subrange(0, i as int + 1);
            assert(t.drop_last() =~= s@.subrange(0, i as int));
            assert(t.last() == c);
        }
        if c == sep {
            count += 1;
            last = Some(i);
            assert(s@.subrange(i + 1, i + 1) =~= Seq::<char>::empty());
        } else {
            proof {
                match last {
                    Some(j) => {
                        assert(s@.subrange(j + 1, i as int).push(c) =~= s@.subrange(j + 1, i + 1));
                    },
                    None => {
                        assert(s@.subrange(0, i as int).push(c) =~= s@.subrange(0, i + 1));
                    },
                }
            }
        }
        i += 1;
    }
    assert(s@.subrange(0, n as int) =~= s@);
    (count, last)
}

/// Counts the dots of `s` and finds the last one.
pub fn scan_dots(s: &str) -> (r: (usize, Option<usize>))
    ensures
        r.0 == dot_count(s@),
        r.1 is Some <==> r.0 > 0,
        match r.1 {
            Some(j) => {
                &&& j < s@.len()
                &&& s@[j as int] == '.'
                &&& last_segment(s@) == s@.subrange(j + 1, s@.len() as int)
            },
            None => last_segment(s@) == s@ && r.0 == 0,
        },
{
    scan_separator(s, '.')
}

/// The text after the last dot of `s` (all of `s` when it has no dot).
pub fn last_part(s: &String) -> (r: String)
    ensures
        r@ == last_segment(s@),
{
    let (_, last) = scan_dots(s.as_str());
    let n = s.as_str().unicode_len();
    match last {
        Some(j) => String::from_str(s.as_str().substring_char(j + 1, n)),
        None => s.clone(),
    }
}

} // verus!
