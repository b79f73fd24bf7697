//! Splitting delimited text: the only operations the rule-file grammar
//! needs are splitting on a separator character, trimming a trailing
//! carriage return, and locating a column name in a header.

use vstd::prelude::*;
use vstd::string::StringExecFns;
use vstd::string::StrSliceExecFns;

verus! {

/// The views of a sequence of strings.
pub open spec fn strings_view(s: Seq<String>) -> Seq<Seq<char>> {
    s.map_values(|x: String| x@)
}

/// The position of the first occurrence of `sep`, if any.
pub open spec fn spec_find(s: Seq<char>, sep: char) -> Option<int>
    decreases s.len(),
{
    if s.len() == 0 {
        None
    } else if s[0] == sep {
        Some(0)
    } else {
        match spec_find(s.drop_first(), sep) {
            None => None,
            Some(j) => Some(j + 1),
        }
    }
}

/// A found position is in range, carries the separator, and is the first
/// position to do so.
pub proof fn lemma_spec_find_some(s: Seq<char>, sep: char, i: int)
    requires
        spec_find(s, sep) == Some(i),
    ensures
        0 <= i < s.len(),
        s[i] == sep,
        forall|j: int| 0 <= j < i ==> s[j] != sep,
    decreases s.len(),
{
    if s.len() > 0 && s[0] != sep {
        match spec_find(s.drop_first(), sep) {
            None => {},
            Some(j) => {
                lemma_spec_find_some(s.drop_first(), sep, j);
                assert(forall|k: int| 1 <= k < i ==> s[k] == s.drop_first()[k - 1]);
            },
        }
    }
}

/// The pieces of `s` between occurrences of `sep`, in order; a string
/// without the separator is one piece, so the result is never empty.
pub open spec fn spec_split(s: Seq<char>, sep: char) -> Seq<Seq<char>>
    decreases s.len(),
    via spec_split_decreases
{
    match spec_find(s, sep) {
        None => seq![s],
        Some(i) => seq![s.subrange(0, i)] + spec_split(
            s.subrange(i + 1, s.len() as int),
            sep,
        ),
    }
}

#[via_fn]
proof fn spec_split_decreases(s: Seq<char>, sep: char) {
    match spec_find(s, sep) {
        None => {},
        Some(i) => {
            lemma_spec_find_some(s, sep, i);
        },
    }
}

/// `s` without a single trailing carriage return, if it has one.
pub open spec fn spec_trim_cr(s: Seq<char>) -> Seq<char> {
    if s.len() > 0 && s[s.len() - 1] == '\r' {
        s.drop_last()
    } else {
        s
    }
}

/// The position of the first string equal to `name`, if any.
pub open spec fn spec_index_of(fs: Seq<Seq<char>>, name: Seq<char>) -> Option<int>
    decreases fs.len(),
{
    if fs.len() == 0 {
        None
    } else if fs[0] == name {
        Some(0)
    } else {
        match spec_index_of(fs.drop_first(), name) {
            None => None,
            Some(j) => Some(j + 1),
        }
    }
}

/// If no string equals `name`, nothing is found.
proof fn lemma_spec_index_of_none(fs: Seq<Seq<char>>, name: Seq<char>)
    requires
        forall|j: int| 0 <= j < fs.len() ==> fs[j] != name,
    ensures
        spec_index_of(fs, name) is None,
    decreases fs.len(),
{
    if fs.len() > 0 {
        lemma_spec_index_of_none(fs.drop_first(), name);
    }
}

/// The lookup finds the first string equal to `name`.
proof fn lemma_spec_index_of_first(fs: Seq<Seq<char>>, name: Seq<char>, i: int)
    requires
        0 <= i < fs.len(),
        fs[i] == name,
        forall|j: int| 0 <= j < i ==> fs[j] != name,
    ensures
        spec_index_of(fs, name) == Some(i),
    decreases fs.len(),
{
    if i > 0 {
        assert(fs.drop_first()[i - 1] == name);
        assert(forall|j: int| 0 <= j < i - 1 ==> fs.drop_first()[j] != name);
        lemma_spec_index_of_first(fs.drop_first(), name, i - 1);
    }
}

/// Whether two string slices hold the same characters.
pub fn str_eq(a: &str, b: &str) -> (r: bool)
    ensures
        r == (a@ == b@),
{
    let sa = String::from_str(a);
    let sb = String::from_str(b);
    sa == sb
}

/// The position of the first occurrence of `sep` in `s`, if any.
fn find_char(s: &str, sep: char) -> (r: Option<usize>)
    ensures
        match r {
            Some(i) => spec_find(s@, sep) == Some(i as int),
            None => spec_find(s@, sep) is None,
        },
    decreases s@.len(),
{
    let n = s.unicode_len();
    if n == 0 {
        return None;
    }
    if s.get_char(0) == sep {
        return Some(0);
    }
    let rest = s.substring_char(1, n);
    proof {
        assert(rest@ =~= s@.drop_first());
    }
    match find_char(rest, sep) {
        None => None,
        Some(i) => {
            proof {
                lemma_spec_find_some(rest@, sep, i as int);
            }
            Some(i + 1)
        },
    }
}

/// Splits `s` on `sep`; the result always holds at least one piece.
pub fn split_str(s: &str, sep: char) -> (r: Vec<String>)
    ensures
        strings_view(r@) == spec_split(s@, sep),
    decreases s@.len(),
{
    let n = s.unicode_len();
    match find_char(s, sep) {
        None => {
            let mut v: Vec<String> = Vec::new();
            v.push(String::from_str(s));
            proof {
                assert(strings_view(v@) =~= spec_split(s@, sep));
            }
            v
        },
        Some(i) => {
            proof {
                lemma_spec_find_some(s@, sep, i as int);
            }
            let head = String::from_str(s.substring_char(0, i));
            let rest = s.substring_char(i + 1, n);
            let mut v = split_str(rest, sep);
            v.insert(0, head);
            proof {
                assert(strings_view(v@) =~= spec_split(s@, sep));
            }
            v
        },
    }
}

/// Removes a single trailing carriage return, if present.
pub fn trim_cr(s: &String) -> (r: String)
    ensures
        r@ == spec_trim_cr(s@),
{
    let n = s.as_str().unicode_len();
    if n > 0 && s.as_str().get_char(n - 1) == '\r' {
        let t = String::from_str(s.as_str().substring_char(0, n - 1));
        proof {
            assert(t@ =~= s@.drop_last());
        }
        t
    } else {
        s.clone()
    }
}

/// The position of the first string in `fields` equal to `name`, if any.
pub fn index_of(fields: &Vec<String>, name: &str) -> (r: Option<usize>)
    ensures
        match r {
            Some(i) => spec_index_of(strings_view(fields@), name@) == Some(i as int),
            None => spec_index_of(strings_view(fields@), name@) is None,
        },
{
    let ghost fs = strings_view(fields@);
    let mut i: usize = 0;
    while i < fields.len()
        invariant
            fs == strings_view(fields@),
            i <= fs.len(),
            fs.len() == fields@.len(),
            forall|j: int| 0 <= j < i ==> fs[j] != name@,
        decreases fields@.len() - i,
    {
        proof {
            assert(fs[i as int] == fields@[i as int]@);
        }
        if str_eq(fields[i].as_str(), name) {
            proof {
                lemma_spec_index_of_first(fs, name@, i as int);
            }
            return Some(i);
        }
        i += 1;
    }
    proof {
        lemma_spec_index_of_none(fs, name@);
    }
    None
}

} // verus!
