//! File system paths as strings, joined the way `Path::join` joins them on
//! Unix: a path that starts with `/` replaces the base, otherwise one `/`
//! separates the two.

use vstd::prelude::*;
use vstd::string::StringExecFns;
use crate::text::{seq_ends_with, seq_starts_with, str_ends_with, str_starts_with};

verus! {

/// `base` joined with `rel`.
pub open spec fn spec_join(base: Seq<char>, rel: Seq<char>) -> Seq<char> {
    if seq_starts_with(rel, "/"@) {
        rel
    } else if base.len() == 0 || seq_ends_with(base, "/"@) {
        base + rel
    } else {
        base + "/"@ + rel
    }
}

/// Joins `rel` onto `base`.
pub fn join(base: &str, rel: &str) -> (r: String)
    ensures
        r@ == spec_join(base@, rel@),
{
    if str_starts_with(rel, "/") {
        return rel.to_owned();
    }
    if base.unicode_len() == 0 || str_ends_with(base, "/") {
        return base.to_owned().concat(rel);
    }
    base.to_owned().concat("/").concat(rel)
}

/// The elements of `list` with `sep` between each two.
pub open spec fn spec_join_all(list: Seq<Seq<char>>, sep: Seq<char>) -> Seq<char>
    decreases list.len(),
{
    if list.len() == 0 {
        Seq::empty()
    } else if list.len() == 1 {
        list[0]
    } else {
        spec_join_all(list.drop_last(), sep) + sep + list.last()
    }
}

/// Joins strings with a separator (`[String]::join`).
pub fn join_all(list: &Vec<String>, sep: &str) -> (r: String)
    ensures
        r@ == spec_join_all(list.deep_view(), sep@),
{
    let mut r = String::new();
    let mut i: usize = 0;
    while i < list.len()
        invariant
            i <= list.len(),
            r@ == spec_join_all(list.deep_view().take(i as int), sep@),
        decreases list.len() - i,
    {
        assert(list.deep_view().take(i + 1).drop_last() =~= list.deep_view().take(i as int));
        assert(list.deep_view()[i as int] == list[i as int]@);
        if i == 0 {
            r = list[i].clone();
        } else {
            r = r.concat(sep).concat(list[i].as_str());
        }
        i = i + 1;
    }
    assert(list.deep_view().take(i as int) =~= list.deep_view());
    r
}

} // verus!
