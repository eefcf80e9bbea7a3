//! Small helpers on vectors of strings: copying, membership, and removal of
//! every occurrence of one value.

use vstd::prelude::*;

verus! {

/// The characters of an optional string.
pub open spec fn opt_view(o: Option<String>) -> Option<Seq<char>> {
    match o {
        Some(s) => Some(s@),
        None => None,
    }
}

/// Copies an optional string; the copy reads the same.
pub fn clone_opt_string(o: &Option<String>) -> (r: Option<String>)
    ensures
        opt_view(r) == opt_view(*o),
{
    match o {
        Some(s) => Some(s.clone()),
        None => None,
    }
}

/// The `page`-th page, of `page_size` entries, of `s` read newest-first:
/// entries are taken from the back of `s`, skipping the `page * page_size`
/// latest ones.  A page past the available data is empty.
pub open spec fn page_desc<T>(s: Seq<T>, page: int, page_size: int) -> Seq<T> {
    let skip = page * page_size;
    if page_size <= 0 || skip >= s.len() {
        Seq::empty()
    } else {
        let take = if page_size <= s.len() - skip {
            page_size
        } else {
            s.len() - skip
        };
        Seq::new(take as nat, |k: int| s[s.len() - 1 - skip - k])
    }
}

/// Whether some element of `s` reads as `x`.
pub open spec fn seq_has_string(s: Seq<String>, x: Seq<char>) -> bool {
    exists|i: int| 0 <= i < s.len() && s[i]@ == x
}

/// The elements of `s` that do not read as `x`, in order.
pub open spec fn seq_without_string(s: Seq<String>, x: Seq<char>) -> Seq<String>
    decreases s.len(),
{
    if s.len() == 0 {
        s
    } else {
        let rest = seq_without_string(s.drop_last(), x);
        if s.last()@ == x {
            rest
        } else {
            rest.push(s.last())
        }
    }
}

/// Copies a vector of strings; the copy reads the same, element for element.
pub fn clone_string_vec(v: &Vec<String>) -> (r: Vec<String>)
    ensures
        r@ == v@,
{
    let mut out: Vec<String> = Vec::new();
    let mut i: usize = 0;
    while i < v.len()
        invariant
            i <= v.len(),
            out@ == v@.subrange(0, i as int),
        decreases v.len() - i,
    {
        out.push(v[i].clone());
        proof {
            assert(out@ =~= v@.subrange(0, i + 1 as int));
        }
        i = i + 1;
    }
    proof {
        assert(v@.subrange(0, v@.len() as int) =~= v@);
    }
    out
}

/// Whether `v` holds an element that reads as `x`.
pub fn contains_string(v: &Vec<String>, x: &String) -> (r: bool)
    ensures
        r == seq_has_string(v@, x@),
{
    let mut i: usize = 0;
    while i < v.len()
        invariant
            i <= v.len(),
            forall|j: int| 0 <= j < i ==> v@[j]@ != x@,
        decreases v.len() - i,
    {
        if v[i] == *x {
            return true;
        }
        i = i + 1;
    }
    false
}

/// Removes every element of `v` that reads as `x`, keeping the rest in
/// order.
pub fn remove_string(v: &mut Vec<String>, x: &String)
    ensures
        final(v)@ == seq_without_string(old(v)@, x@),
{
    let mut out: Vec<String> = Vec::new();
    let mut i: usize = 0;
    while i < v.len()
        invariant
            i <= v.len(),
            out@ == seq_without_string(v@.subrange(0, i as int), x@),
        decreases v.len() - i,
    {
        proof {
            assert(v@.subrange(0, i + 1 as int).drop_last() =~= v@.subrange(0, i as int));
            assert(v@.subrange(0, i + 1 as int).last() == v@[i as int]);
        }
        if v[i] != *x {
            out.push(v[i].clone());
        }
        i = i + 1;
    }
    proof {
        assert(v@.subrange(0, v@.len() as int) =~= v@);
    }
    *v = out;
}

/// No element of `seq_without_string(s, x)` reads as `x`, and every other
/// element of `s` is kept.
pub proof fn lemma_seq_without_string(s: Seq<String>, x: Seq<char>)
    ensures
        forall|i: int|
            0 <= i < seq_without_string(s, x).len() ==> #[trigger] seq_without_string(s, x)[i]@
                != x,
        !seq_has_string(seq_without_string(s, x), x),
        forall|y: Seq<char>|
            y != x ==> (#[trigger] seq_has_string(seq_without_string(s, x), y) == seq_has_string(
                s,
                y,
            )),
    decreases s.len(),
{
    if s.len() > 0 {
        lemma_seq_without_string(s.drop_last(), x);
        let rest = seq_without_string(s.drop_last(), x);
        let r = seq_without_string(s, x);
        assert forall|y: Seq<char>| y != x implies (#[trigger] seq_has_string(r, y)
            == seq_has_string(s, y)) by {
            if s.last()@ == x {
                assert(r == rest);
                if seq_has_string(s, y) {
                    let i = choose|i: int| 0 <= i < s.len() && s[i]@ == y;
                    assert(i < s.len() - 1);
                    assert(s.drop_last()[i]@ == y);
                }
                if seq_has_string(s.drop_last(), y) {
                    let i = choose|i: int| 0 <= i < s.drop_last().len() && s.drop_last()[i]@ == y;
                    assert(s[i]@ == y);
                }
            } else {
                assert(r == rest.push(s.last()));
                if seq_has_string(s, y) {
                    let i = choose|i: int| 0 <= i < s.len() && s[i]@ == y;
                    if i < s.len() - 1 {
                        assert(s.drop_last()[i]@ == y);
                        assert(seq_has_string(s.drop_last(), y));
                        assert(seq_has_string(rest, y));
                        let j = choose|j: int| 0 <= j < rest.len() && rest[j]@ == y;
                        assert(r[j]@ == y);
                    } else {
                        assert(r[r.len() - 1]@ == y);
                    }
                }
                if seq_has_string(r, y) {
                    let i = choose|i: int| 0 <= i < r.len() && r[i]@ == y;
                    if i < rest.len() {
                        assert(rest[i]@ == y);
                        assert(seq_has_string(rest, y));
                        assert(seq_has_string(s.drop_last(), y));
                        let j = choose|j: int|
                            0 <= j < s.drop_last().len() && s.drop_last()[j]@ == y;
                        assert(s[j]@ == y);
                    } else {
                        assert(s.last()@ == y);
                    }
                }
            }
        }
    }
}

} // verus!
