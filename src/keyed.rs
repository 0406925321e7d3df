//! Lookup by name in a vector of named entries.

use vstd::prelude::*;

verus! {

/// An entry that is identified by a name.
pub trait Named {
    spec fn name_view(&self) -> Seq<char>;

    fn name(&self) -> (r: &String)
        ensures
            r@ == self.name_view(),
    ;
}

/// Entry `i` of `s` carries the name `n`.
pub open spec fn named_at<T: Named>(s: Seq<T>, n: Seq<char>, i: int) -> bool {
    0 <= i < s.len() && s[i].name_view() == n
}

/// Some entry of `s` carries the name `n`.
pub open spec fn has_name<T: Named>(s: Seq<T>, n: Seq<char>) -> bool {
    exists|i: int| named_at(s, n, i)
}

/// The first position at or after `i` at which `n` occurs in `s`, if any.
pub open spec fn position_from<T: Named>(s: Seq<T>, n: Seq<char>, i: int) -> Option<int>
    decreases s.len() - i,
{
    if i < 0 || i >= s.len() {
        None
    } else if s[i].name_view() == n {
        Some(i)
    } else {
        position_from(s, n, i + 1)
    }
}

/// The first position at which `n` occurs in `s`, if any.
pub open spec fn position_of<T: Named>(s: Seq<T>, n: Seq<char>) -> Option<int> {
    position_from(s, n, 0)
}

/// A position found is a valid index that carries the name.
pub proof fn lemma_position_from_valid<T: Named>(s: Seq<T>, n: Seq<char>, i: int)
    requires
        0 <= i,
    ensures
        match position_from(s, n, i) {
            Some(k) => i <= k < s.len() && named_at(s, n, k),
            None => forall|j: int| i <= j < s.len() ==> !named_at(s, n, j),
        },
    decreases s.len() - i,
{
    if 0 <= i < s.len() && s[i].name_view() != n {
        lemma_position_from_valid(s, n, i + 1);
    }
}

/// Replacing an entry by one with the same name moves no position.
pub proof fn lemma_position_after_update<T: Named>(s: Seq<T>, k: int, x: T, n: Seq<char>, i: int)
    requires
        0 <= k < s.len(),
        x.name_view() == s[k].name_view(),
    ensures
        position_from(s.update(k, x), n, i) == position_from(s, n, i),
    decreases s.len() - i,
{
    if 0 <= i < s.len() {
        lemma_position_after_update(s, k, x, n, i + 1);
    }
}

/// Appending an entry leaves earlier positions and adds one for a new name.
pub proof fn lemma_position_after_push<T: Named>(s: Seq<T>, x: T, n: Seq<char>, i: int)
    requires
        0 <= i,
    ensures
        position_from(s.push(x), n, i) == match position_from(s, n, i) {
            Some(k) => Some(k),
            None => if i <= s.len() && x.name_view() == n {
                Some(s.len() as int)
            } else {
                None
            },
        },
    decreases s.len() - i,
{
    let t = s.push(x);
    if i < s.len() {
        assert(t[i] == s[i]);
        lemma_position_after_push(s, x, n, i + 1);
    } else if i == s.len() {
        assert(t[i] == x);
        assert(position_from(t, n, i + 1).is_none());
    }
}

/// The last position before `i` at which `n` occurs in `s`, if any.
pub open spec fn last_position_before<T: Named>(s: Seq<T>, n: Seq<char>, i: int) -> Option<int>
    decreases i,
{
    if i <= 0 || i > s.len() {
        None
    } else if s[i - 1].name_view() == n {
        Some(i - 1)
    } else {
        last_position_before(s, n, i - 1)
    }
}

/// The last position at which `n` occurs in `s`, if any.
pub open spec fn last_position_of<T: Named>(s: Seq<T>, n: Seq<char>) -> Option<int> {
    last_position_before(s, n, s.len() as int)
}

/// Scans `v` from the end for the last entry named `n`.
pub fn find_last_named<T: Named>(v: &Vec<T>, n: &String) -> (r: Option<usize>)
    ensures
        match r {
            Some(k) => k < v.len() && named_at(v@, n@, k as int) && last_position_of(v@, n@)
                == Some(k as int),
            None => last_position_of(v@, n@).is_none(),
        },
{
    let mut i: usize = v.len();
    while i > 0
        invariant
            i <= v.len(),
            last_position_of(v@, n@) == last_position_before(v@, n@, i as int),
        decreases i,
    {
        if v[i - 1].name().eq(n) {
            return Some(i - 1);
        }
        i = i - 1;
    }
    None
}

/// Scans `v` for the first entry named `n`.
pub fn find_named<T: Named>(v: &Vec<T>, n: &String) -> (r: Option<usize>)
    ensures
        match r {
            Some(k) => k < v.len() && named_at(v@, n@, k as int) && position_of(v@, n@) == Some(
                k as int,
            ),
            None => position_of(v@, n@).is_none() && !has_name(v@, n@),
        },
{
    let mut i: usize = 0;
    while i < v.len()
        invariant
            i <= v.len(),
            position_of(v@, n@) == position_from(v@, n@, i as int),
            forall|j: int| 0 <= j < i ==> !named_at(v@, n@, j),
        decreases v.len() - i,
    {
        if v[i].name().eq(n) {
            return Some(i);
        }
        i = i + 1;
    }
    None
}

} // verus!
