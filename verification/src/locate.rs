//! Locating the target entry: the first archive entry whose name holds
//! `main.` followed, somewhere at or after it, by `.bundle.js`.

use vstd::prelude::*;

use crate::chars::to_chars;

verus! {

/// Whether `pat` occurs in `s` starting at position `i`.
pub open spec fn contains_at(s: Seq<char>, i: int, pat: Seq<char>) -> bool {
    0 <= i && i + pat.len() <= s.len() && s.subrange(i, i + pat.len() as int) == pat
}

/// The naming rule of the target entry: the name holds `main.` and,
/// beginning at or after the end of it, `.bundle.js`; what stands
/// between is arbitrary, possibly empty, path separators included.
pub open spec fn is_target_name_spec(s: Seq<char>) -> bool {
    exists|i: int, k: int|
        contains_at(s, i, "main."@) && contains_at(s, k, ".bundle.js"@) && i + 5 <= k
}

/// Whether `main.` stands at position `i` of `v`.
fn matches_main_at(v: &Vec<char>, i: usize) -> (b: bool)
    requires
        i + 5 <= v@.len(),
    ensures
        b == contains_at(v@, i as int, "main."@),
{
    let n = v.len();
    proof {
        reveal_strlit("main.");
    }
    let b = v[i] == 'm' && v[i + 1] == 'a' && v[i + 2] == 'i' && v[i + 3] == 'n' && v[i + 4] == '.';
    proof {
        let pat = "main."@;
        let sub = v@.subrange(i as int, i as int + 5);
        if b {
            assert(sub =~= pat);
        } else {
            if sub == pat {
                assert(v@[i as int] == sub[0] && v@[i as int + 1] == sub[1] && v@[i as int + 2]
                    == sub[2] && v@[i as int + 3] == sub[3] && v@[i as int + 4] == sub[4]);
            }
        }
    }
    b
}

/// Whether `.bundle.js` stands at position `k` of `v`.
fn matches_bundle_at(v: &Vec<char>, k: usize) -> (b: bool)
    requires
        k + 10 <= v@.len(),
    ensures
        b == contains_at(v@, k as int, ".bundle.js"@),
{
    let n = v.len();
    proof {
        reveal_strlit(".bundle.js");
    }
    let b = v[k] == '.' && v[k + 1] == 'b' && v[k + 2] == 'u' && v[k + 3] == 'n' && v[k + 4] == 'd'
        && v[k + 5] == 'l' && v[k + 6] == 'e' && v[k + 7] == '.' && v[k + 8] == 'j' && v[k + 9]
        == 's';
    proof {
        let pat = ".bundle.js"@;
        let sub = v@.subrange(k as int, k as int + 10);
        if b {
            assert(sub =~= pat);
        } else {
            if sub == pat {
                assert(v@[k as int] == sub[0] && v@[k as int + 1] == sub[1] && v@[k as int + 2]
                    == sub[2] && v@[k as int + 3] == sub[3] && v@[k as int + 4] == sub[4] && v@[k
                    as int + 5] == sub[5] && v@[k as int + 6] == sub[6] && v@[k as int + 7]
                    == sub[7] && v@[k as int + 8] == sub[8] && v@[k as int + 9] == sub[9]);
            }
        }
    }
    b
}

/// The position of the leftmost occurrence of `main.` in `v`, if any.
fn find_first_main(v: &Vec<char>) -> (r: Option<usize>)
    ensures
        r matches Some(i) ==> i + 5 <= v@.len() && contains_at(v@, i as int, "main."@) && forall|
            j: int,
        | 0 <= j < i ==> !contains_at(v@, j, "main."@),
        r is None ==> forall|j: int| !contains_at(v@, j, "main."@),
{
    let n = v.len();
    proof {
        reveal_strlit("main.");
    }
    if n < 5 {
        return None;
    }
    let mut i: usize = 0;
    while i <= n - 5
        invariant
            n == v@.len(),
            n >= 5,
            i <= n,
            forall|j: int| 0 <= j < i ==> !contains_at(v@, j, "main."@),
        decreases n - i,
    {
        if matches_main_at(v, i) {
            return Some(i);
        }
        i = i + 1;
    }
    proof {
        assert forall|j: int| !contains_at(v@, j, "main."@) by {
            if 0 <= j && j + 5 <= n {
                assert(j < i);
            }
        }
    }
    None
}

/// Whether `.bundle.js` occurs in `v` at position `start` or later.
fn has_bundle_from(v: &Vec<char>, start: usize) -> (b: bool)
    requires
        start <= v@.len(),
    ensures
        b == exists|k: int| start <= k && contains_at(v@, k, ".bundle.js"@),
{
    let n = v.len();
    proof {
        reveal_strlit(".bundle.js");
    }
    if n < 10 || start > n - 10 {
        proof {
            assert forall|k: int| !(start <= k && contains_at(v@, k, ".bundle.js"@)) by {}
        }
        return false;
    }
    let mut k: usize = start;
    while k <= n - 10
        invariant
            n == v@.len(),
            n >= 10,
            start <= k,
            k <= n,
            forall|k2: int| start <= k2 < k ==> !contains_at(v@, k2, ".bundle.js"@),
        decreases n - k,
    {
        if matches_bundle_at(v, k) {
            proof {
                assert(start <= k as int && contains_at(v@, k as int, ".bundle.js"@));
            }
            return true;
        }
        k = k + 1;
    }
    proof {
        assert forall|k2: int| !(start <= k2 && contains_at(v@, k2, ".bundle.js"@)) by {
            if start <= k2 && 0 <= k2 && k2 + 10 <= n {
                assert(k2 < k);
            }
        }
    }
    false
}

/// Decides the naming rule for one name.
pub fn is_target_name(v: &Vec<char>) -> (b: bool)
    ensures
        b == is_target_name_spec(v@),
{
    let n = v.len();
    proof {
        reveal_strlit("main.");
        reveal_strlit(".bundle.js");
    }
    match find_first_main(v) {
        None => {
            proof {
                assert(!is_target_name_spec(v@));
            }
            false
        },
        Some(i0) => {
            let b = has_bundle_from(v, i0 + 5);
            proof {
                if b {
                    let k = choose|k: int|
                        i0 + 5 <= k && contains_at(v@, k, ".bundle.js"@);
                    assert(contains_at(v@, i0 as int, "main."@) && contains_at(
                        v@,
                        k,
                        ".bundle.js"@,
                    ) && i0 + 5 <= k);
                } else {
                    if is_target_name_spec(v@) {
                        let (i, k) = choose|i: int, k: int|
                            contains_at(v@, i, "main."@) && contains_at(v@, k, ".bundle.js"@) && i
                                + 5 <= k;
                        assert(i >= i0);
                        assert(k >= i0 + 5);
                    }
                }
            }
            b
        },
    }
}

/// Returns the position of the first name in `names` that matches the
/// target rule, or `None` when no name does.
pub fn find_target(names: &Vec<String>) -> (r: Option<usize>)
    ensures
        r matches Some(idx) ==> idx < names@.len() && is_target_name_spec(names@[idx as int]@)
            && forall|j: int| 0 <= j < idx ==> !is_target_name_spec(names@[j]@),
        r is None ==> forall|j: int| 0 <= j < names@.len() ==> !is_target_name_spec(names@[j]@),
{
    let n = names.len();
    let mut j: usize = 0;
    while j < n
        invariant
            n == names@.len(),
            j <= n,
            forall|j2: int| 0 <= j2 < j ==> !is_target_name_spec(names@[j2]@),
        decreases n - j,
    {
        let cs = to_chars(names[j].as_str());
        if is_target_name(&cs) {
            return Some(j);
        }
        j = j + 1;
    }
    None
}

} // verus!
