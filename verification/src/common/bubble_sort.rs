use std::cmp::Ordering;
use vstd::prelude::*;

verus! {

/// `s` with its neighbours at `i` and `i + 1` exchanged.
pub open spec fn swap_at<T>(s: Seq<T>, i: int) -> Seq<T> {
    s.update(i, s[i + 1]).update(i + 1, s[i])
}

/// Every answer that `compare` can give on two values is the one `f`
/// gives on them.
pub open spec fn answers_as<T, E, F: Fn(&T, &T) -> Result<Ordering, E>>(
    compare: F,
    f: spec_fn(T, T) -> Result<Ordering, E>,
) -> bool {
    forall|a: T, b: T, o: Result<Ordering, E>| #[trigger] call_ensures(compare, (&a, &b), o) ==> o == f(a, b)
}

/// The rest of a pass over `s` from position `i`: each neighbouring pair
/// from there on is compared with `f` and swapped where `f` answers
/// `Greater`. Gives the values at the end of the pass and whether its last
/// pair was swapped (`swapped` where no pair is left), or the values when
/// `f` first failed, with that error.
pub open spec fn pass_from<T, E>(
    f: spec_fn(T, T) -> Result<Ordering, E>,
    s: Seq<T>,
    i: int,
    swapped: bool,
) -> (Seq<T>, Result<bool, E>)
    decreases s.len() - i,
{
    if i < 0 || i + 1 >= s.len() {
        (s, Ok(swapped))
    } else {
        match f(s[i], s[i + 1]) {
            Err(e) => (s, Err(e)),
            Ok(o) => match o {
                Ordering::Greater => pass_from(f, swap_at(s, i), i + 1, true),
                _ => pass_from(f, s, i + 1, false),
            },
        }
    }
}

/// Up to `fuel` passes over `s`, a new pass following as long as the last
/// pair of the one before was swapped: the values and `Ok` once a pass ends
/// without swapping its last pair, the values and the error where `f`
/// fails, `None` where the passes go on beyond `fuel`.
pub open spec fn bubble_passes<T, E>(
    f: spec_fn(T, T) -> Result<Ordering, E>,
    s: Seq<T>,
    fuel: int,
) -> Option<(Seq<T>, Result<(), E>)>
    decreases fuel,
{
    if fuel <= 0 {
        None
    } else {
        let (t, r) = pass_from(f, s, 0, true);
        match r {
            Err(e) => Some((t, Err(e))),
            Ok(swapped) => if swapped {
                bubble_passes(f, t, fuel - 1)
            } else {
                Some((t, Ok(())))
            },
        }
    }
}

/// Whether the passes over `s` come to an end.
pub open spec fn passes_end<T, E>(f: spec_fn(T, T) -> Result<Ordering, E>, s: Seq<T>) -> bool {
    exists|k: int| #[trigger] bubble_passes(f, s, k) is Some
}

/// What bubble-sorting `s` with `f` ends with, where the passes end.
pub open spec fn bubble_sorted<T, E>(f: spec_fn(T, T) -> Result<Ordering, E>, s: Seq<T>) -> (Seq<
    T,
>, Result<(), E>) {
    bubble_passes(f, s, choose|k: int| #[trigger] bubble_passes(f, s, k) is Some)->0
}

/// More fuel changes nothing once the passes have ended.
proof fn lemma_passes_more_fuel<T, E>(
    f: spec_fn(T, T) -> Result<Ordering, E>,
    s: Seq<T>,
    k: int,
    k2: int,
)
    requires
        bubble_passes(f, s, k) is Some,
        k <= k2,
    ensures
        bubble_passes(f, s, k2) == bubble_passes(f, s, k),
    decreases k,
{
    let (t, r) = pass_from(f, s, 0, true);
    match r {
        Ok(swapped) => if swapped {
            lemma_passes_more_fuel(f, t, k - 1, k2 - 1);
        },
        Err(_) => {},
    }
}

/// Where the passes end, sorting is the first pass, then, if that pass
/// swapped its last pair, sorting what the pass left.
pub proof fn lemma_sorted_unfold<T, E>(f: spec_fn(T, T) -> Result<Ordering, E>, s: Seq<T>)
    requires
        passes_end(f, s),
    ensures
        ({
            let (t, r) = pass_from(f, s, 0, true);
            match r {
                Err(e) => bubble_sorted(f, s) == (t, Err::<(), E>(e)),
                Ok(swapped) => if swapped {
                    passes_end(f, t) && bubble_sorted(f, s) == bubble_sorted(f, t)
                } else {
                    bubble_sorted(f, s) == (t, Ok::<(), E>(()))
                },
            }
        }),
{
    let k = choose|k: int| #[trigger] bubble_passes(f, s, k) is Some;
    let (t, r) = pass_from(f, s, 0, true);
    if r == Ok::<bool, E>(true) {
        assert(bubble_passes(f, t, k - 1) is Some);
        let k2 = choose|k2: int| #[trigger] bubble_passes(f, t, k2) is Some;
        if k - 1 <= k2 {
            lemma_passes_more_fuel(f, t, k - 1, k2);
        } else {
            lemma_passes_more_fuel(f, t, k2, k - 1);
        }
    }
}

/// A pass over values seen through `v` goes as the pass over the values
/// themselves, where `f` answers on two values as `g` on their views.
pub proof fn lemma_pass_map<A, B, E>(
    f: spec_fn(A, A) -> Result<Ordering, E>,
    g: spec_fn(B, B) -> Result<Ordering, E>,
    v: spec_fn(A) -> B,
    s: Seq<A>,
    i: int,
    swapped: bool,
)
    requires
        forall|a: A, b: A| #[trigger] f(a, b) == g(v(a), v(b)),
    ensures
        pass_from(g, s.map_values(v), i, swapped) == (
            pass_from(f, s, i, swapped).0.map_values(v),
            pass_from(f, s, i, swapped).1,
        ),
    decreases s.len() - i,
{
    let m = s.map_values(v);
    if !(i < 0 || i + 1 >= s.len()) {
        assert(m[i] == v(s[i]) && m[i + 1] == v(s[i + 1]));
        assert(f(s[i], s[i + 1]) == g(m[i], m[i + 1]));
        match f(s[i], s[i + 1]) {
            Err(_) => {},
            Ok(o) => match o {
                Ordering::Greater => {
                    assert(swap_at(s, i).map_values(v) =~= swap_at(m, i));
                    lemma_pass_map(f, g, v, swap_at(s, i), i + 1, true);
                },
                _ => {
                    lemma_pass_map(f, g, v, s, i + 1, false);
                },
            },
        }
    }
}

/// The passes over values seen through `v` go as the passes over the values
/// themselves, where `f` answers on two values as `g` on their views.
pub proof fn lemma_passes_map<A, B, E>(
    f: spec_fn(A, A) -> Result<Ordering, E>,
    g: spec_fn(B, B) -> Result<Ordering, E>,
    v: spec_fn(A) -> B,
    s: Seq<A>,
    fuel: int,
)
    requires
        forall|a: A, b: A| #[trigger] f(a, b) == g(v(a), v(b)),
    ensures
        bubble_passes(g, s.map_values(v), fuel) == match bubble_passes(f, s, fuel) {
            None => None,
            Some((t, r)) => Some((t.map_values(v), r)),
        },
    decreases fuel,
{
    if fuel > 0 {
        lemma_pass_map(f, g, v, s, 0, true);
        let (t, r) = pass_from(f, s, 0, true);
        if r == Ok::<bool, E>(true) {
            lemma_passes_map(f, g, v, t, fuel - 1);
        }
    }
}

/// Sorting values seen through `v` ends where sorting the values ends, with
/// their views, where `f` answers on two values as `g` on their views.
pub proof fn lemma_sorted_map<A, B, E>(
    f: spec_fn(A, A) -> Result<Ordering, E>,
    g: spec_fn(B, B) -> Result<Ordering, E>,
    v: spec_fn(A) -> B,
    s: Seq<A>,
)
    requires
        forall|a: A, b: A| #[trigger] f(a, b) == g(v(a), v(b)),
    ensures
        passes_end(f, s) <==> passes_end(g, s.map_values(v)),
        passes_end(f, s) ==> bubble_sorted(g, s.map_values(v)) == (
            bubble_sorted(f, s).0.map_values(v),
            bubble_sorted(f, s).1,
        ),
{
    let m = s.map_values(v);
    if passes_end(f, s) {
        let k = choose|k: int| #[trigger] bubble_passes(f, s, k) is Some;
        lemma_passes_map(f, g, v, s, k);
        assert(bubble_passes(g, m, k) is Some);
        let k2 = choose|k2: int| #[trigger] bubble_passes(g, m, k2) is Some;
        if k <= k2 {
            lemma_passes_more_fuel(g, m, k, k2);
        } else {
            lemma_passes_more_fuel(g, m, k2, k);
        }
    }
    if passes_end(g, m) {
        let k = choose|k: int| #[trigger] bubble_passes(g, m, k) is Some;
        lemma_passes_map(f, g, v, s, k);
        assert(bubble_passes(f, s, k) is Some);
    }
}

/// Swapping two neighbours keeps the values of a sequence.
proof fn lemma_adjacent_swap_multiset<T>(before: Seq<T>, after: Seq<T>, i: usize)
    requires
        i + 1 < before.len(),
        after == before.update(i as int, before[i + 1]).update(i + 1, before[i as int]),
    ensures
        after.to_multiset() == before.to_multiset(),
{
    let mid = before.update(i as int, before[i + 1]);
    vstd::seq_lib::to_multiset_update(before, i as int, before[i + 1]);
    vstd::seq_lib::to_multiset_update(mid, i + 1, before[i as int]);
    broadcast use vstd::multiset::group_multiset_axioms, vstd::multiset::group_multiset_properties,
        vstd::seq_lib::group_to_multiset_ensures;

    let m = before.to_multiset();
    assert(mid.to_multiset() == m.insert(before[i + 1]).remove(before[i as int]));
    let p = before[i + 1];
    let q = before[i as int];
    assert(mid[i + 1] == p);
    assert(after.to_multiset() == mid.to_multiset().insert(q).remove(p));
    assert(before.contains(q) && before.contains(p)) by {
        assert(before[i as int] == q);
        assert(before[i + 1] == p);
    }
    assert(m.count(q) > 0 && m.count(p) > 0);
    assert forall|x: T| #[trigger] after.to_multiset().count(x) == m.count(x) by {
        let m1 = m.insert(p);
        let m2 = m1.remove(q);
        let m3 = m2.insert(q);
        let m4 = m3.remove(p);
        assert(m1.count(x) == m.count(x) + if x == p { 1int } else { 0int });
        assert(m2.count(x) == m1.count(x) - if x == q { 1int } else { 0int });
        assert(m3.count(x) == m2.count(x) + if x == q { 1int } else { 0int });
        assert(m4.count(x) == m3.count(x) - if x == p { 1int } else { 0int });
    }
    assert(after.to_multiset() =~= before.to_multiset());
}

/// Swaps two elements of a slice (`<[T]>::swap`).
#[verifier::external_body]
fn slice_swap<T>(data: &mut [T], a: usize, b: usize)
    requires
        a < old(data)@.len(),
        b < old(data)@.len(),
    ensures
        final(data)@ == old(data)@.update(a as int, old(data)@[b as int]).update(
            b as int,
            old(data)@[a as int],
        ),
{
    data.swap(a, b)
}

/// One pass over `data`: each neighbouring pair, from the front, is compared
/// and swapped where `compare` answers `Greater`. Gives whether the last
/// pair was swapped, or the first error of `compare`, with `data` as it
/// stood then.
fn sort_pass<T, E, F: Fn(&T, &T) -> Result<Ordering, E>>(data: &mut [T], compare: &F) -> (r: Result<
    bool,
    E,
>)
    requires
        old(data)@.len() >= 2,
        forall|a: &T, b: &T| call_requires(*compare, (a, b)),
    ensures
        final(data)@.len() == old(data)@.len(),
        final(data)@.to_multiset() == old(data)@.to_multiset(),
        forall|f: spec_fn(T, T) -> Result<Ordering, E>|
            answers_as(*compare, f) ==> #[trigger] pass_from(f, old(data)@, 0, true) == (final(data)@, r),
{
    let len = data.len();
    let ghost start = data@;
    let mut swapped = true;
    let mut i: usize = 0;
    let ghost mut at: int = 0;
    while i < len - 1
        invariant
            data@.len() == len,
            len >= 2,
            i <= len - 1,
            at == i,
            start == old(data)@,
            start.len() == len,
            data@.to_multiset() == start.to_multiset(),
            forall|a: &T, b: &T| call_requires(*compare, (a, b)),
            forall|f: spec_fn(T, T) -> Result<Ordering, E>|
                answers_as(*compare, f) ==> #[trigger] pass_from(f, start, 0, true) == pass_from(
                    f,
                    data@,
                    at,
                    swapped,
                ),
        decreases len - 1 - i,
    {
        let ghost before = data@;
        let ghost was = swapped;
        let ghost wa: T = data@[at];
        let ghost wb: T = data@[at + 1];
        swapped = false;
        let ord = compare(&data[i], &data[i + 1]);
        assert(call_ensures(*compare, (&wa, &wb), ord));
        match ord {
            Err(e) => {
                assert forall|f: spec_fn(T, T) -> Result<Ordering, E>|
                    answers_as(*compare, f) implies #[trigger] pass_from(f, start, 0, true) == (data@, Err::<bool, E>(e)) by {
                    assert(f(wa, wb) == ord);
                    assert(pass_from(f, before, at, was) == (before, Err::<bool, E>(e)));
                }
                return Err(e);
            },
            Ok(o) => {
                match o {
                    Ordering::Greater => {
                        slice_swap(data, i, i + 1);
                        proof {
                            lemma_adjacent_swap_multiset(before, data@, i);
                            assert(data@ =~= swap_at(before, at));
                        }
                        swapped = true;
                    },
                    _ => {},
                }
                assert forall|f: spec_fn(T, T) -> Result<Ordering, E>|
                    answers_as(*compare, f) implies #[trigger] pass_from(f, start, 0, true) == pass_from(f, data@, at + 1, swapped) by {
                    assert(f(wa, wb) == ord);
                    assert(pass_from(f, before, at, was) == pass_from(f, data@, at + 1, swapped));
                }
            },
        }
        i = i + 1;
        proof {
            at = at + 1;
        }
    }
    Ok(swapped)
}

/// Bubble-sorts `data` with a fallible comparison.
///
/// Each pass compares neighbouring pairs from the front and swaps a pair
/// where `compare` answers `Greater`; passes follow one another as long as
/// the last pair of the pass before was swapped. The first error of
/// `compare` is returned at once, with `data` as it stands then.
pub fn try_bubble_sort_by<T, E, F: Fn(&T, &T) -> Result<Ordering, E>>(
    data: &mut [T],
    compare: F,
) -> (r: Result<(), E>)
    requires
        old(data)@.len() >= 2,
        forall|a: &T, b: &T| call_requires(compare, (a, b)),
        exists|f: spec_fn(T, T) -> Result<Ordering, E>|
            answers_as(compare, f) && #[trigger] passes_end(f, old(data)@),
    ensures
        final(data)@.to_multiset() == old(data)@.to_multiset(),
        forall|f: spec_fn(T, T) -> Result<Ordering, E>|
            answers_as(compare, f) && #[trigger] passes_end(f, old(data)@) ==> bubble_sorted(f, old(data)@) == (
                final(data)@,
                r,
            ),
{
    let ghost initial = data@;
    let ghost f0 = choose|f: spec_fn(T, T) -> Result<Ordering, E>|
        answers_as(compare, f) && #[trigger] passes_end(f, initial);
    let ghost mut fuel: int = choose|k: int| #[trigger] bubble_passes(f0, initial, k) is Some;
    let mut swapped = true;
    while swapped
        invariant
            data@.len() == initial.len(),
            initial.len() >= 2,
            initial == old(data)@,
            data@.to_multiset() == initial.to_multiset(),
            forall|a: &T, b: &T| call_requires(compare, (a, b)),
            answers_as(compare, f0),
            fuel >= 0,
            swapped ==> bubble_passes(f0, data@, fuel) is Some,
            swapped ==> forall|f: spec_fn(T, T) -> Result<Ordering, E>|
                answers_as(compare, f) && #[trigger] passes_end(f, initial) ==> passes_end(f, data@)
                    && bubble_sorted(f, data@) == bubble_sorted(f, initial),
            !swapped ==> forall|f: spec_fn(T, T) -> Result<Ordering, E>|
                answers_as(compare, f) && #[trigger] passes_end(f, initial) ==> bubble_sorted(f, initial) == (
                    data@,
                    Ok::<(), E>(()),
                ),
        decreases fuel,
    {
        let ghost pass_start = data@;
        let step = sort_pass(data, &compare);
        proof {
            assert(pass_from(f0, pass_start, 0, true) == (data@, step));
        }
        match step {
            Err(e) => {
                assert forall|f: spec_fn(T, T) -> Result<Ordering, E>|
                    answers_as(compare, f) && #[trigger] passes_end(f, initial) implies bubble_sorted(f, initial) == (
                        data@,
                        Err::<(), E>(e),
                    ) by {
                    assert(pass_from(f, pass_start, 0, true) == (data@, step));
                    lemma_sorted_unfold(f, pass_start);
                }
                return Err(e);
            },
            Ok(last_swapped) => {
                proof {
                    assert forall|f: spec_fn(T, T) -> Result<Ordering, E>|
                        answers_as(compare, f) && #[trigger] passes_end(f, initial) implies (last_swapped
                            ==> passes_end(f, data@) && bubble_sorted(f, data@) == bubble_sorted(f, initial))
                            && (!last_swapped ==> bubble_sorted(f, initial) == (data@, Ok::<(), E>(()))) by {
                        assert(pass_from(f, pass_start, 0, true) == (data@, step));
                        lemma_sorted_unfold(f, pass_start);
                    }
                    fuel = fuel - 1;
                }
                swapped = last_swapped;
            },
        }
    }
    Ok(())
}

/// Bubble-sorts `data` as `try_bubble_sort_by` does, giving up after
/// `limit` passes: `None` where the passes would go on beyond that.
pub(crate) fn bubble_sort_within<T, E, F: Fn(&T, &T) -> Result<Ordering, E>>(
    data: &mut [T],
    compare: F,
    limit: usize,
    Ghost(fuel): Ghost<int>,
) -> (r: Option<Result<(), E>>)
    requires
        old(data)@.len() >= 2,
        forall|a: &T, b: &T| call_requires(compare, (a, b)),
        fuel == limit,
    ensures
        forall|f: spec_fn(T, T) -> Result<Ordering, E>|
            answers_as(compare, f) ==> #[trigger] bubble_passes(f, old(data)@, fuel) == match r {
                None => None,
                Some(res) => Some((final(data)@, res)),
            },
{
    let ghost initial = data@;
    let mut left = limit;
    let ghost mut fuel_left: int = fuel;
    loop
        invariant
            data@.len() == initial.len(),
            initial.len() >= 2,
            initial == old(data)@,
            forall|a: &T, b: &T| call_requires(compare, (a, b)),
            fuel_left == left,
            forall|f: spec_fn(T, T) -> Result<Ordering, E>|
                answers_as(compare, f) ==> #[trigger] bubble_passes(f, initial, fuel) == bubble_passes(
                    f,
                    data@,
                    fuel_left,
                ),
        decreases left,
    {
        if left == 0 {
            return None;
        }
        let ghost pass_start = data@;
        let step = sort_pass(data, &compare);
        match step {
            Err(e) => {
                assert forall|f: spec_fn(T, T) -> Result<Ordering, E>|
                    answers_as(compare, f) implies #[trigger] bubble_passes(f, initial, fuel) == Some((data@, Err::<(), E>(e))) by {
                    assert(pass_from(f, pass_start, 0, true) == (data@, step));
                    assert(bubble_passes(f, pass_start, fuel_left) == Some((data@, Err::<(), E>(e))));
                }
                return Some(Err(e));
            },
            Ok(last_swapped) => {
                if !last_swapped {
                    assert forall|f: spec_fn(T, T) -> Result<Ordering, E>|
                        answers_as(compare, f) implies #[trigger] bubble_passes(f, initial, fuel) == Some((data@, Ok::<(), E>(()))) by {
                        assert(pass_from(f, pass_start, 0, true) == (data@, step));
                        assert(bubble_passes(f, pass_start, fuel_left) == Some((data@, Ok::<(), E>(()))));
                    }
                    return Some(Ok(()));
                }
                assert forall|f: spec_fn(T, T) -> Result<Ordering, E>|
                    answers_as(compare, f) implies #[trigger] bubble_passes(f, initial, fuel) == bubble_passes(f, data@, fuel_left - 1) by {
                    assert(pass_from(f, pass_start, 0, true) == (data@, step));
                    assert(bubble_passes(f, pass_start, fuel_left) == bubble_passes(f, data@, fuel_left - 1));
                }
                left = left - 1;
                proof {
                    fuel_left = fuel_left - 1;
                }
            },
        }
    }
}

} // verus!
