use crate::error::BpmError;
use vstd::prelude::*;
use vstd::seq_lib::seq_to_set_is_finite;
use vstd::set_lib::lemma_len_subset;

verus! {

/// Largest number of tracks that can be registered.
pub const MAX_TRACKS: usize = 6;

/// What resolving `fingerprint` does to a registry that holds `names`, and
/// what it returns: a known fingerprint keeps its index; an unknown one is
/// appended and gets the next index while there is room; with the registry
/// full it is refused and nothing changes.
pub open spec fn resolve(names: Seq<Seq<char>>, fingerprint: Seq<char>) -> (
    Seq<Seq<char>>,
    Result<usize, BpmError>,
) {
    if names.contains(fingerprint) {
        (names, Ok(names.index_of(fingerprint) as usize))
    } else if names.len() < MAX_TRACKS {
        (names.push(fingerprint), Ok(names.len() as usize))
    } else {
        (names, Err(BpmError::CapacityExceeded))
    }
}

/// A registry is well formed when no fingerprint occurs twice and it holds
/// at most [`MAX_TRACKS`] of them.
pub open spec fn registry_wf(names: Seq<Seq<char>>) -> bool {
    names.no_duplicates() && names.len() <= MAX_TRACKS
}

/// The registry after resolving each of `calls` in turn, starting from `names`.
pub open spec fn after_calls(names: Seq<Seq<char>>, calls: Seq<Seq<char>>) -> Seq<Seq<char>>
    decreases calls.len(),
{
    if calls.len() == 0 {
        names
    } else {
        resolve(after_calls(names, calls.drop_last()), calls.last()).0
    }
}

/// What call number `k` of `calls` returns, the calls being made in turn on
/// a registry that starts as `names`.
pub open spec fn nth_result(names: Seq<Seq<char>>, calls: Seq<Seq<char>>, k: int) -> Result<
    usize,
    BpmError,
> {
    resolve(after_calls(names, calls.take(k)), calls[k]).1
}

/// Resolving keeps a registry well formed and never moves an entry: what
/// was registered stays at its index.
pub proof fn law_resolve_keeps_entries(names: Seq<Seq<char>>, fingerprint: Seq<char>)
    requires
        registry_wf(names),
    ensures
        registry_wf(resolve(names, fingerprint).0),
        names.len() <= resolve(names, fingerprint).0.len(),
        resolve(names, fingerprint).0.take(names.len() as int) == names,
        match resolve(names, fingerprint).1 {
            Ok(i) => i < resolve(names, fingerprint).0.len() && resolve(names, fingerprint).0[i as int]
                == fingerprint,
            Err(e) => e == BpmError::CapacityExceeded,
        },
{
}

/// The registry after a run of calls is well formed, and it extends the
/// registry after any shorter run of the same calls.
proof fn lemma_after_calls(names: Seq<Seq<char>>, calls: Seq<Seq<char>>, j: int)
    requires
        registry_wf(names),
        0 <= j <= calls.len(),
    ensures
        registry_wf(after_calls(names, calls)),
        registry_wf(after_calls(names, calls.take(j))),
        after_calls(names, calls.take(j)).len() <= after_calls(names, calls).len(),
        after_calls(names, calls).take(after_calls(names, calls.take(j)).len() as int)
            == after_calls(names, calls.take(j)),
    decreases calls.len(),
{
    if j == calls.len() {
        assert(calls.take(j) =~= calls);
        if calls.len() > 0 {
            lemma_after_calls(names, calls.drop_last(), 0);
        }
    } else {
        let shorter = calls.drop_last();
        assert(shorter.take(j) =~= calls.take(j));
        lemma_after_calls(names, shorter, j);
    }
}

/// What a call that succeeds leaves behind: its fingerprint stands at the
/// index it returned, in the registry after the call and in every later one.
proof fn lemma_result_stays(names: Seq<Seq<char>>, calls: Seq<Seq<char>>, j: int, k: int)
    requires
        registry_wf(names),
        0 <= j < k <= calls.len(),
        nth_result(names, calls, j) is Ok,
    ensures
        registry_wf(after_calls(names, calls.take(k))),
        nth_result(names, calls, j)->Ok_0 < after_calls(names, calls.take(k)).len(),
        after_calls(names, calls.take(k))[nth_result(names, calls, j)->Ok_0 as int] == calls[j],
{
    let upto = calls.take(k);
    assert(upto.take(j + 1) =~= calls.take(j + 1));
    assert(calls.take(j + 1).drop_last() =~= calls.take(j));
    lemma_after_calls(names, calls.take(j), 0);
    law_resolve_keeps_entries(after_calls(names, calls.take(j)), calls[j]);
    lemma_after_calls(names, upto, j + 1);
}

/// The same fingerprint always yields the same index: once a call has
/// returned an index, every later call with that fingerprint returns it
/// again, whatever was resolved in between.
pub proof fn law_same_fingerprint_same_index(
    names: Seq<Seq<char>>,
    calls: Seq<Seq<char>>,
    j: int,
    k: int,
)
    requires
        registry_wf(names),
        0 <= j < k < calls.len(),
        calls[j] == calls[k],
        nth_result(names, calls, j) is Ok,
    ensures
        nth_result(names, calls, k) == nth_result(names, calls, j),
{
    lemma_result_stays(names, calls, j, k);
}

/// Distinct fingerprints yield distinct indices: two calls that both
/// succeed return the same index only for the same fingerprint.
pub proof fn law_distinct_fingerprints_distinct_indices(
    names: Seq<Seq<char>>,
    calls: Seq<Seq<char>>,
    j: int,
    k: int,
)
    requires
        registry_wf(names),
        0 <= j < k < calls.len(),
        calls[j] != calls[k],
        nth_result(names, calls, j) is Ok,
        nth_result(names, calls, k) is Ok,
    ensures
        nth_result(names, calls, j)->Ok_0 != nth_result(names, calls, k)->Ok_0,
{
    lemma_result_stays(names, calls, j, k + 1);
    lemma_result_stays(names, calls, k, k + 1);
}

/// Index 0 belongs to the first fingerprint ever seen: the first call on an
/// empty registry returns 0, and so does every later call with that
/// fingerprint.
pub proof fn law_first_fingerprint_is_primary(calls: Seq<Seq<char>>, k: int)
    requires
        0 <= k < calls.len(),
        calls[k] == calls[0],
    ensures
        nth_result(Seq::empty(), calls, 0) == Ok::<usize, BpmError>(0),
        nth_result(Seq::empty(), calls, k) == Ok::<usize, BpmError>(0),
{
    if k > 0 {
        law_same_fingerprint_same_index(Seq::empty(), calls, 0, k);
    }
}

/// What a registry that started empty holds after `calls`: only
/// fingerprints that were called, and all of them while it is not full.
proof fn lemma_registry_holds_what_was_seen(calls: Seq<Seq<char>>)
    ensures
        registry_wf(after_calls(Seq::empty(), calls)),
        after_calls(Seq::empty(), calls).to_set().subset_of(calls.to_set()),
        after_calls(Seq::empty(), calls).len() < MAX_TRACKS ==> after_calls(
            Seq::empty(),
            calls,
        ).to_set() == calls.to_set(),
    decreases calls.len(),
{
    if calls.len() > 0 {
        let shorter = calls.drop_last();
        let before = after_calls(Seq::empty(), shorter);
        let reg = after_calls(Seq::empty(), calls);
        lemma_registry_holds_what_was_seen(shorter);
        law_resolve_keeps_entries(before, calls.last());
        assert forall|x: Seq<char>| reg.contains(x) implies calls.contains(x) by {
            let i = reg.index_of(x);
            if i < before.len() {
                assert(before.contains(reg[i]));
                assert(shorter.to_set().contains(x));
                let j = shorter.index_of(x);
                assert(calls[j] == x);
            } else {
                assert(calls[calls.len() - 1] == x);
            }
        }
        if reg.len() < MAX_TRACKS {
            assert forall|x: Seq<char>| calls.contains(x) implies reg.contains(x) by {
                let j = calls.index_of(x);
                if j < shorter.len() {
                    assert(shorter[j] == x);
                    assert(before.to_set().contains(x));
                    let i = before.index_of(x);
                    assert(reg.take(before.len() as int)[i] == x);
                } else {
                    let i = resolve(before, calls.last()).1->Ok_0 as int;
                    assert(reg[i] == x);
                }
            }
            assert(reg.to_set() =~= calls.to_set());
        }
    }
}

/// The registry holds [`MAX_TRACKS`] fingerprints and no more. A call that
/// brings a fingerprint not seen before gets as its index the number of
/// distinct fingerprints seen before it, as long as that number is below
/// [`MAX_TRACKS`]; from then on it is refused with `CapacityExceeded`.
pub proof fn law_capacity(calls: Seq<Seq<char>>, k: int)
    requires
        0 <= k < calls.len(),
        !calls.take(k).contains(calls[k]),
    ensures
        calls.take(k).to_set().finite(),
        calls.take(k).to_set().len() < MAX_TRACKS ==> nth_result(Seq::empty(), calls, k) == Ok::<
            usize,
            BpmError,
        >(calls.take(k).to_set().len() as usize),
        calls.take(k).to_set().len() >= MAX_TRACKS ==> nth_result(Seq::empty(), calls, k) == Err::<
            usize,
            BpmError,
        >(BpmError::CapacityExceeded),
{
    let seen = calls.take(k);
    let reg = after_calls(Seq::empty(), seen);
    lemma_registry_holds_what_was_seen(seen);
    reg.unique_seq_to_set();
    seq_to_set_is_finite(seen);
    lemma_len_subset(reg.to_set(), seen.to_set());
    if reg.contains(calls[k]) {
        assert(seen.to_set().contains(calls[k]));
    }
}

/// Of calls that each bring a new fingerprint to an empty registry, the
/// first [`MAX_TRACKS`] get the indices 0, 1, 2 and so on in turn, and every
/// one after them is refused with `CapacityExceeded`.
pub proof fn law_new_fingerprints_fill_in_order(calls: Seq<Seq<char>>, k: int)
    requires
        calls.no_duplicates(),
        0 <= k < calls.len(),
    ensures
        k < MAX_TRACKS ==> nth_result(Seq::empty(), calls, k) == Ok::<usize, BpmError>(k as usize),
        k >= MAX_TRACKS ==> nth_result(Seq::empty(), calls, k) == Err::<usize, BpmError>(
            BpmError::CapacityExceeded,
        ),
{
    let seen = calls.take(k);
    assert(!seen.contains(calls[k])) by {
        if seen.contains(calls[k]) {
            let i = seen.index_of(calls[k]);
            assert(calls[i] == calls[k]);
        }
    }
    seen.unique_seq_to_set();
    law_capacity(calls, k);
}

} // verus!
