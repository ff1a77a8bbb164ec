//! Update of all feeds: the work order, the stand-in for the fetch, and the
//! bookkeeping of the units that are still out

use vstd::prelude::*;
use vstd::string::StringExecFns;
use crate::tiding::{Tiding, tidings_view};
use crate::urls::{keys_of, urls_map_view, urls_view, URLsMap};

verus! {

/// The fetch of one URL failed
#[derive(Debug, Clone, Copy, PartialEq, Eq, Structural)]
pub struct FetchError;

/// Messages
#[derive(Debug)]
pub enum Msg {
    /// Update all feeds: the session that asks, and the dictionary of
    /// (URL, references) pairs, one unit of work per pair
    UpdateAll(u64, URLsMap),
}

/// Handle of a running update; the update is cancelled by dropping it
#[derive(Debug)]
pub struct Model {
    /// Number of the session
    pub session: u64,
    /// URLs whose units have not come back yet
    pub pending: Vec<String>,
}

/// Where the URL stands among those that are out
pub open spec fn position_of(pending: Seq<Seq<char>>, url: Seq<char>) -> int {
    choose|i: int| 0 <= i < pending.len() && pending[i] == url
}

/// The URLs that are out once the unit of `url` has come back
pub open spec fn without(pending: Seq<Seq<char>>, url: Seq<char>) -> Seq<Seq<char>> {
    if pending.contains(url) {
        pending.remove(position_of(pending, url))
    } else {
        pending
    }
}

/// The URLs that are out and the number of units handled, after the unit of
/// `url` has come back: a unit that was not out counts for nothing
pub open spec fn after_unit(state: (Seq<Seq<char>>, nat), url: Seq<char>) -> (Seq<Seq<char>>, nat) {
    if state.0.contains(url) {
        (without(state.0, url), state.1 + 1)
    } else {
        state
    }
}

/// The same after the units of `completions` have come back in this order
pub open spec fn after_units(state: (Seq<Seq<char>>, nat), completions: Seq<Seq<char>>) -> (
    Seq<Seq<char>>,
    nat,
)
    decreases completions.len(),
{
    if completions.len() == 0 {
        state
    } else {
        after_unit(after_units(state, completions.drop_last()), completions.last())
    }
}

/// What a unit hands in: the tidings that were fetched, and nothing where the
/// fetch failed
pub fn outcome(fetched: Result<Vec<Tiding>, FetchError>) -> (res: Vec<Tiding>)
    ensures
        fetched is Ok ==> res == fetched->Ok_0,
        fetched is Err ==> res@.len() == 0,
{
    match fetched {
        Ok(tidings) => tidings,
        Err(_) => Vec::new(),
    }
}

/// Stand-in for the fetch of a feed: one tiding that names the URL. It never
/// fails.
pub fn fetch(url: &str) -> (res: Result<Vec<Tiding>, FetchError>)
    ensures
        res is Ok,
        tidings_view(res->Ok_0@) == seq!["URL: "@ + url@],
{
    let title = String::from_str("URL: ").concat(url);
    let mut tidings: Vec<Tiding> = Vec::new();
    tidings.push(Tiding { title });
    proof {
        assert(tidings_view(tidings@) =~= seq!["URL: "@ + url@]);
    }
    Ok(tidings)
}

impl Model {
    /// The handle is sound: no URL is out twice
    pub open spec fn wf(&self) -> bool {
        urls_view(self.pending@).no_duplicates()
    }

    /// Initialize the handle of a new session, with every URL of the
    /// dictionary out
    pub fn new(session: u64, urls_map: &URLsMap) -> (res: Self)
        ensures
            res.session == session,
            urls_view(res.pending@) == keys_of(urls_map_view(urls_map@)),
    {
        let mut pending: Vec<String> = Vec::new();
        let mut i: usize = 0;
        while i < urls_map.len()
            invariant
                i <= urls_map.len(),
                urls_view(pending@) == keys_of(urls_map_view(urls_map@)).take(i as int),
            decreases urls_map.len() - i,
        {
            let url = urls_map[i].0.clone();
            let ghost prior = pending@;
            pending.push(url);
            proof {
                let keys = keys_of(urls_map_view(urls_map@));
                assert(urls_view(pending@) =~= urls_view(prior).push(url@));
                assert(keys.take(i + 1) =~= keys.take(i as int).push(keys[i as int]));
            }
            i += 1;
        }
        proof {
            let keys = keys_of(urls_map_view(urls_map@));
            assert(keys.take(keys.len() as int) =~= keys);
        }
        Model { session, pending }
    }

    /// Take note that the unit of `url` has come back. The answer is `false`
    /// where no such unit was out.
    pub fn complete(&mut self, url: &String) -> (res: bool)
        requires
            old(self).wf(),
        ensures
            final(self).wf(),
            final(self).session == old(self).session,
            res == urls_view(old(self).pending@).contains(url@),
            urls_view(final(self).pending@) == without(urls_view(old(self).pending@), url@),
    {
        let ghost before = urls_view(self.pending@);
        let mut i: usize = 0;
        while i < self.pending.len()
            invariant
                i <= self.pending.len(),
                self.pending@ == old(self).pending@,
                self.session == old(self).session,
                before == urls_view(self.pending@),
                before.no_duplicates(),
                forall|j: int| 0 <= j < i ==> before[j] != url@,
            decreases self.pending.len() - i,
        {
            if self.pending[i] == *url {
                let _ = self.pending.remove(i);
                proof {
                    assert(before[i as int] == url@);
                    assert(before.contains(url@));
                    assert(position_of(before, url@) == i);
                    assert(urls_view(self.pending@) =~= before.remove(i as int));
                    assert(before.remove(i as int).no_duplicates()) by {
                        assert forall|a: int, b: int|
                            0 <= a < before.remove(i as int).len() && 0 <= b < before.remove(
                                i as int,
                            ).len() && a != b implies before.remove(i as int)[a] != before.remove(
                            i as int,
                        )[b] by {
                            let a2 = if a < i { a } else { a + 1 };
                            let b2 = if b < i { b } else { b + 1 };
                            assert(before.remove(i as int)[a] == before[a2]);
                            assert(before.remove(i as int)[b] == before[b2]);
                        }
                    }
                }
                return true;
            }
            i += 1;
        }
        proof {
            if before.contains(url@) {
                let k = choose|k: int| 0 <= k < before.len() && before[k] == url@;
                assert(before[k] != url@);
            }
        }
        false
    }
}

/// Taking a URL that is out from the URLs that are out leaves one fewer,
/// still none twice: the others, and not that one.
pub proof fn lemma_without(pending: Seq<Seq<char>>, url: Seq<char>)
    requires
        pending.no_duplicates(),
        pending.contains(url),
    ensures
        without(pending, url).len() == pending.len() - 1,
        without(pending, url).no_duplicates(),
        forall|other: Seq<char>| #[trigger]
            without(pending, url).contains(other) <==> pending.contains(other) && other != url,
{
    let at = position_of(pending, url);
    let rest = pending.remove(at);
    assert forall|a: int, b: int| 0 <= a < rest.len() && 0 <= b < rest.len() && a != b implies rest[a]
        != rest[b] by {
        let a2 = if a < at { a } else { a + 1 };
        let b2 = if b < at { b } else { b + 1 };
        assert(rest[a] == pending[a2] && rest[b] == pending[b2]);
    }
    assert forall|other: Seq<char>| #[trigger] rest.contains(other) <==> pending.contains(other)
        && other != url by {
        if rest.contains(other) {
            let a = choose|a: int| 0 <= a < rest.len() && rest[a] == other;
            let a2 = if a < at { a } else { a + 1 };
            assert(pending[a2] == other);
        }
        if pending.contains(other) && other != url {
            let a2 = choose|a2: int| 0 <= a2 < pending.len() && pending[a2] == other;
            let a = if a2 < at { a2 } else { a2 - 1 };
            assert(rest[a] == other);
        }
    }
}

/// After the first `k` of the units have come back, each once and each one
/// that was out, `k` more requests are handled and the URLs of the others
/// are out.
pub proof fn lemma_units_so_far(
    pending: Seq<Seq<char>>,
    handled: nat,
    completions: Seq<Seq<char>>,
    k: int,
)
    requires
        pending.no_duplicates(),
        completions.no_duplicates(),
        forall|url: Seq<char>| completions.contains(url) ==> pending.contains(url),
        0 <= k <= completions.len(),
    ensures
        after_units((pending, handled), completions.take(k)).1 == handled + k,
        after_units((pending, handled), completions.take(k)).0.len() == pending.len() - k,
        after_units((pending, handled), completions.take(k)).0.no_duplicates(),
        forall|url: Seq<char>| #[trigger]
            after_units((pending, handled), completions.take(k)).0.contains(url) <==> pending.contains(
                url,
            ) && !completions.take(k).contains(url),
    decreases k,
{
    let so_far = completions.take(k);
    if k > 0 {
        let earlier = completions.take(k - 1);
        let url = completions[k - 1];
        let state = after_units((pending, handled), earlier);
        lemma_units_so_far(pending, handled, completions, k - 1);
        assert(so_far.drop_last() =~= earlier);
        assert(so_far.last() == url);
        assert(completions.contains(url));
        if earlier.contains(url) {
            let e = choose|e: int| 0 <= e < earlier.len() && earlier[e] == url;
            assert(completions[e] == completions[k - 1]);
        }
        assert(state.0.contains(url));
        lemma_without(state.0, url);
        assert forall|other: Seq<char>| #[trigger]
            after_units((pending, handled), so_far).0.contains(other) <==> pending.contains(other)
                && !so_far.contains(other) by {
            if so_far.contains(other) && other != url {
                let e = choose|e: int| 0 <= e < so_far.len() && so_far[e] == other;
                assert(earlier[e] == other);
            }
            if earlier.contains(other) {
                let e = choose|e: int| 0 <= e < earlier.len() && earlier[e] == other;
                assert(so_far[e] == other);
            }
            assert(so_far[k - 1] == url);
        }
    } else {
        assert(so_far =~= Seq::empty());
    }
}

/// In whatever order the units of a session come back, each once: when the
/// last one is in, no URL is out and every request is handled, and this is
/// so at no moment before.
pub proof fn lemma_every_order_completes(
    pending: Seq<Seq<char>>,
    handled: nat,
    completions: Seq<Seq<char>>,
)
    requires
        pending.no_duplicates(),
        completions.no_duplicates(),
        forall|url: Seq<char>| completions.contains(url) <==> pending.contains(url),
    ensures
        after_units((pending, handled), completions).0.len() == 0,
        after_units((pending, handled), completions).1 == handled + pending.len(),
        forall|k: int|
            0 <= k < completions.len() ==> (#[trigger] after_units(
                (pending, handled),
                completions.take(k),
            )).0.len() > 0 && after_units((pending, handled), completions.take(k)).1 < handled
                + pending.len(),
{
    let all = completions.len() as int;
    lemma_units_so_far(pending, handled, completions, all);
    assert(completions.take(all) =~= completions);
    let end = after_units((pending, handled), completions);
    if end.0.len() > 0 {
        assert(end.0.contains(end.0[0]));
    }
    assert forall|k: int| 0 <= k < completions.len() implies (#[trigger] after_units(
        (pending, handled),
        completions.take(k),
    )).0.len() > 0 && after_units((pending, handled), completions.take(k)).1 < handled
        + pending.len() by {
        lemma_units_so_far(pending, handled, completions, k);
    }
}

} // verus!
