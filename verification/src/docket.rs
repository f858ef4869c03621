//! The docket sink trait, an in-memory recording sink, and the edge-trigger
//! state that remembers which `(slug, status)` pairs were already reported.

use vstd::prelude::*;

use crate::text::{chars_eq, chars_of};

verus! {

/// A sink that accepts docket reopen requests.
///
/// [`FakeDocketSink`] records calls in memory; the program's sink prints
/// what it would report.
pub trait DocketSink {
    /// The reopen requests `(slug, summary, evidence)` this sink has received
    /// so far, in order, each with whether the sink accepted it. A sink that
    /// keeps this default gives no record, and no verified `reopen` can be
    /// written for it.
    open spec fn log(&self) -> Seq<(Seq<char>, Seq<char>, Seq<char>, bool)> {
        Seq::empty()
    }

    /// Reopen (or create) a docket entry under `slug`. An error describes why
    /// the sink could not process the request; callers fail open on it.
    fn reopen(&mut self, slug: &str, summary: &str, evidence: &str) -> (r: Result<(), String>)
        ensures
            final(self).log() == old(self).log().push((slug@, summary@, evidence@, r is Ok)),
    ;
}

/// The view of a recorded call: `(slug, summary, evidence)`.
pub open spec fn call_view(c: (String, String, String)) -> (Seq<char>, Seq<char>, Seq<char>) {
    (c.0@, c.1@, c.2@)
}

/// A `DocketSink` that records calls for use in tests.
#[derive(Debug, Default)]
pub struct FakeDocketSink {
    /// All recorded `reopen` calls: `(slug, summary, evidence)`.
    pub calls: Vec<(String, String, String)>,
}

impl FakeDocketSink {
    /// Create a new empty `FakeDocketSink`.
    pub fn new() -> (r: Self)
        ensures
            r.calls@.len() == 0,
            r.log() == Seq::<(Seq<char>, Seq<char>, Seq<char>, bool)>::empty(),
    {
        let r = FakeDocketSink { calls: Vec::new() };
        assert(r.log() =~= Seq::<(Seq<char>, Seq<char>, Seq<char>, bool)>::empty());
        r
    }

    /// Return all recorded calls as a snapshot.
    pub fn recorded_calls(&self) -> (r: Vec<(String, String, String)>)
        ensures
            r@ == self.calls@,
    {
        let n = self.calls.len();
        let mut r: Vec<(String, String, String)> = Vec::new();
        for i in 0..n
            invariant
                n == self.calls@.len(),
                r@ == self.calls@.subrange(0, i as int),
        {
            let c = &self.calls[i];
            r.push((c.0.clone(), c.1.clone(), c.2.clone()));
            assert(r@ =~= self.calls@.subrange(0, i + 1));
        }
        assert(self.calls@.subrange(0, n as int) =~= self.calls@);
        r
    }
}

impl DocketSink for FakeDocketSink {
    /// Every recorded call, each accepted.
    open spec fn log(&self) -> Seq<(Seq<char>, Seq<char>, Seq<char>, bool)> {
        self.calls@.map_values(|c: (String, String, String)| (c.0@, c.1@, c.2@, true))
    }

    fn reopen(&mut self, slug: &str, summary: &str, evidence: &str) -> (r: Result<(), String>)
        ensures
            r is Ok,
            final(self).calls@.map_values(|c: (String, String, String)| call_view(c)) == old(
                self,
            ).calls@.map_values(|c: (String, String, String)| call_view(c)).push(
                (slug@, summary@, evidence@),
            ),
    {
        let ghost before = self.calls@;
        self.calls.push((slug.to_owned(), summary.to_owned(), evidence.to_owned()));
        assert(self.calls@.map_values(|c: (String, String, String)| call_view(c)) =~= before.map_values(
            |c: (String, String, String)| call_view(c),
        ).push((slug@, summary@, evidence@)));
        Ok(())
    }
}

/// The calls `cs` made, in order, on a `FakeDocketSink` fresh from `new`
/// are each accepted (so its log is `cs` with every call accepted), and its
/// record is then exactly `cs`, in call order.
pub proof fn lemma_fake_sink_replays(s: FakeDocketSink, cs: Seq<(Seq<char>, Seq<char>, Seq<char>)>)
    requires
        s.log() == cs.map_values(|c: (Seq<char>, Seq<char>, Seq<char>)| (c.0, c.1, c.2, true)),
    ensures
        s.calls@.map_values(|c: (String, String, String)| call_view(c)) == cs,
{
    let views = s.calls@.map_values(|c: (String, String, String)| call_view(c));
    assert(s.log().len() == s.calls@.len());
    assert forall|j: int| 0 <= j < cs.len() implies #[trigger] views[j] == cs[j] by {
        assert(s.log()[j] == (cs[j].0, cs[j].1, cs[j].2, true));
    }
    assert(views =~= cs);
}

/// The record a `FakeDocketSink` keeps over several calls: when its log grew
/// by `cs`, it accepted each of those calls and recorded them, in order,
/// after the calls it held before, which stay as they were.
pub proof fn lemma_fake_sink_records(
    before: FakeDocketSink,
    after: FakeDocketSink,
    cs: Seq<(Seq<char>, Seq<char>, Seq<char>, bool)>,
)
    requires
        after.log() == before.log() + cs,
    ensures
        after.calls@.len() == before.calls@.len() + cs.len(),
        forall|j: int| 0 <= j < cs.len() ==> #[trigger] cs[j].3,
        forall|j: int|
            #![trigger cs[j]]
            0 <= j < cs.len() ==> call_view(after.calls@[before.calls@.len() + j]) == (
                cs[j].0,
                cs[j].1,
                cs[j].2,
            ),
        forall|j: int|
            0 <= j < before.calls@.len() ==> call_view(#[trigger] after.calls@[j]) == call_view(
                before.calls@[j],
            ),
{
    let b = before.calls@.len();
    assert(after.log().len() == after.calls@.len());
    assert forall|j: int| 0 <= j < cs.len() implies #[trigger] cs[j].3 by {
        assert(after.log()[b + j] == cs[j]);
    }
    assert forall|j: int|
        #![trigger cs[j]]
        0 <= j < cs.len() implies call_view(after.calls@[b + j]) == (cs[j].0, cs[j].1, cs[j].2) by {
        assert(after.log()[b + j] == cs[j]);
    }
    assert forall|j: int|
        0 <= j < b implies call_view(#[trigger] after.calls@[j]) == call_view(before.calls@[j]) by {
        assert(after.log()[j] == before.log()[j]);
    }
}

// ── Edge-trigger state ───────────────────────────────────────────────────────

/// The value that the first pair with key `k`, at or after index `i`, holds.
pub open spec fn lookup(ps: Seq<(Seq<char>, Seq<char>)>, k: Seq<char>, i: int) -> Option<Seq<char>>
    decreases ps.len() - i,
{
    if i < 0 || i >= ps.len() {
        None
    } else if ps[i].0 == k {
        Some(ps[i].1)
    } else {
        lookup(ps, k, i + 1)
    }
}

/// The views of a list of string pairs.
pub open spec fn pair_views(v: Seq<(String, String)>) -> Seq<(Seq<char>, Seq<char>)> {
    v.map_values(|p: (String, String)| (p.0@, p.1@))
}

/// The map that a list of pairs denotes, the first pair of a key winning.
pub open spec fn pairs_map(ps: Seq<(Seq<char>, Seq<char>)>) -> Map<Seq<char>, Seq<char>> {
    Map::new(|k: Seq<char>| lookup(ps, k, 0) is Some, |k: Seq<char>| lookup(ps, k, 0).unwrap())
}

/// Appending a pair changes the lookup only of a key that had no pair.
pub proof fn lemma_lookup_push(ps: Seq<(Seq<char>, Seq<char>)>, x: (Seq<char>, Seq<char>), k: Seq<char>, i: int)
    requires
        0 <= i <= ps.len(),
    ensures
        lookup(ps.push(x), k, i) == match lookup(ps, k, i) {
            Some(v) => Some(v),
            None => if x.0 == k {
                Some(x.1)
            } else {
                None
            },
        },
    decreases ps.len() - i,
{
    if i < ps.len() {
        assert(ps.push(x)[i] == ps[i]);
        lemma_lookup_push(ps, x, k, i + 1);
    } else {
        assert(ps.push(x)[i] == x);
        assert(lookup(ps.push(x), k, i + 1) is None);
    }
}

/// No two pairs share a key.
pub open spec fn keys_unique(ps: Seq<(Seq<char>, Seq<char>)>) -> bool {
    forall|i: int, j: int| 0 <= i < j < ps.len() ==> #[trigger] ps[i].0 != #[trigger] ps[j].0
}

/// The keys of a list of pairs.
pub open spec fn keys_of(ps: Seq<(Seq<char>, Seq<char>)>) -> Seq<Seq<char>> {
    ps.map_values(|p: (Seq<char>, Seq<char>)| p.0)
}

/// A key has no pair exactly when looking it up finds nothing.
pub proof fn lemma_lookup_none(ps: Seq<(Seq<char>, Seq<char>)>, k: Seq<char>, i: int)
    requires
        0 <= i <= ps.len(),
    ensures
        lookup(ps, k, i) is None <==> forall|j: int| i <= j < ps.len() ==> #[trigger] ps[j].0 != k,
    decreases ps.len() - i,
{
    if i < ps.len() {
        lemma_lookup_none(ps, k, i + 1);
    }
}

/// The map a list of pairs denotes has the pairs' keys as its domain, so it
/// is finite; with no key twice it has one key per pair.
pub proof fn lemma_pairs_map_dom(ps: Seq<(Seq<char>, Seq<char>)>)
    ensures
        pairs_map(ps).dom() == keys_of(ps).to_set(),
        pairs_map(ps).dom().finite(),
        keys_unique(ps) ==> pairs_map(ps).dom().len() == ps.len(),
{
    let ks = keys_of(ps);
    assert forall|k: Seq<char>| pairs_map(ps).dom().contains(k) == ks.to_set().contains(k) by {
        lemma_lookup_none(ps, k, 0);
        if ks.contains(k) {
            let j = choose|j: int| 0 <= j < ks.len() && ks[j] == k;
            assert(ps[j].0 == k);
        }
        if lookup(ps, k, 0) is Some {
            let j = choose|j: int| 0 <= j < ps.len() && ps[j].0 == k;
            assert(ks[j] == k);
        }
    }
    assert(pairs_map(ps).dom() =~= ks.to_set());
    vstd::seq_lib::seq_to_set_is_finite(ks);
    if keys_unique(ps) {
        assert forall|a: int, b: int| 0 <= a < ks.len() && 0 <= b < ks.len() && a != b implies ks[a]
            != ks[b] by {
            if a < b {
                assert(ps[a].0 != ps[b].0);
            } else {
                assert(ps[b].0 != ps[a].0);
            }
        }
        assert(ks.no_duplicates());
        ks.unique_seq_to_set();
    }
}

/// Persisted state for edge-triggering: which `(slug, status)` pairs have
/// already been reported to the docket.
///
/// The map from slug to status is held as a list of pairs in which each
/// slug appears at most once (the type invariant), rather than as a hash
/// map keyed by strings: every lookup, insertion and removal below is then
/// proved against the map that the view gives.
#[derive(Debug)]
pub struct ReportedState {
    reported: Vec<(String, String)>,
}

impl View for ReportedState {
    type V = Map<Seq<char>, Seq<char>>;

    /// Map from slug to the last-reported status.
    closed spec fn view(&self) -> Map<Seq<char>, Seq<char>> {
        pairs_map(pair_views(self.reported@))
    }
}

impl ReportedState {
    /// Each slug is recorded at most once.
    #[verifier::type_invariant]
    closed spec fn slugs_unique(self) -> bool {
        keys_unique(pair_views(self.reported@))
    }

    /// The reported state holds finitely many slugs.
    pub proof fn lemma_finite(&self)
        ensures
            self@.dom().finite(),
    {
        lemma_pairs_map_dom(pair_views(self.reported@));
    }

    /// An empty state.
    pub fn new() -> (r: Self)
        ensures
            r@ == Map::<Seq<char>, Seq<char>>::empty(),
    {
        let r = ReportedState { reported: Vec::new() };
        assert(r@ =~= Map::<Seq<char>, Seq<char>>::empty());
        r
    }

    /// The status last reported for `slug`, if any.
    pub fn status_of(&self, slug: &str) -> (r: Option<String>)
        ensures
            match r {
                Some(s) => self@.contains_key(slug@) && self@[slug@] == s@,
                None => !self@.contains_key(slug@),
            },
    {
        let key = chars_of(slug);
        let ghost ps = pair_views(self.reported@);
        let n = self.reported.len();
        let mut i: usize = 0;
        while i < n
            invariant
                n == self.reported@.len(),
                ps == pair_views(self.reported@),
                key@ == slug@,
                lookup(ps, slug@, 0) == lookup(ps, slug@, i as int),
            decreases n - i,
        {
            let k = chars_of(self.reported[i].0.as_str());
            assert(ps[i as int].0 == k@);
            if chars_eq(&k, &key) {
                return Some(self.reported[i].1.clone());
            }
            i = i + 1;
        }
        None
    }

    /// Return `true` if this `(slug, status)` pair has already been reported.
    pub fn already_reported(&self, slug: &str, status: &str) -> (r: bool)
        ensures
            r == (self@.contains_key(slug@) && self@[slug@] == status@),
    {
        match self.status_of(slug) {
            Some(s) => {
                let a = chars_of(s.as_str());
                let b = chars_of(status);
                chars_eq(&a, &b)
            },
            None => false,
        }
    }

    /// Whether a status is recorded for `slug`.
    pub fn contains_key(&self, slug: &str) -> (r: bool)
        ensures
            r == self@.contains_key(slug@),
    {
        self.status_of(slug).is_some()
    }

    /// Clear a slug from the state (auto-close: verdict flipped back to Proven).
    pub fn clear(&mut self, slug: &str)
        ensures
            final(self)@ == old(self)@.remove(slug@),
    {
        proof {
            use_type_invariant(&*self);
        }
        let key = chars_of(slug);
        let ghost ps = pair_views(self.reported@);
        let n = self.reported.len();
        let mut out: Vec<(String, String)> = Vec::new();
        for i in 0..n
            invariant
                n == self.reported@.len(),
                ps == pair_views(self.reported@),
                key@ == slug@,
                keys_unique(ps),
                keys_unique(pair_views(out@)),
                lookup(pair_views(out@), slug@, 0) is None,
                forall|k: Seq<char>|
                    k != slug@ ==> #[trigger] lookup(pair_views(out@), k, 0) == lookup(
                        ps.take(i as int),
                        k,
                        0,
                    ),
        {
            let k = chars_of(self.reported[i].0.as_str());
            let ghost prev = pair_views(out@);
            let ghost x = ps[i as int];
            assert(ps.take(i + 1) =~= ps.take(i as int).push(x));
            assert forall|q: Seq<char>| #[trigger] lookup(ps.take(i + 1), q, 0) == match lookup(
                ps.take(i as int),
                q,
                0,
            ) {
                Some(v) => Some(v),
                None => if x.0 == q {
                    Some(x.1)
                } else {
                    None
                },
            } by {
                lemma_lookup_push(ps.take(i as int), x, q, 0);
            }
            if !chars_eq(&k, &key) {
                proof {
                    lemma_lookup_none(ps.take(i as int), x.0, 0);
                    assert forall|j: int| 0 <= j < i implies #[trigger] ps.take(i as int)[j].0 != x.0 by {
                        assert(ps.take(i as int)[j] == ps[j]);
                    }
                    lemma_lookup_none(prev, x.0, 0);
                }
                let p = (self.reported[i].0.clone(), self.reported[i].1.clone());
                out.push(p);
                assert(pair_views(out@) =~= prev.push(x));
                assert forall|q: Seq<char>| #[trigger] lookup(pair_views(out@), q, 0) == match lookup(
                    prev,
                    q,
                    0,
                ) {
                    Some(v) => Some(v),
                    None => if x.0 == q {
                        Some(x.1)
                    } else {
                        None
                    },
                } by {
                    lemma_lookup_push(prev, x, q, 0);
                }
            }
        }
        assert(ps.take(n as int) =~= ps);
        self.reported = out;
        assert(self@ =~= old(self)@.remove(slug@));
    }

    /// Record that `(slug, status)` has been reported.
    pub fn mark_reported(&mut self, slug: &str, status: &str)
        ensures
            final(self)@ == old(self)@.insert(slug@, status@),
    {
        self.clear(slug);
        let ghost mid = self@;
        let ghost prev = pair_views(self.reported@);
        assert(mid == pairs_map(prev));
        assert(!mid.contains_key(slug@));
        assert(lookup(prev, slug@, 0) is None);
        proof {
            use_type_invariant(&*self);
            lemma_lookup_none(prev, slug@, 0);
        }
        let mut pairs: Vec<(String, String)> = Vec::new();
        std::mem::swap(&mut pairs, &mut self.reported);
        pairs.push((slug.to_owned(), status.to_owned()));
        assert(pair_views(pairs@) =~= prev.push((slug@, status@)));
        self.reported = pairs;
        assert(pair_views(self.reported@) =~= prev.push((slug@, status@)));
        assert forall|q: Seq<char>| #[trigger] lookup(pair_views(self.reported@), q, 0) == match lookup(
            prev,
            q,
            0,
        ) {
            Some(v) => Some(v),
            None => if slug@ == q {
                Some(status@)
            } else {
                None
            },
        } by {
            lemma_lookup_push(prev, (slug@, status@), q, 0);
        }
        assert forall|q: Seq<char>| #[trigger] self@.contains_key(q) == old(self)@.insert(
            slug@,
            status@,
        ).contains_key(q) by {
            if q != slug@ {
                assert(mid.contains_key(q) == old(self)@.contains_key(q));
            }
        }
        assert forall|q: Seq<char>| #[trigger] self@.contains_key(q) implies self@[q] == old(
            self,
        )@.insert(slug@, status@)[q] by {
            if q != slug@ {
                assert(mid.contains_key(q));
                assert(mid[q] == old(self)@[q]);
                assert(self@[q] == lookup(pair_views(self.reported@), q, 0).unwrap());
                assert(mid[q] == lookup(prev, q, 0).unwrap());
            } else {
                assert(self@[q] == lookup(pair_views(self.reported@), q, 0).unwrap());
            }
        }
        assert(self@ =~= old(self)@.insert(slug@, status@));
    }

    /// The recorded `(slug, status)` pairs, one per slug.
    pub fn entries(&self) -> (r: Vec<(String, String)>)
        ensures
            pairs_map(pair_views(r@)) == self@,
            keys_unique(pair_views(r@)),
            r@.len() == self@.dom().len(),
    {
        proof {
            use_type_invariant(self);
            lemma_pairs_map_dom(pair_views(self.reported@));
        }
        let n = self.reported.len();
        let mut r: Vec<(String, String)> = Vec::new();
        for i in 0..n
            invariant
                n == self.reported@.len(),
                r@ == self.reported@.subrange(0, i as int),
        {
            r.push((self.reported[i].0.clone(), self.reported[i].1.clone()));
            assert(r@ =~= self.reported@.subrange(0, i + 1));
        }
        assert(self.reported@.subrange(0, n as int) =~= self.reported@);
        r
    }
}

/// Read after write on the reported state: after recording `(slug, status)`
/// the pair counts as already reported and other slugs are untouched; after
/// clearing a slug it is no longer recorded.
pub proof fn lemma_reported_state_read_after_write(
    m: Map<Seq<char>, Seq<char>>,
    slug: Seq<char>,
    status: Seq<char>,
    other: Seq<char>,
)
    requires
        other != slug,
    ensures
        m.insert(slug, status).contains_key(slug) && m.insert(slug, status)[slug] == status,
        m.insert(slug, status).contains_key(other) == m.contains_key(other),
        m.contains_key(other) ==> m.insert(slug, status)[other] == m[other],
        !m.remove(slug).contains_key(slug),
        m.remove(slug).contains_key(other) == m.contains_key(other),
{
}

} // verus!
