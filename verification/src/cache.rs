//! Readiness of hosts, remembered for the length of a run.
//!
//! A host's readiness is established once. The first unit that asks for an
//! address is told to probe; whoever asks while that probe is under way is
//! told to wait for it; whoever asks after it has been resolved gets its
//! result.

use crate::model::{ExecFailure, FailureView};
use crate::readiness::readiness_view;
use vstd::prelude::*;

verus! {

/// What the cache holds for an address.
pub enum EntryView {
    /// A probe has been handed out and has not come back.
    InFlight,
    /// The probe has come back with this result.
    Known(Result<(), FailureView>),
}

/// The answer to a unit that asks for the readiness of its host.
#[derive(Debug)]
pub enum Claim {
    /// Nobody has asked for this address before: the asker establishes the
    /// readiness and resolves it.
    Probe,
    /// Another asker is establishing it: wait for that result.
    Wait,
    /// It has been established, with this result.
    Known(Result<(), ExecFailure>),
}

/// Mathematical value of a [`Claim`].
pub enum ClaimView {
    Probe,
    Wait,
    Known(Result<(), FailureView>),
}

impl View for Claim {
    type V = ClaimView;

    open spec fn view(&self) -> ClaimView {
        match self {
            Claim::Probe => ClaimView::Probe,
            Claim::Wait => ClaimView::Wait,
            Claim::Known(r) => ClaimView::Known(readiness_view(*r)),
        }
    }
}

/// The answer that a cache in state `m` gives to a claim on `address`.
pub open spec fn claim_answer(m: Map<Seq<char>, EntryView>, address: Seq<char>) -> ClaimView {
    if !m.contains_key(address) {
        ClaimView::Probe
    } else {
        match m[address] {
            EntryView::InFlight => ClaimView::Wait,
            EntryView::Known(r) => ClaimView::Known(r),
        }
    }
}

/// The state of a cache in state `m` after a claim on `address`.
pub open spec fn after_claim(m: Map<Seq<char>, EntryView>, address: Seq<char>) -> Map<
    Seq<char>,
    EntryView,
> {
    if m.contains_key(address) {
        m
    } else {
        m.insert(address, EntryView::InFlight)
    }
}

/// Whether a cache in state `m` takes a result for `address`: it does while
/// a probe for the address is under way.
pub open spec fn accepts(m: Map<Seq<char>, EntryView>, address: Seq<char>) -> bool {
    m.contains_key(address) && m[address] is InFlight
}

/// The state of a cache in state `m` after `result` was offered for
/// `address`.
pub open spec fn after_resolve(
    m: Map<Seq<char>, EntryView>,
    address: Seq<char>,
    result: Result<(), FailureView>,
) -> Map<Seq<char>, EntryView> {
    if accepts(m, address) {
        m.insert(address, EntryView::Known(result))
    } else {
        m
    }
}

/// The entry that a list of entries holds for `address`: that of the first
/// one with this address.
pub open spec fn find_entry(
    entries: Seq<(String, Option<Result<(), ExecFailure>>)>,
    address: Seq<char>,
) -> Option<EntryView>
    decreases entries.len(),
{
    if entries.len() == 0 {
        None
    } else if entries[0].0@ == address {
        Some(
            match entries[0].1 {
                None => EntryView::InFlight,
                Some(r) => EntryView::Known(readiness_view(r)),
            },
        )
    } else {
        find_entry(entries.drop_first(), address)
    }
}

/// The readiness results of a run, by host address.
#[derive(Debug)]
pub struct ReadinessCache {
    entries: Vec<(String, Option<Result<(), ExecFailure>>)>,
}

impl View for ReadinessCache {
    type V = Map<Seq<char>, EntryView>;

    closed spec fn view(&self) -> Map<Seq<char>, EntryView> {
        Map::new(
            |a: Seq<char>| find_entry(self.entries@, a) is Some,
            |a: Seq<char>| find_entry(self.entries@, a)->0,
        )
    }
}

/// An entry that stands behind others is found unless one of those has its
/// address; an address that none of the entries has is not found.
proof fn lemma_find_entry(
    entries: Seq<(String, Option<Result<(), ExecFailure>>)>,
    address: Seq<char>,
    i: int,
)
    requires
        0 <= i <= entries.len(),
        forall|k: int| 0 <= k < i ==> (#[trigger] entries[k]).0@ != address,
    ensures
        find_entry(entries, address) == find_entry(entries.skip(i), address),
    decreases i,
{
    if i == 0 {
        assert(entries.skip(0) =~= entries);
    } else {
        assert(entries[0].0@ != address);
        let rest = entries.drop_first();
        assert forall|k: int| 0 <= k < i - 1 implies (#[trigger] rest[k]).0@ != address by {
            assert(rest[k] == entries[k + 1]);
        }
        lemma_find_entry(rest, address, i - 1);
        assert(rest.skip(i - 1) =~= entries.skip(i));
    }
}

/// Replacing the entry at `i`, the first for its address, changes what is
/// found for that address and for no other.
proof fn lemma_find_entry_update(
    entries: Seq<(String, Option<Result<(), ExecFailure>>)>,
    i: int,
    entry: (String, Option<Result<(), ExecFailure>>),
    address: Seq<char>,
)
    requires
        0 <= i < entries.len(),
        entries[i].0@ == entry.0@,
    ensures
        address != entry.0@ ==> find_entry(entries.update(i, entry), address) == find_entry(
            entries,
            address,
        ),
        address == entry.0@ && (forall|k: int| 0 <= k < i ==> (#[trigger] entries[k]).0@
            != address) ==> find_entry(entries.update(i, entry), address) == Some(
            match entry.1 {
                None => EntryView::InFlight,
                Some(r) => EntryView::Known(readiness_view(r)),
            },
        ),
    decreases i,
{
    let updated = entries.update(i, entry);
    if i == 0 {
        assert(updated.drop_first() =~= entries.drop_first());
    } else {
        assert(updated[0] == entries[0]);
        assert(updated.drop_first() =~= entries.drop_first().update(i - 1, entry));
        let rest = entries.drop_first();
        if address == entry.0@ && (forall|k: int|
            0 <= k < i ==> (#[trigger] entries[k]).0@ != address) {
            assert(entries[0].0@ != address);
            assert forall|k: int| 0 <= k < i - 1 implies (#[trigger] rest[k]).0@ != address by {
                assert(rest[k] == entries[k + 1]);
            }
        }
        lemma_find_entry_update(rest, i - 1, entry, address);
    }
}

/// Adding an entry at the end changes what is found for its address, if
/// nothing was found for it, and for no other.
proof fn lemma_find_entry_push(
    entries: Seq<(String, Option<Result<(), ExecFailure>>)>,
    entry: (String, Option<Result<(), ExecFailure>>),
    address: Seq<char>,
)
    ensures
        find_entry(entries, address) is Some ==> find_entry(entries.push(entry), address)
            == find_entry(entries, address),
        find_entry(entries, address) is None && address != entry.0@ ==> find_entry(
            entries.push(entry),
            address,
        ) is None,
        find_entry(entries, address) is None && address == entry.0@ ==> find_entry(
            entries.push(entry),
            address,
        ) == Some(
            match entry.1 {
                None => EntryView::InFlight,
                Some(r) => EntryView::Known(readiness_view(r)),
            },
        ),
    decreases entries.len(),
{
    let pushed = entries.push(entry);
    if entries.len() == 0 {
        assert(pushed[0] == entry);
        assert(pushed.drop_first().len() == 0);
        assert(find_entry(pushed.drop_first(), address) is None);
    } else {
        assert(pushed[0] == entries[0]);
        assert(pushed.drop_first() =~= entries.drop_first().push(entry));
        lemma_find_entry_push(entries.drop_first(), entry, address);
    }
}

impl ReadinessCache {
    /// A cache that knows of no host.
    pub fn new() -> (cache: ReadinessCache)
        ensures
            cache@ == Map::<Seq<char>, EntryView>::empty(),
    {
        let cache = ReadinessCache { entries: Vec::new() };
        assert(cache@ =~= Map::<Seq<char>, EntryView>::empty());
        cache
    }

    /// The position of the first entry for `address`, if there is one.
    fn position(&self, address: &str) -> (found: Option<usize>)
        ensures
            match found {
                Some(i) => i < self.entries@.len() && self.entries@[i as int].0@ == address@
                    && forall|k: int| 0 <= k < i ==> (#[trigger] self.entries@[k]).0@ != address@,
                None => forall|k: int|
                    0 <= k < self.entries@.len() ==> (#[trigger] self.entries@[k]).0@ != address@,
            },
    {
        let wanted = address.to_owned();
        let mut i: usize = 0;
        while i < self.entries.len()
            invariant
                i <= self.entries@.len(),
                wanted@ == address@,
                forall|k: int| 0 <= k < i ==> (#[trigger] self.entries@[k]).0@ != address@,
            decreases self.entries.len() - i,
        {
            if self.entries[i].0 == wanted {
                return Some(i);
            }
            i += 1;
        }
        None
    }

    /// Asks for the readiness of the host at `address`.
    ///
    /// The first claim on an address is answered `Probe` and marks the
    /// address as under way; a claim on an address that is under way is
    /// answered `Wait`; a claim on a resolved address is answered with the
    /// result. Only a first claim changes the cache.
    pub fn claim(&mut self, address: &str) -> (answer: Claim)
        ensures
            answer@ == claim_answer(old(self)@, address@),
            final(self)@ == after_claim(old(self)@, address@),
    {
        let found = self.position(address);
        match found {
            Some(i) => {
                proof {
                    lemma_find_entry(self.entries@, address@, i as int);
                    assert(self.entries@.skip(i as int)[0] == self.entries@[i as int]);
                }
                match &self.entries[i].1 {
                    None => Claim::Wait,
                    Some(r) => Claim::Known(
                        match r {
                            Ok(_) => Ok(()),
                            Err(f) => Err(f.clone()),
                        },
                    ),
                }
            },
            None => {
                proof {
                    lemma_find_entry(self.entries@, address@, self.entries@.len() as int);
                    assert(self.entries@.skip(self.entries@.len() as int) =~= Seq::empty());
                }
                let entry: (String, Option<Result<(), ExecFailure>>) = (address.to_owned(), None);
                self.entries.push(entry);
                proof {
                    assert forall|a: Seq<char>|
                        find_entry(self.entries@, a) == (if a == address@ {
                            Some(EntryView::InFlight)
                        } else {
                            find_entry(old(self).entries@, a)
                        }) by {
                        lemma_find_entry_push(old(self).entries@, entry, a);
                        if a != address@ && find_entry(old(self).entries@, a) is None {
                        }
                    }
                    assert(self@ =~= old(self)@.insert(address@, EntryView::InFlight));
                }
                Claim::Probe
            },
        }
    }

    /// The result on record for `address`: `Some` where its readiness has
    /// been established, `None` where nobody has claimed it or a probe is
    /// still under way. The cache is left as it is.
    pub fn lookup(&self, address: &str) -> (known: Option<Result<(), ExecFailure>>)
        ensures
            match claim_answer(self@, address@) {
                ClaimView::Known(r) => known matches Some(k) && readiness_view(k) == r,
                _ => known is None,
            },
    {
        let found = self.position(address);
        match found {
            Some(i) => {
                proof {
                    lemma_find_entry(self.entries@, address@, i as int);
                    assert(self.entries@.skip(i as int)[0] == self.entries@[i as int]);
                }
                match &self.entries[i].1 {
                    None => None,
                    Some(r) => Some(
                        match r {
                            Ok(_) => Ok(()),
                            Err(f) => Err(f.clone()),
                        },
                    ),
                }
            },
            None => {
                proof {
                    lemma_find_entry(self.entries@, address@, self.entries@.len() as int);
                    assert(self.entries@.skip(self.entries@.len() as int) =~= Seq::empty());
                }
                None
            },
        }
    }

    /// Puts `result` on record for `address` in one go: claims the address
    /// and resolves it. A result that is already on record stays.
    pub fn store(&mut self, address: &str, result: Result<(), ExecFailure>)
        ensures
            final(self)@ == after_resolve(
                after_claim(old(self)@, address@),
                address@,
                readiness_view(result),
            ),
    {
        let _ = self.claim(address);
        let _ = self.resolve(address, result);
    }

    /// Offers the result of the probe for `address`.
    ///
    /// The result is taken, and `true` returned, where a probe for the
    /// address is under way. Otherwise nothing changes: a result for an
    /// address that nobody claimed, or that is already resolved, is
    /// turned away.
    pub fn resolve(&mut self, address: &str, result: Result<(), ExecFailure>) -> (accepted: bool)
        ensures
            accepted == accepts(old(self)@, address@),
            final(self)@ == after_resolve(old(self)@, address@, readiness_view(result)),
    {
        let found = self.position(address);
        match found {
            Some(i) => {
                proof {
                    lemma_find_entry(self.entries@, address@, i as int);
                    assert(self.entries@.skip(i as int)[0] == self.entries@[i as int]);
                }
                if self.entries[i].1.is_none() {
                    let entry: (String, Option<Result<(), ExecFailure>>) = (
                        address.to_owned(),
                        Some(result),
                    );
                    self.entries.set(i, entry);
                    proof {
                        assert forall|a: Seq<char>|
                            find_entry(self.entries@, a) == (if a == address@ {
                                Some(EntryView::Known(readiness_view(result)))
                            } else {
                                find_entry(old(self).entries@, a)
                            }) by {
                            lemma_find_entry_update(old(self).entries@, i as int, entry, a);
                        }
                        assert(self@ =~= old(self)@.insert(
                            address@,
                            EntryView::Known(readiness_view(result)),
                        ));
                    }
                    true
                } else {
                    false
                }
            },
            None => {
                proof {
                    lemma_find_entry(self.entries@, address@, self.entries@.len() as int);
                    assert(self.entries@.skip(self.entries@.len() as int) =~= Seq::empty());
                }
                false
            },
        }
    }
}

/// One call on a cache, as a value: a claim on an address, or a result
/// offered for one.
pub enum CacheOp {
    Claim(Seq<char>),
    Resolve(Seq<char>, Result<(), FailureView>),
}

/// The state of a cache in state `m` after the call `op`.
pub open spec fn after_op(m: Map<Seq<char>, EntryView>, op: CacheOp) -> Map<Seq<char>, EntryView> {
    match op {
        CacheOp::Claim(a) => after_claim(m, a),
        CacheOp::Resolve(a, r) => after_resolve(m, a, r),
    }
}

/// How many of the claims among `ops`, made in this order on a cache that
/// starts in state `m`, are answered `Probe` for `address`.
pub open spec fn probes_handed_out(
    m: Map<Seq<char>, EntryView>,
    ops: Seq<CacheOp>,
    address: Seq<char>,
) -> nat
    decreases ops.len(),
{
    if ops.len() == 0 {
        0
    } else {
        let here: nat = if ops[0] == CacheOp::Claim(address) && claim_answer(m, address)
            is Probe {
            1
        } else {
            0
        };
        here + probes_handed_out(after_op(m, ops[0]), ops.drop_first(), address)
    }
}

/// Single flight: whatever is asked of a cache and in whatever order, at
/// most one claim per address is answered `Probe`, and none for an address
/// that the cache already holds. So the readiness of a host is established
/// at most once in a run, however many units ask for it.
pub proof fn lemma_single_flight(
    m: Map<Seq<char>, EntryView>,
    ops: Seq<CacheOp>,
    address: Seq<char>,
)
    ensures
        probes_handed_out(m, ops, address) <= 1,
        m.contains_key(address) ==> probes_handed_out(m, ops, address) == 0,
    decreases ops.len(),
{
    if ops.len() > 0 {
        lemma_single_flight(after_op(m, ops[0]), ops.drop_first(), address);
    }
}

} // verus!
