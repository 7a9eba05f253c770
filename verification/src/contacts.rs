//! The contact relation between entities and the contact-diffing engine:
//! which pairs of entities currently touch, and the Started/Stopped events
//! emitted exactly once when a pair's membership changes.

use vstd::prelude::*;

use crate::collisions::{collide, overlaps_at, BoxCollider, Position, TriggerArea};
use vstd::std_specs::cmp::PartialEqSpec;

verus! {

/// A stable identifier for a game object, assigned by a central registry.
pub type EntityId = u64;

/// Represents a contact between two entities: an unordered pair. Two
/// contacts are equal regardless of which entity is stored first.
#[derive(Clone, Copy, Debug)]
pub struct Contact(pub EntityId, pub EntityId);

/// The unordered pair canonicalized: the two entities sorted, smaller first.
/// Two contacts are one contact exactly when their keys agree, and any
/// hashing of a contact must hash this key, never the raw pair.
pub open spec fn key(c: Contact) -> (u64, u64) {
    if c.0 <= c.1 {
        (c.0, c.1)
    } else {
        (c.1, c.0)
    }
}

impl Contact {
    /// The unordered pair canonicalized: the two entities sorted, smaller
    /// first. This is the value to hash or to compare when the contact is
    /// used as a map key.
    pub fn canonical(&self) -> (k: (u64, u64))
        ensures
            k == key(*self),
    {
        if self.0 <= self.1 {
            (self.0, self.1)
        } else {
            (self.1, self.0)
        }
    }
}

impl PartialEq for Contact {
    /// Contacts compare equal as unordered pairs.
    fn eq(&self, other: &Contact) -> (r: bool) {
        (self.0 == other.0 && self.1 == other.1) || (self.0 == other.1 && self.1 == other.0)
    }
}

impl Eq for Contact {

}

impl vstd::std_specs::cmp::PartialEqSpecImpl for Contact {
    open spec fn obeys_eq_spec() -> bool {
        true
    }

    open spec fn eq_spec(&self, other: &Contact) -> bool {
        key(*self) == key(*other)
    }
}

/// Law: the contact relation is symmetric. `Contact(a, b)` and
/// `Contact(b, a)` compare equal, and their canonical keys — the values a
/// hash of a contact is computed from — are identical.
pub proof fn lemma_contact_symmetry(a: EntityId, b: EntityId)
    ensures
        Contact(a, b).eq_spec(&Contact(b, a)),
        key(Contact(a, b)) == key(Contact(b, a)),
{
}

/// Event appearing when the set of touching pairs changes.
#[derive(Clone, Copy, Debug, PartialEq)]
pub enum ContactEvent {
    /// A contact is happening that was not happening on the previous tick.
    Started(Contact),
    /// A contact from the previous tick is finished.
    Stopped(Contact),
}

/// The contact an event speaks of.
pub open spec fn event_contact(e: ContactEvent) -> Contact {
    match e {
        ContactEvent::Started(c) => c,
        ContactEvent::Stopped(c) => c,
    }
}

/// The canonical key of the pair an event speaks of.
pub open spec fn event_key(e: ContactEvent) -> (u64, u64) {
    key(event_contact(e))
}

/// Whether `events` holds a `Started` event for the pair `k`.
pub open spec fn has_started(events: Seq<ContactEvent>, k: (u64, u64)) -> bool {
    exists|i: int| 0 <= i < events.len() && (#[trigger] events[i]) is Started && event_key(events[i]) == k
}

/// Whether `events` holds a `Stopped` event for the pair `k`.
pub open spec fn has_stopped(events: Seq<ContactEvent>, k: (u64, u64)) -> bool {
    exists|i: int| 0 <= i < events.len() && (#[trigger] events[i]) is Stopped && event_key(events[i]) == k
}

/// A persisted contact record: the contact and the handle of the backing
/// record, kept so the record can be disposed of when the contact stops.
#[derive(Clone, Copy, Debug, PartialEq)]
pub struct ContactRecord {
    /// The contact this record persists.
    pub contact: Contact,
    /// Handle of the backing record, used to dispose of it.
    pub handle: EntityId,
}

/// Whether some record in `s` persists the pair `k`.
pub open spec fn store_has_key(s: Seq<ContactRecord>, k: (u64, u64)) -> bool {
    exists|i: int| 0 <= i < s.len() && key((#[trigger] s[i]).contact) == k
}

/// The persisted set of contact records of one pairing domain. Distinct
/// domains (debug-view contacts, gameplay trigger contacts) each keep a
/// store of their own and never share one.
#[derive(Clone, Debug)]
pub struct ContactStore {
    /// The persisted records, at most one per unordered pair.
    pub records: Vec<ContactRecord>,
    /// The next fresh handle for a new record; every held handle is below
    /// it.
    pub next_handle: EntityId,
}

impl ContactStore {
    /// Well-formedness: at most one record per unordered pair, no contact of
    /// an entity with itself, and handles distinct and below `next_handle`.
    pub open spec fn wf(self) -> bool {
        &&& forall|i: int, j: int|
            0 <= i < j < self.records@.len() ==> key((#[trigger] self.records@[i]).contact) != key(
                (#[trigger] self.records@[j]).contact,
            )
        &&& forall|i: int|
            0 <= i < self.records@.len() ==> (#[trigger] self.records@[i]).contact.0
                != self.records@[i].contact.1
        &&& forall|i: int|
            0 <= i < self.records@.len() ==> (#[trigger] self.records@[i]).handle
                < self.next_handle
        &&& forall|i: int, j: int|
            0 <= i < j < self.records@.len() ==> (#[trigger] self.records@[i]).handle != (
            #[trigger] self.records@[j]).handle
    }

    /// Creates an empty store.
    pub fn new() -> (s: ContactStore)
        ensures
            s.wf(),
            s.records@.len() == 0,
            s.next_handle == 0,
    {
        ContactStore { records: Vec::new(), next_handle: 0 }
    }
}

/// Searches `records` for the record persisting the same unordered pair as
/// `c`.
fn find_record(records: &Vec<ContactRecord>, c: &Contact) -> (r: Option<usize>)
    ensures
        match r {
            Some(p) => 0 <= p < records@.len() && key(records@[p as int].contact) == key(*c),
            None => !store_has_key(records@, key(*c)),
        },
{
    let n = records.len();
    let ck = c.canonical();
    let mut i: usize = 0;
    while i < n
        invariant
            n == records@.len(),
            0 <= i <= n,
            ck == key(*c),
            forall|t: int| 0 <= t < i ==> key((#[trigger] records@[t]).contact) != key(*c),
        decreases n - i,
    {
        let rk = records[i].contact.canonical();
        if rk.0 == ck.0 && rk.1 == ck.1 {
            return Some(i);
        }
        i += 1;
    }
    None
}

/// Whether some contact in `s` is the same unordered pair as key `k`.
pub open spec fn vec_has_key(s: Seq<Contact>, k: (u64, u64)) -> bool {
    exists|i: int| 0 <= i < s.len() && key(#[trigger] s[i]) == k
}

/// Searches a freshly computed contact list for the unordered pair of `c`.
fn contains_key(contacts: &Vec<Contact>, c: &Contact) -> (r: bool)
    ensures
        r == vec_has_key(contacts@, key(*c)),
{
    let n = contacts.len();
    let ck = c.canonical();
    let mut i: usize = 0;
    while i < n
        invariant
            n == contacts@.len(),
            0 <= i <= n,
            ck == key(*c),
            forall|t: int| 0 <= t < i ==> key(#[trigger] contacts@[t]) != key(*c),
        decreases n - i,
    {
        let rk = contacts[i].canonical();
        if rk.0 == ck.0 && rk.1 == ck.1 {
            return true;
        }
        i += 1;
    }
    false
}

/// One row of the moving-colliders query: an entity bearing a position, a
/// box collider and a movement.
#[derive(Clone, Copy, Debug, PartialEq, Eq, Structural)]
pub struct ColliderRow {
    /// The moving entity.
    pub entity: EntityId,
    /// Where it stands this tick.
    pub position: Position,
    /// Its box collider.
    pub collider: BoxCollider,
}

/// One row of the trigger-areas query: an entity bearing a position and a
/// trigger area.
#[derive(Clone, Copy, Debug, PartialEq, Eq, Structural)]
pub struct TriggerRow {
    /// The entity owning the area.
    pub entity: EntityId,
    /// Where it stands this tick.
    pub position: Position,
    /// Its trigger area.
    pub area: TriggerArea,
}

/// Whether the collider of `m` overlaps the trigger area of `t`. Trigger
/// detection compares the entities' raw positions; collider offsets play no
/// part here.
pub open spec fn pair_overlaps(m: ColliderRow, t: TriggerRow) -> bool {
    overlaps_at(
        m.position.x as int,
        m.position.y as int,
        m.collider.width as int,
        m.collider.height as int,
        t.position.x as int,
        t.position.y as int,
        t.area.width as int,
        t.area.height as int,
    )
}

/// Whether the mover at `i` and the area at `j` are two distinct overlapping
/// entities whose unordered pair is `k`.
pub open spec fn pair_qualifies(
    movers: Seq<ColliderRow>,
    areas: Seq<TriggerRow>,
    i: int,
    j: int,
    k: (u64, u64),
) -> bool {
    &&& movers[i].entity != areas[j].entity
    &&& key(Contact(movers[i].entity, areas[j].entity)) == k
    &&& pair_overlaps(movers[i], areas[j])
}

/// Whether the pair `k` overlaps this tick: some mover and some distinct
/// area-bearing entity with that unordered pair touch.
pub open spec fn next_has_key(
    movers: Seq<ColliderRow>,
    areas: Seq<TriggerRow>,
    k: (u64, u64),
) -> bool {
    exists|i: int, j: int|
        0 <= i < movers.len() && 0 <= j < areas.len() && #[trigger] pair_qualifies(
            movers,
            areas,
            i,
            j,
            k,
        )
}

/// Whether the contact `c`, as oriented — mover first, area second — comes
/// from a distinct overlapping (mover, area) pair this tick.
pub open spec fn next_has_contact(
    movers: Seq<ColliderRow>,
    areas: Seq<TriggerRow>,
    c: Contact,
) -> bool {
    exists|i: int, j: int|
        0 <= i < movers.len() && 0 <= j < areas.len() && (#[trigger] movers[i]).entity == c.0 && (
        #[trigger] areas[j]).entity == c.1 && c.0 != c.1 && pair_overlaps(movers[i], areas[j])
}

/// `next_has_key` restricted to the pairs visited so far: every mover before
/// row `mi` against every area, and mover `mi` against the areas before `mj`.
pub open spec fn next_has_key_upto(
    movers: Seq<ColliderRow>,
    areas: Seq<TriggerRow>,
    k: (u64, u64),
    mi: int,
    mj: int,
) -> bool {
    exists|i: int, j: int|
        ((0 <= i < mi && 0 <= j < areas.len()) || (i == mi && 0 <= j < mj)) && #[trigger] pair_qualifies(
            movers,
            areas,
            i,
            j,
            k,
        )
}

/// Visiting one more pair extends the visited overlap relation by exactly
/// that pair.
proof fn lemma_upto_step(
    movers: Seq<ColliderRow>,
    areas: Seq<TriggerRow>,
    k: (u64, u64),
    mi: int,
    mj: int,
)
    requires
        0 <= mi < movers.len(),
        0 <= mj < areas.len(),
    ensures
        next_has_key_upto(movers, areas, k, mi, mj + 1) <==> (next_has_key_upto(
            movers,
            areas,
            k,
            mi,
            mj,
        ) || pair_qualifies(movers, areas, mi, mj, k)),
{
    if next_has_key_upto(movers, areas, k, mi, mj + 1) {
        let (i, j) = choose|i: int, j: int|
            ((0 <= i < mi && 0 <= j < areas.len()) || (i == mi && 0 <= j < mj + 1))
                && #[trigger] pair_qualifies(movers, areas, i, j, k);
        if i == mi && j == mj {
            assert(pair_qualifies(movers, areas, mi, mj, k));
        } else {
            assert(next_has_key_upto(movers, areas, k, mi, mj));
        }
    }
    if pair_qualifies(movers, areas, mi, mj, k) {
        assert(next_has_key_upto(movers, areas, k, mi, mj + 1));
    }
}

/// Finishing a mover's row leaves the same visited overlap relation as
/// standing at the start of the next row.
proof fn lemma_upto_row(movers: Seq<ColliderRow>, areas: Seq<TriggerRow>, k: (u64, u64), mi: int)
    requires
        0 <= mi < movers.len(),
    ensures
        next_has_key_upto(movers, areas, k, mi, areas.len() as int) <==> next_has_key_upto(
            movers,
            areas,
            k,
            mi + 1,
            0,
        ),
{
}

/// Having visited every row is having visited every pair.
proof fn lemma_upto_full(movers: Seq<ColliderRow>, areas: Seq<TriggerRow>, k: (u64, u64))
    ensures
        next_has_key_upto(movers, areas, k, movers.len() as int, 0) <==> next_has_key(
            movers,
            areas,
            k,
        ),
{
}

/// Computes the contacts of the current tick: every (mover, area) pair of
/// two distinct entities whose boxes overlap, one contact per unordered
/// pair, stored with the mover first.
fn compute_next_contacts(movers: &Vec<ColliderRow>, areas: &Vec<TriggerRow>) -> (next: Vec<
    Contact,
>)
    ensures
        forall|k: (u64, u64)| vec_has_key(next@, k) <==> next_has_key(movers@, areas@, k),
        forall|t1: int, t2: int|
            0 <= t1 < t2 < next@.len() ==> key(next@[t1]) != key(next@[t2]),
        forall|t: int| 0 <= t < next@.len() ==> next_has_contact(movers@, areas@, #[trigger] next@[t]),
        next@.len() <= movers@.len() * areas@.len(),
{
    let m = movers.len();
    let a = areas.len();
    let mut next: Vec<Contact> = Vec::new();
    let mut i: usize = 0;
    while i < m
        invariant
            m == movers@.len(),
            a == areas@.len(),
            0 <= i <= m,
            forall|k: (u64, u64)|
                vec_has_key(next@, k) <==> next_has_key_upto(movers@, areas@, k, i as int, 0),
            forall|t1: int, t2: int|
                0 <= t1 < t2 < next@.len() ==> key(next@[t1]) != key(next@[t2]),
            forall|t: int|
                0 <= t < next@.len() ==> next_has_contact(movers@, areas@, #[trigger] next@[t]),
            next@.len() <= i * a,
        decreases m - i,
    {
        let mover = movers[i];
        let mut j: usize = 0;
        while j < a
            invariant
                m == movers@.len(),
                a == areas@.len(),
                0 <= i < m,
                0 <= j <= a,
                mover == movers@[i as int],
                forall|k: (u64, u64)|
                    vec_has_key(next@, k) <==> next_has_key_upto(
                        movers@,
                        areas@,
                        k,
                        i as int,
                        j as int,
                    ),
                forall|t1: int, t2: int|
                    0 <= t1 < t2 < next@.len() ==> key(next@[t1]) != key(next@[t2]),
                forall|t: int|
                    0 <= t < next@.len() ==> next_has_contact(movers@, areas@, #[trigger] next@[t]),
                next@.len() <= i * a + j,
            decreases a - j,
        {
            let t = areas[j];
            let ghost next_before = next@;
            let touching = mover.entity != t.entity && collide(
                mover.position,
                mover.collider.width,
                mover.collider.height,
                t.position,
                t.area.width,
                t.area.height,
            );
            if touching {
                let c = Contact(mover.entity, t.entity);
                let already = contains_key(&next, &c);
                if !already {
                    next.push(c);
                    proof {
                        assert(next@[next@.len() - 1] == c);
                        assert(next_has_contact(movers@, areas@, c)) by {
                            assert(movers@[i as int].entity == c.0 && areas@[j as int].entity
                                == c.1 && c.0 != c.1 && pair_overlaps(
                                movers@[i as int],
                                areas@[j as int],
                            ));
                        }
                        assert forall|k: (u64, u64)| vec_has_key(next@, k) <==> (vec_has_key(
                            next_before,
                            k,
                        ) || key(c) == k) by {
                            if vec_has_key(next@, k) {
                                let t2 = choose|t2: int|
                                    0 <= t2 < next@.len() && key(#[trigger] next@[t2]) == k;
                                if t2 < next_before.len() {
                                    assert(next_before[t2] == next@[t2]);
                                    assert(vec_has_key(next_before, k));
                                }
                            }
                            if vec_has_key(next_before, k) {
                                let t2 = choose|t2: int|
                                    0 <= t2 < next_before.len() && key(
                                        #[trigger] next_before[t2],
                                    ) == k;
                                assert(key(next@[t2]) == k);
                            }
                            if key(c) == k {
                                assert(key(next@[next@.len() - 1]) == k);
                            }
                        }
                        assert forall|k: (u64, u64)|
                            vec_has_key(next@, k) <==> next_has_key_upto(
                                movers@,
                                areas@,
                                k,
                                i as int,
                                j + 1,
                            ) by {
                            lemma_upto_step(movers@, areas@, k, i as int, j as int);
                            assert(c == Contact(movers@[i as int].entity, areas@[j as int].entity));
                            assert(pair_qualifies(movers@, areas@, i as int, j as int, key(c)));
                            assert(key(next@[next@.len() - 1]) == key(c));
                            assert(vec_has_key(next@, key(c)));
                            assert(vec_has_key(next@, k) <==> (vec_has_key(next_before, k) || key(
                                c,
                            ) == k));
                            if vec_has_key(next@, k) && !vec_has_key(next_before, k) {
                                assert(k == key(c));
                            }
                            if next_has_key_upto(movers@, areas@, k, i as int, j + 1) {
                                if pair_qualifies(movers@, areas@, i as int, j as int, k) {
                                    assert(k == key(c));
                                    assert(vec_has_key(next@, k));
                                }
                            }
                        }
                    }
                } else {
                    proof {
                        assert(vec_has_key(next@, key(c)));
                        assert forall|k: (u64, u64)|
                            vec_has_key(next@, k) <==> next_has_key_upto(
                                movers@,
                                areas@,
                                k,
                                i as int,
                                j + 1,
                            ) by {
                            lemma_upto_step(movers@, areas@, k, i as int, j as int);
                            assert(pair_qualifies(movers@, areas@, i as int, j as int, key(c)));
                        }
                    }
                }
            } else {
                proof {
                    assert forall|k: (u64, u64)|
                        vec_has_key(next@, k) <==> next_has_key_upto(
                            movers@,
                            areas@,
                            k,
                            i as int,
                            j + 1,
                        ) by {
                        lemma_upto_step(movers@, areas@, k, i as int, j as int);
                        assert(!pair_qualifies(movers@, areas@, i as int, j as int, k));
                    }
                }
            }
            j += 1;
        }
        proof {
            assert forall|k: (u64, u64)|
                vec_has_key(next@, k) <==> next_has_key_upto(
                    movers@,
                    areas@,
                    k,
                    i + 1,
                    0,
                ) by {
                lemma_upto_row(movers@, areas@, k, i as int);
            }
            assert(next@.len() <= (i + 1) * a) by (nonlinear_arith)
                requires
                    next@.len() <= i * a + a,
            ;
        }
        i += 1;
    }
    proof {
        assert forall|k: (u64, u64)|
            vec_has_key(next@, k) <==> next_has_key(movers@, areas@, k) by {
            lemma_upto_full(movers@, areas@, k);
        }
    }
    next
}

/// Appending one event extends the Started and Stopped relations by exactly
/// that event.
proof fn lemma_event_push(events: Seq<ContactEvent>, e: ContactEvent, k: (u64, u64))
    ensures
        has_started(events.push(e), k) <==> (has_started(events, k) || (e is Started && event_key(e)
            == k)),
        has_stopped(events.push(e), k) <==> (has_stopped(events, k) || (e is Stopped && event_key(e)
            == k)),
{
    let s2 = events.push(e);
    assert(s2[s2.len() - 1] == e);
    if has_started(events, k) {
        let i = choose|i: int|
            0 <= i < events.len() && (#[trigger] events[i]) is Started && event_key(events[i]) == k;
        assert(s2[i] == events[i]);
        assert(has_started(s2, k));
    }
    if has_started(s2, k) && !(e is Started && event_key(e) == k) {
        let i = choose|i: int|
            0 <= i < s2.len() && (#[trigger] s2[i]) is Started && event_key(s2[i]) == k;
        assert(i < events.len());
        assert(events[i] == s2[i]);
        assert(has_started(events, k));
    }
    if has_stopped(events, k) {
        let i = choose|i: int|
            0 <= i < events.len() && (#[trigger] events[i]) is Stopped && event_key(events[i]) == k;
        assert(s2[i] == events[i]);
        assert(has_stopped(s2, k));
    }
    if has_stopped(s2, k) && !(e is Stopped && event_key(e) == k) {
        let i = choose|i: int|
            0 <= i < s2.len() && (#[trigger] s2[i]) is Stopped && event_key(s2[i]) == k;
        assert(i < events.len());
        assert(events[i] == s2[i]);
        assert(has_stopped(events, k));
    }
}

/// The whole contract of one contact-diffing pass, relating the previous
/// records `prev`, the updated records `cur` and the emitted `events` to the
/// overlap relation of this tick.
pub open spec fn trigger_diff_spec(
    prev: Seq<ContactRecord>,
    cur: Seq<ContactRecord>,
    events: Seq<ContactEvent>,
    movers: Seq<ColliderRow>,
    areas: Seq<TriggerRow>,
) -> bool {
    // The persisted records after the pass are exactly the pairs overlapping
    // this tick.
    &&& forall|k: (u64, u64)| #[trigger]
        store_has_key(cur, k) <==> next_has_key(movers, areas, k)
    // A record whose pair still overlaps is carried over untouched: same
    // contact, same handle.
    &&& forall|p: int|
        0 <= p < prev.len() && next_has_key(movers, areas, key((#[trigger] prev[p]).contact))
            ==> cur.contains(prev[p])
    // A Started event fires exactly for the pairs overlapping now that were
    // not persisted before.
    &&& forall|k: (u64, u64)| #[trigger]
        has_started(events, k) <==> (next_has_key(movers, areas, k) && !store_has_key(prev, k))
    // A Stopped event fires exactly for the pairs persisted before that no
    // longer overlap.
    &&& forall|k: (u64, u64)| #[trigger]
        has_stopped(events, k) <==> (store_has_key(prev, k) && !next_has_key(movers, areas, k))
    // At most one event per unordered pair.
    &&& forall|i: int, j: int|
        0 <= i < j < events.len() ==> event_key(#[trigger] events[i]) != event_key(
            #[trigger] events[j],
        )
    // Never an event about an entity touching itself.
    &&& forall|i: int|
        0 <= i < events.len() ==> event_contact(#[trigger] events[i]).0 != event_contact(
            events[i],
        ).1
    // Every record either survives from the previous tick or persists an
    // overlapping (mover, area) pair of this tick, mover first.
    &&& forall|t: int|
        0 <= t < cur.len() ==> prev.contains(#[trigger] cur[t]) || next_has_contact(
            movers,
            areas,
            cur[t].contact,
        )
}

/// Compares the positions of the moving box colliders with the trigger
/// areas, diffs the result against the persisted contact records of the
/// previous tick, and returns the transition events: `Started` once for each
/// pair that begins to overlap, `Stopped` once for each pair that ceases to.
/// Pairs overlapping on both ticks keep their record untouched, so a steady
/// contact costs no churn.
pub fn trigger_area_system(
    store: &mut ContactStore,
    movers: &Vec<ColliderRow>,
    areas: &Vec<TriggerRow>,
) -> (events: Vec<ContactEvent>)
    requires
        old(store).wf(),
        old(store).next_handle + movers@.len() * areas@.len() <= u64::MAX,
    ensures
        final(store).wf(),
        trigger_diff_spec(
            old(store).records@,
            final(store).records@,
            events@,
            movers@,
            areas@,
        ),
        old(store).next_handle <= final(store).next_handle,
        forall|t: int|
            0 <= t < final(store).records@.len() ==> old(store).records@.contains(
                #[trigger] final(store).records@[t],
            ) || final(store).records@[t].handle >= old(store).next_handle,
{
    let ghost prev = store.records@;
    let ghost h0 = store.next_handle;

    let next = compute_next_contacts(movers, areas);
    let nlen = next.len();

    let mut events: Vec<ContactEvent> = Vec::new();
    let mut new_records: Vec<ContactRecord> = Vec::new();
    let mut handle: u64 = store.next_handle;
    let mut idx: usize = 0;

    while idx < nlen
        invariant
            store.records@ == prev,
            store.next_handle == h0,
            old(store).records@ == prev,
            old(store).next_handle == h0,
            old(store).wf(),
            nlen == next@.len(),
            h0 + nlen <= u64::MAX,
            forall|k: (u64, u64)| vec_has_key(next@, k) <==> next_has_key(movers@, areas@, k),
            forall|t1: int, t2: int|
                0 <= t1 < t2 < next@.len() ==> key(next@[t1]) != key(next@[t2]),
            forall|t: int|
                0 <= t < next@.len() ==> next_has_contact(movers@, areas@, #[trigger] next@[t]),
            0 <= idx <= nlen,
            new_records@.len() == idx,
            forall|t: int|
                0 <= t < idx ==> key((#[trigger] new_records@[t]).contact) == key(next@[t]),
            forall|t: int| 0 <= t < idx ==> (#[trigger] new_records@[t]).handle < handle,
            forall|t: int|
                0 <= t < idx ==> prev.contains(#[trigger] new_records@[t]) || (
                new_records@[t].handle >= h0 && new_records@[t].contact == next@[t]
                    && !store_has_key(prev, key(next@[t]))),
            forall|t1: int, t2: int|
                0 <= t1 < t2 < idx ==> (#[trigger] new_records@[t1]).handle != (
                #[trigger] new_records@[t2]).handle,
            h0 <= handle,
            handle as int <= h0 + idx,
            forall|k: (u64, u64)| #[trigger]
                has_started(events@, k) <==> (exists|t: int|
                    0 <= t < idx && key(#[trigger] next@[t]) == k && !store_has_key(prev, k)),
            forall|i: int| 0 <= i < events@.len() ==> (#[trigger] events@[i]) is Started,
            forall|i: int, j: int|
                0 <= i < j < events@.len() ==> event_key(#[trigger] events@[i]) != event_key(
                    #[trigger] events@[j],
                ),
            forall|i: int|
                0 <= i < events@.len() ==> event_contact(#[trigger] events@[i]).0 != event_contact(
                    events@[i],
                ).1,
        decreases nlen - idx,
    {
        let c = next[idx];
        let ghost events_before = events@;
        let ghost recs_before = new_records@;
        let found = find_record(&store.records, &c);
        match found {
            Some(p) => {
                let r = store.records[p];
                new_records.push(r);
                proof {
                    assert(new_records@[idx as int] == r);
                    assert(prev[p as int] == r);
                    assert(prev.contains(r));
                    assert(store_has_key(prev, key(c)));
                    // Handles stay pairwise distinct: an earlier fresh record
                    // sits at or above `h0`, an earlier carried-over record
                    // with the same handle would be the same previous record,
                    // whose key would collide with a distinct next contact.
                    assert forall|t: int| 0 <= t < idx implies (#[trigger] new_records@[t]).handle
                        != r.handle by {
                        if prev.contains(new_records@[t]) {
                            let q = choose|q: int|
                                0 <= q < prev.len() && prev[q] == new_records@[t];
                            if new_records@[t].handle == r.handle {
                                assert(prev[q].handle == prev[p as int].handle);
                                assert(q == p as int);
                                assert(key(next@[t]) == key(new_records@[t].contact));
                                assert(key(next@[t]) == key(next@[idx as int]));
                                assert(false);
                            }
                        } else {
                            assert(new_records@[t].handle >= h0);
                            assert(r.handle < h0);
                        }
                    }
                    // No Started event: the pair was already persisted.
                    assert forall|k: (u64, u64)| #[trigger]
                        has_started(events@, k) <==> (exists|t: int|
                            0 <= t < idx + 1 && key(#[trigger] next@[t]) == k && !store_has_key(
                                prev,
                                k,
                            )) by {
                        if exists|t: int|
                            0 <= t < idx + 1 && key(#[trigger] next@[t]) == k && !store_has_key(
                                prev,
                                k,
                            ) {
                            let t = choose|t: int|
                                0 <= t < idx + 1 && key(#[trigger] next@[t]) == k
                                    && !store_has_key(prev, k);
                            if t == idx {
                                assert(store_has_key(prev, key(c)));
                                assert(false);
                            }
                        }
                    }
                }
            },
            None => {
                events.push(ContactEvent::Started(c));
                new_records.push(ContactRecord { contact: c, handle });
                proof {
                    assert(new_records@[idx as int] == (ContactRecord { contact: c, handle }));
                    assert(events@ == events_before.push(ContactEvent::Started(c)));
                    assert(events@[events@.len() - 1] == ContactEvent::Started(c));
                    assert(next_has_contact(movers@, areas@, c));
                    assert(c.0 != c.1);
                    assert forall|k: (u64, u64)| #[trigger]
                        has_started(events@, k) <==> (exists|t: int|
                            0 <= t < idx + 1 && key(#[trigger] next@[t]) == k && !store_has_key(
                                prev,
                                k,
                            )) by {
                        lemma_event_push(events_before, ContactEvent::Started(c), k);
                        if has_started(events@, k) {
                            if has_started(events_before, k) {
                                let t = choose|t: int|
                                    0 <= t < idx && key(#[trigger] next@[t]) == k
                                        && !store_has_key(prev, k);
                                assert(0 <= t < idx + 1 && key(next@[t]) == k && !store_has_key(
                                    prev,
                                    k,
                                ));
                            } else {
                                assert(k == key(c));
                                assert(key(next@[idx as int]) == k);
                            }
                        }
                        if exists|t: int|
                            0 <= t < idx + 1 && key(#[trigger] next@[t]) == k && !store_has_key(
                                prev,
                                k,
                            ) {
                            let t = choose|t: int|
                                0 <= t < idx + 1 && key(#[trigger] next@[t]) == k
                                    && !store_has_key(prev, k);
                            if t == idx {
                                assert(event_key(events@[events@.len() - 1]) == key(c));
                                assert(has_started(events@, k));
                            } else {
                                assert(has_started(events_before, k));
                                assert(has_started(events@, k));
                            }
                        }
                    }
                    // The new event's pair differs from every earlier one:
                    // earlier Started keys come from earlier next contacts.
                    assert forall|i: int, j: int|
                        0 <= i < j < events@.len() implies event_key(#[trigger] events@[i])
                        != event_key(#[trigger] events@[j]) by {
                        if j == events@.len() - 1 {
                            assert(events_before[i] == events@[i]);
                            assert(events_before[i] is Started);
                            assert(has_started(events_before, event_key(events_before[i])));
                            let t = choose|t: int|
                                0 <= t < idx && key(#[trigger] next@[t]) == event_key(
                                    events_before[i],
                                ) && !store_has_key(prev, event_key(events_before[i]));
                            assert(key(next@[t]) != key(next@[idx as int]));
                            assert(event_key(events@[j]) == key(c));
                        } else {
                            assert(events_before[i] == events@[i]);
                            assert(events_before[j] == events@[j]);
                        }
                    }
                }
                handle = handle + 1;
            },
        }
        idx += 1;
    }
    let plen = store.records.len();
    let mut p: usize = 0;
    while p < plen
        invariant
            store.records@ == prev,
            store.next_handle == h0,
            old(store).records@ == prev,
            old(store).next_handle == h0,
            old(store).wf(),
            nlen == next@.len(),
            plen == prev.len(),
            0 <= p <= plen,
            forall|k: (u64, u64)| vec_has_key(next@, k) <==> next_has_key(movers@, areas@, k),
            forall|t1: int, t2: int|
                0 <= t1 < t2 < next@.len() ==> key(next@[t1]) != key(next@[t2]),
            forall|t: int|
                0 <= t < next@.len() ==> next_has_contact(movers@, areas@, #[trigger] next@[t]),
            new_records@.len() == nlen,
            forall|t: int|
                0 <= t < nlen ==> key((#[trigger] new_records@[t]).contact) == key(next@[t]),
            forall|t: int| 0 <= t < nlen ==> (#[trigger] new_records@[t]).handle < handle,
            forall|t: int|
                0 <= t < nlen ==> prev.contains(#[trigger] new_records@[t]) || (
                new_records@[t].handle >= h0 && new_records@[t].contact == next@[t]
                    && !store_has_key(prev, key(next@[t]))),
            forall|t1: int, t2: int|
                0 <= t1 < t2 < nlen ==> (#[trigger] new_records@[t1]).handle != (
                #[trigger] new_records@[t2]).handle,
            h0 <= handle,
            forall|k: (u64, u64)| #[trigger]
                has_started(events@, k) <==> (vec_has_key(next@, k) && !store_has_key(prev, k)),
            forall|k: (u64, u64)| #[trigger]
                has_stopped(events@, k) <==> (exists|q: int|
                    0 <= q < p && key((#[trigger] prev[q]).contact) == k && !vec_has_key(next@, k)),
            forall|i: int, j: int|
                0 <= i < j < events@.len() ==> event_key(#[trigger] events@[i]) != event_key(
                    #[trigger] events@[j],
                ),
            forall|i: int|
                0 <= i < events@.len() ==> event_contact(#[trigger] events@[i]).0 != event_contact(
                    events@[i],
                ).1,
        decreases plen - p,
    {
        let r = store.records[p];
        let ghost events_before = events@;
        let still = contains_key(&next, &r.contact);
        if !still {
            events.push(ContactEvent::Stopped(r.contact));
            proof {
                assert(events@ == events_before.push(ContactEvent::Stopped(r.contact)));
                assert(events@[events@.len() - 1] == ContactEvent::Stopped(r.contact));
                assert(prev[p as int] == r);
                assert(r.contact.0 != r.contact.1);
                assert forall|k: (u64, u64)| #[trigger]
                    has_stopped(events@, k) <==> (exists|q: int|
                        0 <= q < p + 1 && key((#[trigger] prev[q]).contact) == k && !vec_has_key(
                            next@,
                            k,
                        )) by {
                    lemma_event_push(events_before, ContactEvent::Stopped(r.contact), k);
                    if has_stopped(events@, k) {
                        if has_stopped(events_before, k) {
                            let q = choose|q: int|
                                0 <= q < p && key((#[trigger] prev[q]).contact) == k
                                    && !vec_has_key(next@, k);
                            assert(0 <= q < p + 1 && key(prev[q].contact) == k && !vec_has_key(
                                next@,
                                k,
                            ));
                        } else {
                            assert(k == key(r.contact));
                            assert(key(prev[p as int].contact) == k);
                        }
                    }
                    if exists|q: int|
                        0 <= q < p + 1 && key((#[trigger] prev[q]).contact) == k && !vec_has_key(
                            next@,
                            k,
                        ) {
                        let q = choose|q: int|
                            0 <= q < p + 1 && key((#[trigger] prev[q]).contact) == k
                                && !vec_has_key(next@, k);
                        if q == p {
                            assert(event_key(events@[events@.len() - 1]) == key(r.contact));
                            assert(has_stopped(events@, k));
                        } else {
                            assert(has_stopped(events_before, k));
                            assert(has_stopped(events@, k));
                        }
                    }
                }
                assert forall|k: (u64, u64)| #[trigger]
                    has_started(events@, k) <==> (vec_has_key(next@, k) && !store_has_key(
                        prev,
                        k,
                    )) by {
                    lemma_event_push(events_before, ContactEvent::Stopped(r.contact), k);
                }
                // The new Stopped pair is absent from the next contacts,
                // while every earlier Started pair is present, and every
                // earlier Stopped pair persists a different previous record.
                assert forall|i: int, j: int|
                    0 <= i < j < events@.len() implies event_key(#[trigger] events@[i])
                    != event_key(#[trigger] events@[j]) by {
                    if j == events@.len() - 1 {
                        assert(events_before[i] == events@[i]);
                        let ki = event_key(events_before[i]);
                        assert(event_key(events@[j]) == key(r.contact));
                        assert(!vec_has_key(next@, key(r.contact)));
                        if events_before[i] is Started {
                            assert(has_started(events_before, ki));
                            assert(vec_has_key(next@, ki));
                        } else {
                            assert(events_before[i] is Stopped);
                            assert(has_stopped(events_before, ki));
                            let q = choose|q: int|
                                0 <= q < p && key((#[trigger] prev[q]).contact) == ki
                                    && !vec_has_key(next@, ki);
                            if ki == key(r.contact) {
                                assert(key(prev[q].contact) == key(prev[p as int].contact));
                                assert(false);
                            }
                        }
                    } else {
                        assert(events_before[i] == events@[i]);
                        assert(events_before[j] == events@[j]);
                    }
                }
            }
        } else {
            proof {
                assert(vec_has_key(next@, key(r.contact)));
                assert forall|k: (u64, u64)| #[trigger]
                    has_stopped(events@, k) <==> (exists|q: int|
                        0 <= q < p + 1 && key((#[trigger] prev[q]).contact) == k && !vec_has_key(
                            next@,
                            k,
                        )) by {
                    if exists|q: int|
                        0 <= q < p + 1 && key((#[trigger] prev[q]).contact) == k && !vec_has_key(
                            next@,
                            k,
                        ) {
                        let q = choose|q: int|
                            0 <= q < p + 1 && key((#[trigger] prev[q]).contact) == k
                                && !vec_has_key(next@, k);
                        if q == p {
                            assert(key(prev[p as int].contact) == key(r.contact));
                            assert(false);
                        }
                    }
                }
            }
        }
        p += 1;
    }
    store.records = new_records;
    store.next_handle = handle;
    proof {
        let cur = store.records@;
        // The updated records hold exactly the keys of the next contacts.
        assert forall|k: (u64, u64)| #[trigger]
            store_has_key(cur, k) <==> next_has_key(movers@, areas@, k) by {
            if store_has_key(cur, k) {
                let t = choose|t: int| 0 <= t < cur.len() && key((#[trigger] cur[t]).contact) == k;
                assert(key(next@[t]) == k);
                assert(vec_has_key(next@, k));
            }
            if next_has_key(movers@, areas@, k) {
                assert(vec_has_key(next@, k));
                let t = choose|t: int| 0 <= t < next@.len() && key(#[trigger] next@[t]) == k;
                assert(key(cur[t].contact) == k);
                assert(store_has_key(cur, k));
            }
        }
        // A previous record whose pair still overlaps was carried over.
        assert forall|q: int|
            0 <= q < prev.len() && next_has_key(movers@, areas@, key((#[trigger] prev[q]).contact))
            implies cur.contains(prev[q]) by {
            let k = key(prev[q].contact);
            assert(vec_has_key(next@, k));
            let t = choose|t: int| 0 <= t < next@.len() && key(#[trigger] next@[t]) == k;
            assert(key(cur[t].contact) == k);
            if prev.contains(cur[t]) {
                let q2 = choose|q2: int| 0 <= q2 < prev.len() && prev[q2] == cur[t];
                assert(key(prev[q2].contact) == key(prev[q].contact));
                assert(q2 == q);
                assert(cur[t] == prev[q]);
                assert(cur.contains(prev[q]));
            } else {
                assert(!store_has_key(prev, key(next@[t])));
                assert(key(prev[q].contact) == k);
                assert(store_has_key(prev, k));
                assert(false);
            }
        }
        // Well-formedness of the updated store.
        assert forall|i: int, j: int| 0 <= i < j < cur.len() implies key(
            (#[trigger] cur[i]).contact,
        ) != key((#[trigger] cur[j]).contact) by {
            assert(key(next@[i]) != key(next@[j]));
        }
        assert forall|i: int| 0 <= i < cur.len() implies (#[trigger] cur[i]).contact.0
            != cur[i].contact.1 by {
            if prev.contains(cur[i]) {
                let q = choose|q: int| 0 <= q < prev.len() && prev[q] == cur[i];
                assert(prev[q].contact.0 != prev[q].contact.1);
            } else {
                assert(cur[i].contact == next@[i]);
                assert(next_has_contact(movers@, areas@, next@[i]));
            }
        }
        // Every record either survives or is fresh.
        assert forall|t: int| 0 <= t < cur.len() implies prev.contains(#[trigger] cur[t])
            || next_has_contact(movers@, areas@, cur[t].contact) by {
            if !prev.contains(cur[t]) {
                assert(cur[t].contact == next@[t]);
                assert(next_has_contact(movers@, areas@, next@[t]));
            }
        }
    }
    events
}

/// Law: a contact-diffing pass never reports a pair whose two members are
/// the same entity — a moving entity is never matched against itself.
pub proof fn lemma_no_self_contact(
    prev: Seq<ContactRecord>,
    cur: Seq<ContactRecord>,
    events: Seq<ContactEvent>,
    movers: Seq<ColliderRow>,
    areas: Seq<TriggerRow>,
)
    requires
        trigger_diff_spec(prev, cur, events, movers, areas),
    ensures
        forall|i: int|
            0 <= i < events.len() ==> event_contact(#[trigger] events[i]).0 != event_contact(
                events[i],
            ).1,
        forall|e: EntityId| !store_has_key(cur, key(Contact(e, e))) || store_has_key(prev, key(Contact(e, e))),
{
    assert forall|e: EntityId|
        !store_has_key(cur, key(Contact(e, e))) || store_has_key(prev, key(Contact(e, e))) by {
        if store_has_key(cur, key(Contact(e, e))) {
            assert(next_has_key(movers, areas, key(Contact(e, e))));
            let (i, j) = choose|i: int, j: int|
                0 <= i < movers.len() && 0 <= j < areas.len() && #[trigger] pair_qualifies(
                    movers,
                    areas,
                    i,
                    j,
                    key(Contact(e, e)),
                );
            assert(movers[i].entity != areas[j].entity);
            assert(key(Contact(movers[i].entity, areas[j].entity)) == key(Contact(e, e)));
            assert(false);
        }
    }
}

/// Law: steady-state stability. While a pair keeps overlapping across
/// consecutive ticks, a diffing pass emits no event for it and carries its
/// persisted record over unchanged, so the pair's single record survives
/// tick after tick with no churn.
pub proof fn lemma_steady_state_stability(
    prev: Seq<ContactRecord>,
    cur: Seq<ContactRecord>,
    events: Seq<ContactEvent>,
    movers: Seq<ColliderRow>,
    areas: Seq<TriggerRow>,
    k: (u64, u64),
)
    requires
        trigger_diff_spec(prev, cur, events, movers, areas),
        forall|i: int, j: int|
            0 <= i < j < cur.len() ==> key((#[trigger] cur[i]).contact) != key(
                (#[trigger] cur[j]).contact,
            ),
        next_has_key(movers, areas, k),
        store_has_key(prev, k),
    ensures
        !has_started(events, k),
        !has_stopped(events, k),
        store_has_key(cur, k),
        // The pair keeps exactly one persisted record.
        exists|i: int|
            0 <= i < cur.len() && key((#[trigger] cur[i]).contact) == k && (forall|j: int|
                0 <= j < cur.len() && j != i ==> key((#[trigger] cur[j]).contact) != k),
        forall|p: int|
            0 <= p < prev.len() && key((#[trigger] prev[p]).contact) == k ==> cur.contains(prev[p]),
{
    assert(store_has_key(cur, k));
    let i = choose|i: int| 0 <= i < cur.len() && key((#[trigger] cur[i]).contact) == k;
    assert(0 <= i < cur.len() && key(cur[i].contact) == k && (forall|j: int|
        0 <= j < cur.len() && j != i ==> key((#[trigger] cur[j]).contact) != k));
}

/// Law: a pair that begins to overlap fires `Started` exactly once — the
/// event exists, no other event concerns the pair, no `Stopped` fires, and
/// the pair is persisted.
pub proof fn lemma_contact_started_once(
    prev: Seq<ContactRecord>,
    cur: Seq<ContactRecord>,
    events: Seq<ContactEvent>,
    movers: Seq<ColliderRow>,
    areas: Seq<TriggerRow>,
    k: (u64, u64),
)
    requires
        trigger_diff_spec(prev, cur, events, movers, areas),
        forall|i: int, j: int|
            0 <= i < j < cur.len() ==> key((#[trigger] cur[i]).contact) != key(
                (#[trigger] cur[j]).contact,
            ),
        next_has_key(movers, areas, k),
        !store_has_key(prev, k),
    ensures
        has_started(events, k),
        !has_stopped(events, k),
        store_has_key(cur, k),
        // The pair gets exactly one persisted record.
        exists|i: int|
            0 <= i < cur.len() && key((#[trigger] cur[i]).contact) == k && (forall|j: int|
                0 <= j < cur.len() && j != i ==> key((#[trigger] cur[j]).contact) != k),
        forall|i: int, j: int|
            0 <= i < events.len() && 0 <= j < events.len() && i != j && event_key(
                #[trigger] events[i],
            ) == k ==> event_key(#[trigger] events[j]) != k,
{
    assert(store_has_key(cur, k));
    let i = choose|i: int| 0 <= i < cur.len() && key((#[trigger] cur[i]).contact) == k;
    assert(0 <= i < cur.len() && key(cur[i].contact) == k && (forall|j: int|
        0 <= j < cur.len() && j != i ==> key((#[trigger] cur[j]).contact) != k));
}

/// Law: moving a previously-overlapping pair out of range fires `Stopped`
/// exactly once and removes the persisted record.
pub proof fn lemma_exit_fires_stopped_once(
    prev: Seq<ContactRecord>,
    cur: Seq<ContactRecord>,
    events: Seq<ContactEvent>,
    movers: Seq<ColliderRow>,
    areas: Seq<TriggerRow>,
    k: (u64, u64),
)
    requires
        trigger_diff_spec(prev, cur, events, movers, areas),
        store_has_key(prev, k),
        !next_has_key(movers, areas, k),
    ensures
        has_stopped(events, k),
        !has_started(events, k),
        !store_has_key(cur, k),
        forall|i: int, j: int|
            0 <= i < events.len() && 0 <= j < events.len() && i != j && event_key(
                #[trigger] events[i],
            ) == k ==> event_key(#[trigger] events[j]) != k,
{
}

} // verus!
