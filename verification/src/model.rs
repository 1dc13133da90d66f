//! The mathematical model of the repository's state and of each
//! operation on it.
//!
//! `RepoModel` is the abstraction of the store: the set of existing tour
//! ids, the set of existing user ids, the sequence of request rows in
//! insertion order, the sequence of event rows in insertion order, and
//! the next primary key to assign. Every executable operation of the
//! repository is specified as a pure function on this model.

use vstd::prelude::*;

use crate::entities::{EventModel, Model};
use crate::repository::{RepositoryError, RequestUpdate};

verus! {

/// True when some row of `s` has primary key `id`.
pub open spec fn contains_id(s: Seq<Model>, id: i32) -> bool {
    exists|i: int| 0 <= i < s.len() && s[i].id == id
}

/// The index of the first row of `s` with primary key `id`, or `-1`
/// when there is none.
pub open spec fn index_of_id(s: Seq<Model>, id: i32) -> int
    decreases s.len(),
{
    if s.len() == 0 {
        -1
    } else if s[0].id == id {
        0
    } else {
        let rest = index_of_id(s.drop_first(), id);
        if rest < 0 {
            -1
        } else {
            rest + 1
        }
    }
}

/// `index_of_id` finds the first row with the given id: when one
/// exists its index is in range, carries the id, and no earlier row
/// does; when none exists the index is `-1`.
pub proof fn lemma_index_of_id(s: Seq<Model>, id: i32)
    ensures
        contains_id(s, id) ==> {
            &&& 0 <= index_of_id(s, id) < s.len()
            &&& s[index_of_id(s, id)].id == id
            &&& forall|k: int| 0 <= k < index_of_id(s, id) ==> s[k].id != id
        },
        !contains_id(s, id) ==> index_of_id(s, id) == -1,
    decreases s.len(),
{
    if s.len() == 0 {
    } else if s[0].id == id {
    } else {
        let rest = s.drop_first();
        lemma_index_of_id(rest, id);
        assert forall|i: int| 0 <= i < s.len() && s[i].id == id implies contains_id(rest, id) by {
            assert(rest[i - 1].id == id);
        }
        if contains_id(rest, id) {
            let j = choose|j: int| 0 <= j < rest.len() && rest[j].id == id;
            assert(s[j + 1].id == id);
            assert(contains_id(s, id));
            let r = index_of_id(rest, id);
            assert(s[r + 1] == rest[r]);
            assert forall|k: int| 0 <= k < r + 1 implies s[k].id != id by {
                if k > 0 {
                    assert(rest[k - 1].id != id);
                }
            }
        }
    }
}

/// Two tables whose rows carry the same primary keys, row for row,
/// agree on which ids they contain and where each id first stands.
pub proof fn lemma_index_same_ids(s1: Seq<Model>, s2: Seq<Model>, id: i32)
    requires
        s1.len() == s2.len(),
        forall|k: int| 0 <= k < s1.len() ==> (#[trigger] s1[k]).id == s2[k].id,
    ensures
        contains_id(s1, id) == contains_id(s2, id),
        index_of_id(s1, id) == index_of_id(s2, id),
    decreases s1.len(),
{
    if contains_id(s1, id) {
        let i = choose|i: int| 0 <= i < s1.len() && s1[i].id == id;
        assert(s2[i].id == id);
    }
    if contains_id(s2, id) {
        let i = choose|i: int| 0 <= i < s2.len() && s2[i].id == id;
        assert(s1[i].id == id);
    }
    if s1.len() != 0 && s1[0].id != id {
        let r1 = s1.drop_first();
        let r2 = s2.drop_first();
        assert forall|k: int| 0 <= k < r1.len() implies (#[trigger] r1[k]).id == r2[k].id by {
            assert(s1[k + 1].id == s2[k + 1].id);
        }
        lemma_index_same_ids(r1, r2, id);
    }
}

/// The first row of `s` with primary key `id`, if any.
pub open spec fn lookup(s: Seq<Model>, id: i32) -> Option<Model> {
    if contains_id(s, id) {
        Some(s[index_of_id(s, id)])
    } else {
        None
    }
}

/// True when some event row of `es` references the request `id`.
pub open spec fn has_event_for(es: Seq<EventModel>, id: i32) -> bool {
    exists|i: int| 0 <= i < es.len() && es[i].request == id
}

/// No two rows of `s` share a primary key.
pub open spec fn unique_ids(s: Seq<Model>) -> bool {
    forall|i: int, j: int| 0 <= i < j < s.len() ==> s[i].id != s[j].id
}

/// Every primary key of `s` lies in `1 ..= bound - 1`.
pub open spec fn ids_below(s: Seq<Model>, bound: int) -> bool {
    forall|i: int| 0 <= i < s.len() ==> 1 <= (#[trigger] s[i]).id && s[i].id < bound
}

/// The count fields of a request row are non-negative.
pub open spec fn counts_ok(m: Model) -> bool {
    m.passengers >= 0 && m.wheelchairs >= 0 && m.luggage >= 0
}

/// The row's foreign keys reference existing tour and user rows.
pub open spec fn refs_ok(m: Model, tours: Set<i32>, users: Set<i32>) -> bool {
    tours.contains(m.tour) && users.contains(m.customer)
}

/// The predicate "this request is booked on tour `t`".
pub open spec fn tour_pred(t: i32) -> spec_fn(Model) -> bool {
    |m: Model| m.tour == t
}

/// The predicate "this request was placed by customer `c`".
pub open spec fn customer_pred(c: i32) -> spec_fn(Model) -> bool {
    |m: Model| m.customer == c
}

/// The predicate "this event references request `id`".
pub open spec fn event_pred(id: i32) -> spec_fn(EventModel) -> bool {
    |e: EventModel| e.request == id
}

/// The request rows booked on tour `t`, in insertion order.
pub open spec fn by_tour(s: Seq<Model>, t: i32) -> Seq<Model> {
    s.filter(tour_pred(t))
}

/// The request rows placed by customer `c`, in insertion order.
pub open spec fn by_customer(s: Seq<Model>, c: i32) -> Seq<Model> {
    s.filter(customer_pred(c))
}

/// The event rows that reference request `id`, in insertion order.
pub open spec fn events_for(es: Seq<EventModel>, id: i32) -> Seq<EventModel> {
    es.filter(event_pred(id))
}

/// A filtered sequence holds exactly the elements of the original that
/// satisfy the predicate, and nothing else.
pub proof fn lemma_filter_exact<A>(s: Seq<A>, pred: spec_fn(A) -> bool, x: A)
    ensures
        s.filter(pred).contains(x) <==> (s.contains(x) && pred(x)),
    decreases s.len(),
{
    reveal(Seq::filter);
    if s.len() == 0 {
    } else {
        let prefix = s.drop_last();
        lemma_filter_exact(prefix, pred, x);
        if s.filter(pred).contains(x) {
            if pred(s.last()) {
                let j = choose|j: int|
                    0 <= j < s.filter(pred).len() && s.filter(pred)[j] == x;
                if j == s.filter(pred).len() - 1 {
                    assert(s[s.len() - 1] == x);
                } else {
                    assert(prefix.filter(pred)[j] == x);
                }
            }
            if s.contains(x) {
            } else {
                assert(prefix.filter(pred).contains(x));
                let k = choose|k: int| 0 <= k < prefix.len() && prefix[k] == x;
                assert(s[k] == x);
            }
        }
        if s.contains(x) && pred(x) {
            let i = choose|i: int| 0 <= i < s.len() && s[i] == x;
            if i == s.len() - 1 {
                assert(s.filter(pred)[s.filter(pred).len() - 1] == x);
            } else {
                assert(prefix[i] == x);
                assert(prefix.filter(pred).contains(x));
                let j = choose|j: int|
                    0 <= j < prefix.filter(pred).len() && prefix.filter(pred)[j] == x;
                assert(s.filter(pred)[j] == x);
            }
        }
    }
}

/// The abstract state of the store.
pub struct RepoModel {
    /// Ids of the tour rows that exist.
    pub tours: Set<i32>,
    /// Ids of the user rows that exist.
    pub users: Set<i32>,
    /// The request rows, in insertion order.
    pub requests: Seq<Model>,
    /// The event rows, in insertion order.
    pub events: Seq<EventModel>,
    /// The next primary key to assign.
    pub next_id: int,
}

impl RepoModel {
    /// The store with no rows at all.
    pub open spec fn empty() -> RepoModel {
        RepoModel {
            tours: Set::empty(),
            users: Set::empty(),
            requests: Seq::empty(),
            events: Seq::empty(),
            next_id: 1,
        }
    }

    /// Well-formedness of the store: the next id to assign fits an
    /// `i32`, ids start at 1 and stay below `next_id`, no id is used
    /// twice, every request row has valid counts and references
    /// existing tour and user rows, and every event row references an
    /// existing request row.
    pub open spec fn wf(self) -> bool {
        &&& 1 <= self.next_id <= i32::MAX as int
        &&& unique_ids(self.requests)
        &&& ids_below(self.requests, self.next_id)
        &&& forall|i: int|
            0 <= i < self.requests.len() ==> counts_ok(#[trigger] self.requests[i]) && refs_ok(
                self.requests[i],
                self.tours,
                self.users,
            )
        &&& forall|i: int|
            0 <= i < self.events.len() ==> contains_id(
                self.requests,
                (#[trigger] self.events[i]).request,
            )
    }

    /// What `create` does to the store, and what it returns.
    ///
    /// A missing tour or customer is rejected before anything else, so
    /// a create against a nonexistent parent always fails with
    /// `ReferentialIntegrity`, whatever the count fields hold. A
    /// negative count is rejected next. Otherwise the new row is
    /// appended with the next free id.
    pub open spec fn spec_create(
        self,
        tour_id: i32,
        customer_id: i32,
        passengers: i32,
        wheelchairs: i32,
        luggage: i32,
    ) -> (RepoModel, Result<Model, RepositoryError>) {
        if !self.tours.contains(tour_id) || !self.users.contains(customer_id) {
            (self, Err(RepositoryError::ReferentialIntegrity))
        } else if passengers < 0 || wheelchairs < 0 || luggage < 0 {
            (self, Err(RepositoryError::Validation))
        } else {
            let m = Model {
                id: self.next_id as i32,
                tour: tour_id,
                customer: customer_id,
                passengers,
                wheelchairs,
                luggage,
            };
            (
                RepoModel { requests: self.requests.push(m), next_id: self.next_id + 1, ..self },
                Ok(m),
            )
        }
    }

    /// What `get` returns: the row with the given id, or `NotFound`.
    pub open spec fn spec_get(self, id: i32) -> Result<Model, RepositoryError> {
        match lookup(self.requests, id) {
            Some(m) => Ok(m),
            None => Err(RepositoryError::NotFound),
        }
    }

    /// What `update` does to the store, and what it returns.
    ///
    /// A missing row is rejected first; then a patched foreign key
    /// that references a nonexistent tour or user; then a patched row
    /// with a negative count. Otherwise the row is replaced in place,
    /// so the listing order of the table does not move.
    pub open spec fn spec_update(self, id: i32, patch: RequestUpdate) -> (
        RepoModel,
        Result<Model, RepositoryError>,
    ) {
        match lookup(self.requests, id) {
            None => (self, Err(RepositoryError::NotFound)),
            Some(m) => {
                let bad_tour = match patch.tour {
                    Some(t) => !self.tours.contains(t),
                    None => false,
                };
                let bad_customer = match patch.customer {
                    Some(c) => !self.users.contains(c),
                    None => false,
                };
                if bad_tour || bad_customer {
                    (self, Err(RepositoryError::ReferentialIntegrity))
                } else {
                    let m2 = apply_update(m, patch);
                    if !counts_ok(m2) {
                        (self, Err(RepositoryError::Validation))
                    } else {
                        (
                            RepoModel {
                                requests: self.requests.update(index_of_id(self.requests, id), m2),
                                ..self
                            },
                            Ok(m2),
                        )
                    }
                }
            },
        }
    }

    /// What `delete` does to the store, and what it returns.
    ///
    /// A missing row is rejected with `NotFound`; a row that dependent
    /// event rows still reference is kept, and the delete fails with
    /// `ReferentialIntegrity`, since the foreign key from `event` takes
    /// no action on delete. Otherwise the row is removed for good.
    pub open spec fn spec_delete(self, id: i32) -> (RepoModel, Result<(), RepositoryError>) {
        if !contains_id(self.requests, id) {
            (self, Err(RepositoryError::NotFound))
        } else if has_event_for(self.events, id) {
            (self, Err(RepositoryError::ReferentialIntegrity))
        } else {
            (
                RepoModel { requests: self.requests.remove(index_of_id(self.requests, id)), ..self },
                Ok(()),
            )
        }
    }

    /// What `add_event` does to the store, and what it returns: an
    /// event row must reference an existing request.
    pub open spec fn spec_add_event(self, id: i32, request_id: i32) -> (
        RepoModel,
        Result<(), RepositoryError>,
    ) {
        if !contains_id(self.requests, request_id) {
            (self, Err(RepositoryError::ReferentialIntegrity))
        } else {
            (
                RepoModel {
                    events: self.events.push(EventModel { id, request: request_id }),
                    ..self
                },
                Ok(()),
            )
        }
    }
}

/// The row `m` with each field a patch carries replaced by the patched
/// value; `id` is never touched.
pub open spec fn apply_update(m: Model, patch: RequestUpdate) -> Model {
    Model {
        id: m.id,
        tour: match patch.tour {
            Some(t) => t,
            None => m.tour,
        },
        customer: match patch.customer {
            Some(c) => c,
            None => m.customer,
        },
        passengers: match patch.passengers {
            Some(p) => p,
            None => m.passengers,
        },
        wheelchairs: match patch.wheelchairs {
            Some(w) => w,
            None => m.wheelchairs,
        },
        luggage: match patch.luggage {
            Some(l) => l,
            None => m.luggage,
        },
    }
}

} // verus!
