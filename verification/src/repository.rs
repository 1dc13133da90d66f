//! The executable request repository.
//!
//! `RequestRepository` holds the `request` table together with the ids
//! of the tour and user rows it may reference and the event rows that
//! reference it. Each operation's contract says that the new state and
//! the result are exactly what the corresponding model function of
//! [`crate::model::RepoModel`] gives.

use vstd::prelude::*;

use crate::entities::{EventModel, Model};
use crate::model::{
    by_customer, by_tour, contains_id, events_for, has_event_for, index_of_id, RepoModel,
};

verus! {

/// How an operation on the repository fails.
#[derive(Clone, Copy, Debug, PartialEq, Eq, Structural)]
pub enum RepositoryError {
    /// The operation targets an id no request row has.
    NotFound,
    /// A foreign key would be left dangling: a write references a
    /// nonexistent tour or user, or a delete is blocked by dependent
    /// event rows.
    ReferentialIntegrity,
    /// A count field is negative.
    Validation,
}

/// A partial update of one request row: each field that holds a value
/// replaces the row's field of the same name, and each field left
/// `None` keeps the stored value. The primary key has no place here:
/// `id` is never mutable.
#[derive(Clone, Copy, Debug, PartialEq, Eq)]
pub struct RequestUpdate {
    /// Re-assign the request to this tour.
    pub tour: Option<i32>,
    /// Re-assign the request to this customer.
    pub customer: Option<i32>,
    /// Replace the passenger count.
    pub passengers: Option<i32>,
    /// Replace the wheelchair seat count.
    pub wheelchairs: Option<i32>,
    /// Replace the luggage count.
    pub luggage: Option<i32>,
}

impl RequestUpdate {
    /// The patch that touches nothing.
    pub fn none() -> (r: RequestUpdate)
        ensures
            r == (RequestUpdate {
                tour: None,
                customer: None,
                passengers: None,
                wheelchairs: None,
                luggage: None,
            }),
    {
        RequestUpdate { tour: None, customer: None, passengers: None, wheelchairs: None, luggage: None }
    }
}

/// The store behind the repository: the request rows, the ids of the
/// tour and user rows they may reference, the event rows, and the next
/// primary key to assign.
pub struct RequestRepository {
    tours: Vec<i32>,
    users: Vec<i32>,
    rows: Vec<Model>,
    events: Vec<EventModel>,
    next_id: i32,
}

impl View for RequestRepository {
    type V = RepoModel;

    closed spec fn view(&self) -> RepoModel {
        RepoModel {
            tours: self.tours@.to_set(),
            users: self.users@.to_set(),
            requests: self.rows@,
            events: self.events@,
            next_id: self.next_id as int,
        }
    }
}

/// True when `v` holds `x`.
fn holds_i32(v: &Vec<i32>, x: i32) -> (r: bool)
    ensures
        r == v@.contains(x),
{
    let mut i: usize = 0;
    while i < v.len()
        invariant
            0 <= i <= v@.len(),
            forall|k: int| 0 <= k < i ==> v@[k] != x,
        decreases v@.len() - i,
    {
        if v[i] == x {
            return true;
        }
        i = i + 1;
    }
    false
}

/// The index of the first row of `rows` with primary key `id`, if any.
fn find_index(rows: &Vec<Model>, id: i32) -> (r: Option<usize>)
    ensures
        match r {
            Some(i) => contains_id(rows@, id) && i as int == index_of_id(rows@, id) && i
                < rows@.len() && rows@[i as int].id == id,
            None => !contains_id(rows@, id),
        },
{
    let mut i: usize = 0;
    while i < rows.len()
        invariant
            0 <= i <= rows@.len(),
            forall|k: int| 0 <= k < i ==> rows@[k].id != id,
        decreases rows@.len() - i,
    {
        if rows[i].id == id {
            proof {
                assert(contains_id(rows@, id));
                crate::model::lemma_index_of_id(rows@, id);
            }
            return Some(i);
        }
        i = i + 1;
    }
    proof {
        crate::model::lemma_index_of_id(rows@, id);
    }
    None
}

impl RequestRepository {
    /// A repository with no rows at all; the first request created in
    /// it gets id 1.
    pub fn new() -> (r: RequestRepository)
        ensures
            r@ == RepoModel::empty(),
            r@.wf(),
    {
        let r = RequestRepository {
            tours: Vec::new(),
            users: Vec::new(),
            rows: Vec::new(),
            events: Vec::new(),
            next_id: 1,
        };
        proof {
            assert(r@.tours =~= Set::<i32>::empty());
            assert(r@.users =~= Set::<i32>::empty());
            assert(r@ =~= RepoModel::empty());
        }
        r
    }

    /// Apply a partial update to the row with this id and return the
    /// updated row. The row keeps its place in the table, and `id` is
    /// never changed.
    ///
    /// Fails with `NotFound` when no row has the id, with
    /// `ReferentialIntegrity` when the patch re-assigns the request to
    /// a nonexistent tour or customer, and with `Validation` when a
    /// patched count is negative; the store is unchanged then.
    pub fn update(&mut self, id: i32, patch: RequestUpdate) -> (r: Result<Model, RepositoryError>)
        requires
            old(self)@.wf(),
        ensures
            final(self)@ == old(self)@.spec_update(id, patch).0,
            r == old(self)@.spec_update(id, patch).1,
            final(self)@.wf(),
    {
        let ghost pre = self@;
        let idx = match find_index(&self.rows, id) {
            Some(i) => i,
            None => {
                return Err(RepositoryError::NotFound);
            },
        };
        let m = self.rows[idx];
        if let Some(t) = patch.tour {
            if !holds_i32(&self.tours, t) {
                return Err(RepositoryError::ReferentialIntegrity);
            }
        }
        if let Some(c) = patch.customer {
            if !holds_i32(&self.users, c) {
                return Err(RepositoryError::ReferentialIntegrity);
            }
        }
        let m2 = Model {
            id: m.id,
            tour: match patch.tour {
                Some(t) => t,
                None => m.tour,
            },
            customer: match patch.customer {
                Some(c) => c,
                None => m.customer,
            },
            passengers: match patch.passengers {
                Some(p) => p,
                None => m.passengers,
            },
            wheelchairs: match patch.wheelchairs {
                Some(w) => w,
                None => m.wheelchairs,
            },
            luggage: match patch.luggage {
                Some(l) => l,
                None => m.luggage,
            },
        };
        if m2.passengers < 0 || m2.wheelchairs < 0 || m2.luggage < 0 {
            return Err(RepositoryError::Validation);
        }
        self.rows[idx] = m2;
        proof {
            assert(self@ =~= pre.spec_update(id, patch).0);
            lemma_wf_update(pre, self@, idx as int, m2);
        }
        Ok(m2)
    }

    /// Remove the row with this id for good; there is no soft delete.
    ///
    /// Fails with `NotFound` when no row has the id, and with
    /// `ReferentialIntegrity` when event rows still reference the
    /// request: the foreign key from `event` takes no action on
    /// delete, so the dependent events must go first.
    pub fn delete(&mut self, id: i32) -> (r: Result<(), RepositoryError>)
        requires
            old(self)@.wf(),
        ensures
            final(self)@ == old(self)@.spec_delete(id).0,
            r == old(self)@.spec_delete(id).1,
            final(self)@.wf(),
    {
        let ghost pre = self@;
        let idx = match find_index(&self.rows, id) {
            Some(i) => i,
            None => {
                return Err(RepositoryError::NotFound);
            },
        };
        if holds_event_for(&self.events, id) {
            return Err(RepositoryError::ReferentialIntegrity);
        }
        self.rows.remove(idx);
        proof {
            assert(self@ =~= pre.spec_delete(id).0);
            lemma_wf_remove(pre, self@, idx as int, id);
        }
        Ok(())
    }

    /// Append an event row that references the request `request_id`,
    /// standing in for the event subsystem writing its table. Fails
    /// with `ReferentialIntegrity` when no such request exists, so an
    /// event can never reference a missing request.
    pub fn add_event(&mut self, id: i32, request_id: i32) -> (r: Result<(), RepositoryError>)
        requires
            old(self)@.wf(),
        ensures
            final(self)@ == old(self)@.spec_add_event(id, request_id).0,
            r == old(self)@.spec_add_event(id, request_id).1,
            final(self)@.wf(),
    {
        let ghost pre = self@;
        if find_index(&self.rows, request_id).is_none() {
            return Err(RepositoryError::ReferentialIntegrity);
        }
        self.events.push(EventModel { id, request: request_id });
        proof {
            assert(self@ =~= pre.spec_add_event(id, request_id).0);
        }
        Ok(())
    }

    /// All requests booked on this tour, in insertion order: a stable,
    /// re-queryable listing, empty when the tour has no requests.
    pub fn list_by_tour(&self, tour_id: i32) -> (r: Vec<Model>)
        ensures
            r@ == by_tour(self@.requests, tour_id),
    {
        let mut out: Vec<Model> = Vec::new();
        let mut i: usize = 0;
        while i < self.rows.len()
            invariant
                0 <= i <= self.rows@.len(),
                out@ == by_tour(self.rows@.take(i as int), tour_id),
            decreases self.rows@.len() - i,
        {
            proof {
                reveal(Seq::filter);
                assert(self.rows@.take(i + 1).drop_last() =~= self.rows@.take(i as int));
                assert(self.rows@.take(i + 1).last() == self.rows@[i as int]);
            }
            if self.rows[i].tour == tour_id {
                out.push(self.rows[i]);
            }
            i = i + 1;
        }
        proof {
            assert(self.rows@.take(self.rows@.len() as int) =~= self.rows@);
        }
        out
    }

    /// All requests placed by this customer, in insertion order.
    pub fn list_by_customer(&self, customer_id: i32) -> (r: Vec<Model>)
        ensures
            r@ == by_customer(self@.requests, customer_id),
    {
        let mut out: Vec<Model> = Vec::new();
        let mut i: usize = 0;
        while i < self.rows.len()
            invariant
                0 <= i <= self.rows@.len(),
                out@ == by_customer(self.rows@.take(i as int), customer_id),
            decreases self.rows@.len() - i,
        {
            proof {
                reveal(Seq::filter);
                assert(self.rows@.take(i + 1).drop_last() =~= self.rows@.take(i as int));
                assert(self.rows@.take(i + 1).last() == self.rows@[i as int]);
            }
            if self.rows[i].customer == customer_id {
                out.push(self.rows[i]);
            }
            i = i + 1;
        }
        proof {
            assert(self.rows@.take(self.rows@.len() as int) =~= self.rows@);
        }
        out
    }

    /// All event rows that reference this request, in insertion order:
    /// the traversal to the related event records, whose ordering
    /// beyond insertion order is the event subsystem's concern.
    pub fn list_events(&self, request_id: i32) -> (r: Vec<EventModel>)
        ensures
            r@ == events_for(self@.events, request_id),
    {
        let mut out: Vec<EventModel> = Vec::new();
        let mut i: usize = 0;
        while i < self.events.len()
            invariant
                0 <= i <= self.events@.len(),
                out@ == events_for(self.events@.take(i as int), request_id),
            decreases self.events@.len() - i,
        {
            proof {
                reveal(Seq::filter);
                assert(self.events@.take(i + 1).drop_last() =~= self.events@.take(i as int));
                assert(self.events@.take(i + 1).last() == self.events@[i as int]);
            }
            if self.events[i].request == request_id {
                out.push(self.events[i]);
            }
            i = i + 1;
        }
        proof {
            assert(self.events@.take(self.events@.len() as int) =~= self.events@);
        }
        out
    }

    /// Record that a tour row with this id exists, so that requests may
    /// reference it. Standing in for the tour table, which this
    /// repository reads but does not own.
    pub fn add_tour(&mut self, id: i32)
        requires
            old(self)@.wf(),
        ensures
            final(self)@ == (RepoModel { tours: old(self)@.tours.insert(id), ..old(self)@ }),
            final(self)@.wf(),
    {
        let ghost pre = self@;
        let ghost seq0 = self.tours@;
        if !holds_i32(&self.tours, id) {
            self.tours.push(id);
            proof {
                seq0.lemma_push_to_set_commute(id);
            }
        } else {
            proof {
                assert(seq0.to_set().contains(id));
                assert(seq0.to_set().insert(id) =~= seq0.to_set());
            }
        }
        proof {
            assert(self@.tours =~= pre.tours.insert(id));
            assert(self@ =~= (RepoModel { tours: pre.tours.insert(id), ..pre }));
            lemma_wf_wider(pre, self@);
        }
    }

    /// Insert a new request row and return it, with its assigned id.
    ///
    /// Fails with `ReferentialIntegrity` when `tour_id` or
    /// `customer_id` references no existing row, whatever the counts
    /// hold, and persists nothing then; fails with `Validation` when a
    /// count is negative. The bound on `next_id` keeps the store from
    /// running out of `i32` primary keys.
    pub fn create(
        &mut self,
        tour_id: i32,
        customer_id: i32,
        passengers: i32,
        wheelchairs: i32,
        luggage: i32,
    ) -> (r: Result<Model, RepositoryError>)
        requires
            old(self)@.wf(),
            old(self)@.next_id < i32::MAX as int,
        ensures
            final(self)@ == old(self)@.spec_create(
                tour_id,
                customer_id,
                passengers,
                wheelchairs,
                luggage,
            ).0,
            r == old(self)@.spec_create(tour_id, customer_id, passengers, wheelchairs, luggage).1,
            final(self)@.wf(),
    {
        let ghost pre = self@;
        if !holds_i32(&self.tours, tour_id) || !holds_i32(&self.users, customer_id) {
            return Err(RepositoryError::ReferentialIntegrity);
        }
        if passengers < 0 || wheelchairs < 0 || luggage < 0 {
            return Err(RepositoryError::Validation);
        }
        let m = Model {
            id: self.next_id,
            tour: tour_id,
            customer: customer_id,
            passengers,
            wheelchairs,
            luggage,
        };
        self.rows.push(m);
        self.next_id = self.next_id + 1;
        proof {
            assert(self@ =~= pre.spec_create(tour_id, customer_id, passengers, wheelchairs, luggage).0);
            assert forall|i: int| 0 <= i < self@.events.len() implies contains_id(
                self@.requests,
                (#[trigger] self@.events[i]).request,
            ) by {
                let j = choose|j: int|
                    0 <= j < pre.requests.len() && pre.requests[j].id == pre.events[i].request;
                assert(self@.requests[j].id == self@.events[i].request);
            }
        }
        Ok(m)
    }

    /// Read the request row with this id; fails with `NotFound` when
    /// no row has it.
    pub fn get(&self, id: i32) -> (r: Result<Model, RepositoryError>)
        ensures
            r == self@.spec_get(id),
    {
        match find_index(&self.rows, id) {
            Some(i) => Ok(self.rows[i]),
            None => Err(RepositoryError::NotFound),
        }
    }

    /// Record that a user row with this id exists, so that requests may
    /// name it as their customer. Standing in for the user table, which
    /// this repository reads but does not own.
    pub fn add_user(&mut self, id: i32)
        requires
            old(self)@.wf(),
        ensures
            final(self)@ == (RepoModel { users: old(self)@.users.insert(id), ..old(self)@ }),
            final(self)@.wf(),
    {
        let ghost pre = self@;
        let ghost seq0 = self.users@;
        if !holds_i32(&self.users, id) {
            self.users.push(id);
            proof {
                seq0.lemma_push_to_set_commute(id);
            }
        } else {
            proof {
                assert(seq0.to_set().contains(id));
                assert(seq0.to_set().insert(id) =~= seq0.to_set());
            }
        }
        proof {
            assert(self@.users =~= pre.users.insert(id));
            assert(self@ =~= (RepoModel { users: pre.users.insert(id), ..pre }));
            lemma_wf_wider(pre, self@);
        }
    }
}

/// True when some event row of `es` references the request `id`.
fn holds_event_for(es: &Vec<EventModel>, id: i32) -> (r: bool)
    ensures
        r == has_event_for(es@, id),
{
    let mut i: usize = 0;
    while i < es.len()
        invariant
            0 <= i <= es@.len(),
            forall|k: int| 0 <= k < i ==> es@[k].request != id,
        decreases es@.len() - i,
    {
        if es[i].request == id {
            return true;
        }
        i = i + 1;
    }
    false
}

/// Replacing one row by a valid row with the same primary key keeps
/// the store well-formed.
proof fn lemma_wf_update(a: RepoModel, b: RepoModel, idx: int, m2: Model)
    requires
        a.wf(),
        0 <= idx < a.requests.len(),
        b.requests == a.requests.update(idx, m2),
        m2.id == a.requests[idx].id,
        crate::model::counts_ok(m2),
        crate::model::refs_ok(m2, a.tours, a.users),
        b.tours == a.tours,
        b.users == a.users,
        b.events == a.events,
        b.next_id == a.next_id,
    ensures
        b.wf(),
{
    assert(forall|k: int|
        0 <= k < b.requests.len() ==> (#[trigger] b.requests[k]).id == a.requests[k].id);
    assert forall|i: int| 0 <= i < b.events.len() implies contains_id(
        b.requests,
        (#[trigger] b.events[i]).request,
    ) by {
        let j = choose|j: int|
            0 <= j < a.requests.len() && a.requests[j].id == a.events[i].request;
        assert(b.requests[j].id == b.events[i].request);
    }
}

/// Removing a row that no event row references keeps the store
/// well-formed.
proof fn lemma_wf_remove(a: RepoModel, b: RepoModel, idx: int, id: i32)
    requires
        a.wf(),
        0 <= idx < a.requests.len(),
        a.requests[idx].id == id,
        !has_event_for(a.events, id),
        b.requests == a.requests.remove(idx),
        b.tours == a.tours,
        b.users == a.users,
        b.events == a.events,
        b.next_id == a.next_id,
    ensures
        b.wf(),
{
    a.requests.remove_ensures(idx);
    assert(forall|k: int|
        0 <= k < b.requests.len() ==> #[trigger] b.requests[k] == a.requests[
            if k < idx {
                k
            } else {
                k + 1
            }
        ]);
    assert forall|i: int, j: int| 0 <= i < j < b.requests.len() implies b.requests[i].id
        != b.requests[j].id by {
        let i0: int = if i < idx { i } else { i + 1 };
        let j0: int = if j < idx { j } else { j + 1 };
        assert(a.requests[i0].id != a.requests[j0].id);
    }
    assert forall|i: int| 0 <= i < b.events.len() implies contains_id(
        b.requests,
        (#[trigger] b.events[i]).request,
    ) by {
        let rid = a.events[i].request;
        let j = choose|j: int| 0 <= j < a.requests.len() && a.requests[j].id == rid;
        assert(rid != id);
        assert(j != idx);
        if j < idx {
            assert(b.requests[j].id == rid);
        } else {
            assert(b.requests[j - 1].id == rid);
        }
    }
}

/// Growing the tour and user tables, and nothing else, keeps the store
/// well-formed.
proof fn lemma_wf_wider(a: RepoModel, b: RepoModel)
    requires
        a.wf(),
        a.tours.subset_of(b.tours),
        a.users.subset_of(b.users),
        b.requests == a.requests,
        b.events == a.events,
        b.next_id == a.next_id,
    ensures
        b.wf(),
{
    assert forall|i: int| 0 <= i < b.requests.len() implies crate::model::counts_ok(
        #[trigger] b.requests[i],
    ) && crate::model::refs_ok(b.requests[i], b.tours, b.users) by {
        assert(crate::model::refs_ok(a.requests[i], a.tours, a.users));
    }
}

} // verus!
