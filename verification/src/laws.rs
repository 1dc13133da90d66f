//! The guarantees the repository gives across several operations,
//! stated over the model that every operation's contract names and
//! proved once and for all.

use vstd::prelude::*;

use crate::entities::Model;
use crate::model::{
    by_tour, contains_id, has_event_for, index_of_id, lemma_filter_exact, lemma_index_of_id,
    lemma_index_same_ids, lookup, tour_pred, RepoModel,
};
use crate::repository::{RepositoryError, RequestUpdate};

verus! {

/// A request that was just created can be read back: whenever `create`
/// succeeds, `get` of the returned row's id, on the store the create
/// left behind, returns exactly that row.
pub proof fn lemma_create_then_get(
    v: RepoModel,
    tour_id: i32,
    customer_id: i32,
    passengers: i32,
    wheelchairs: i32,
    luggage: i32,
)
    requires
        v.wf(),
    ensures
        ({
            let (v2, r) = v.spec_create(tour_id, customer_id, passengers, wheelchairs, luggage);
            r matches Ok(m) ==> v2.spec_get(m.id) == Ok::<Model, RepositoryError>(m)
        }),
{
    let (v2, r) = v.spec_create(tour_id, customer_id, passengers, wheelchairs, luggage);
    if r is Ok {
        let m = r->Ok_0;
        let n = v.requests.len() as int;
        assert(v2.requests[n] == m);
        assert(contains_id(v2.requests, m.id));
        lemma_index_of_id(v2.requests, m.id);
        let idx = index_of_id(v2.requests, m.id);
        if idx < n {
            assert(v2.requests[idx] == v.requests[idx]);
            assert(v.requests[idx].id < v.next_id);
        }
        assert(idx == n);
    }
}

/// A create against a missing tour or customer always fails with
/// `ReferentialIntegrity` and persists no row: the store it leaves
/// behind is the store it found, whatever the other arguments hold.
pub proof fn lemma_create_referential(
    v: RepoModel,
    tour_id: i32,
    customer_id: i32,
    passengers: i32,
    wheelchairs: i32,
    luggage: i32,
)
    requires
        !v.tours.contains(tour_id) || !v.users.contains(customer_id),
    ensures
        v.spec_create(tour_id, customer_id, passengers, wheelchairs, luggage) == (
            v,
            Err::<Model, RepositoryError>(RepositoryError::ReferentialIntegrity),
        ),
{
}

/// A deleted request cannot be read back: whenever `delete` succeeds,
/// `get` of the same id on the store it left behind fails with
/// `NotFound`; and when the delete itself found no row, a get finds
/// none either.
pub proof fn lemma_delete_then_get(v: RepoModel, id: i32)
    requires
        v.wf(),
    ensures
        ({
            let (v2, r) = v.spec_delete(id);
            &&& r is Ok ==> v2.spec_get(id) == Err::<Model, RepositoryError>(
                RepositoryError::NotFound,
            )
            &&& r == Err::<(), RepositoryError>(RepositoryError::NotFound) ==> v2.spec_get(id)
                == Err::<Model, RepositoryError>(RepositoryError::NotFound)
        }),
{
    if contains_id(v.requests, id) && !has_event_for(v.events, id) {
        lemma_index_of_id(v.requests, id);
        let idx = index_of_id(v.requests, id);
        let s2 = v.requests.remove(idx);
        v.requests.remove_ensures(idx);
        assert forall|k: int| 0 <= k < s2.len() implies s2[k].id != id by {
            if k < idx {
                assert(s2[k] == v.requests[k]);
                assert(v.requests[k].id != v.requests[idx].id);
            } else {
                assert(s2[k] == v.requests[k + 1]);
                assert(v.requests[idx].id != v.requests[k + 1].id);
            }
        }
        assert(!contains_id(s2, id));
    }
}

/// `list_by_tour` returns exactly the requests booked on the tour: a
/// row stands in the listing if and only if it stands in the table and
/// its `tour` field is the tour asked for. Together with the exact
/// listing order of the `list_by_tour` contract, the listing is the
/// whole answer, in a stable order, for every tour, the empty listing
/// for a tour with no requests included.
pub proof fn lemma_list_by_tour_exact(s: Seq<Model>, t: i32, m: Model)
    ensures
        by_tour(s, t).contains(m) <==> (s.contains(m) && m.tour == t),
{
    lemma_filter_exact(s, tour_pred(t), m);
}

/// A partial update touches exactly the fields the patch carries:
/// whenever `update` succeeds, the returned row keeps the stored value
/// of every field the patch leaves out, `id` first of all; the row can
/// be read back; and no other request of the store moves at all.
pub proof fn lemma_update_targets_only(v: RepoModel, id: i32, patch: RequestUpdate)
    requires
        v.wf(),
    ensures
        ({
            let (v2, r) = v.spec_update(id, patch);
            r matches Ok(m2) ==> {
                &&& lookup(v.requests, id) matches Some(m) ==> {
                    &&& m2.id == m.id && m2.id == id
                    &&& patch.tour is None ==> m2.tour == m.tour
                    &&& patch.customer is None ==> m2.customer == m.customer
                    &&& patch.passengers is None ==> m2.passengers == m.passengers
                    &&& patch.wheelchairs is None ==> m2.wheelchairs == m.wheelchairs
                    &&& patch.luggage is None ==> m2.luggage == m.luggage
                }
                &&& v2.spec_get(id) == Ok::<Model, RepositoryError>(m2)
                &&& forall|other: i32| other != id ==> v2.spec_get(other) == v.spec_get(other)
            }
        }),
{
    let (v2, r) = v.spec_update(id, patch);
    if r is Ok {
        let m2 = r->Ok_0;
        lemma_index_of_id(v.requests, id);
        let idx = index_of_id(v.requests, id);
        assert forall|k: int| 0 <= k < v.requests.len() implies (#[trigger] v.requests[k]).id
            == v2.requests[k].id by {
            if k == idx {
                assert(v2.requests[k] == m2);
            }
        }
        lemma_index_same_ids(v.requests, v2.requests, id);
        assert(v2.spec_get(id) == Ok::<Model, RepositoryError>(m2));
        assert forall|other: i32| other != id implies v2.spec_get(other) == v.spec_get(other) by {
            lemma_index_same_ids(v.requests, v2.requests, other);
            if contains_id(v.requests, other) {
                lemma_index_of_id(v.requests, other);
                let ox = index_of_id(v.requests, other);
                assert(v.requests[ox].id == other);
                assert(ox != idx);
                assert(v2.requests[ox] == v.requests[ox]);
            }
        }
    }
}

} // verus!
