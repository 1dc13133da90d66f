//! Tests of the request repository: the booking scenarios, each error
//! variant, and one concrete case for each law the library proves.

use request_repo::entities::{EventModel, Model};
use request_repo::repository::{RepositoryError, RequestRepository, RequestUpdate};

fn seeded() -> RequestRepository {
    let mut repo = RequestRepository::new();
    repo.add_tour(1);
    repo.add_tour(2);
    repo.add_user(1);
    repo.add_user(2);
    repo
}

#[test]
fn create_assigns_ids_from_one() {
    let mut repo = seeded();
    let first = repo.create(1, 1, 3, 1, 2).unwrap();
    let second = repo.create(2, 2, 1, 0, 0).unwrap();
    assert_eq!(first.id, 1);
    assert_eq!(second.id, 2);
    assert_eq!(
        first,
        Model { id: 1, tour: 1, customer: 1, passengers: 3, wheelchairs: 1, luggage: 2 }
    );
}

#[test]
fn get_returns_what_create_persisted() {
    let mut repo = seeded();
    let created = repo.create(1, 2, 4, 0, 3).unwrap();
    assert_eq!(repo.get(created.id), Ok(created));
}

#[test]
fn create_with_missing_tour_fails_and_persists_nothing() {
    let mut repo = seeded();
    assert_eq!(
        repo.create(999, 1, 3, 1, 2),
        Err(RepositoryError::ReferentialIntegrity)
    );
    assert_eq!(repo.get(1), Err(RepositoryError::NotFound));
    assert_eq!(repo.list_by_tour(999), vec![]);
    // The next create still gets the first id: nothing was persisted.
    assert_eq!(repo.create(1, 1, 0, 0, 0).unwrap().id, 1);
}

#[test]
fn create_with_missing_customer_fails() {
    let mut repo = seeded();
    assert_eq!(
        repo.create(1, 999, 3, 1, 2),
        Err(RepositoryError::ReferentialIntegrity)
    );
}

#[test]
fn create_rejects_each_negative_count() {
    let mut repo = seeded();
    assert_eq!(repo.create(1, 1, -1, 0, 0), Err(RepositoryError::Validation));
    assert_eq!(repo.create(1, 1, 0, -1, 0), Err(RepositoryError::Validation));
    assert_eq!(repo.create(1, 1, 0, 0, -1), Err(RepositoryError::Validation));
}

#[test]
fn missing_parent_wins_over_negative_count() {
    let mut repo = seeded();
    assert_eq!(
        repo.create(999, 1, -1, 0, 0),
        Err(RepositoryError::ReferentialIntegrity)
    );
}

#[test]
fn get_of_unknown_id_fails() {
    let repo = seeded();
    assert_eq!(repo.get(7), Err(RepositoryError::NotFound));
}

#[test]
fn delete_then_get_fails_with_not_found() {
    let mut repo = seeded();
    let created = repo.create(1, 1, 2, 0, 1).unwrap();
    assert_eq!(repo.delete(created.id), Ok(()));
    assert_eq!(repo.get(created.id), Err(RepositoryError::NotFound));
}

#[test]
fn delete_of_unknown_id_fails() {
    let mut repo = seeded();
    assert_eq!(repo.delete(3), Err(RepositoryError::NotFound));
}

#[test]
fn delete_blocked_by_dependent_events() {
    let mut repo = seeded();
    let created = repo.create(1, 1, 2, 0, 0).unwrap();
    repo.add_event(10, created.id).unwrap();
    assert_eq!(
        repo.delete(created.id),
        Err(RepositoryError::ReferentialIntegrity)
    );
    // The request is still there.
    assert_eq!(repo.get(created.id), Ok(created));
}

#[test]
fn deleted_ids_are_never_reused() {
    let mut repo = seeded();
    let first = repo.create(1, 1, 1, 0, 0).unwrap();
    assert_eq!(first.id, 1);
    repo.delete(first.id).unwrap();
    let second = repo.create(1, 1, 1, 0, 0).unwrap();
    assert_eq!(second.id, 2);
}

#[test]
fn list_by_tour_returns_exactly_the_tours_requests_in_order() {
    let mut repo = seeded();
    let a = repo.create(1, 1, 1, 0, 0).unwrap();
    let b = repo.create(2, 1, 2, 0, 0).unwrap();
    let c = repo.create(1, 2, 3, 0, 0).unwrap();
    assert_eq!(repo.list_by_tour(1), vec![a, c]);
    assert_eq!(repo.list_by_tour(2), vec![b]);
    // A tour with no requests gives the empty listing.
    repo.add_tour(3);
    assert_eq!(repo.list_by_tour(3), vec![]);
    // Re-querying gives the same listing: the order is stable.
    assert_eq!(repo.list_by_tour(1), vec![a, c]);
}

#[test]
fn list_by_customer_returns_exactly_the_customers_requests() {
    let mut repo = seeded();
    let a = repo.create(1, 1, 1, 0, 0).unwrap();
    let b = repo.create(2, 2, 2, 0, 0).unwrap();
    let c = repo.create(2, 1, 3, 0, 0).unwrap();
    assert_eq!(repo.list_by_customer(1), vec![a, c]);
    assert_eq!(repo.list_by_customer(2), vec![b]);
    assert_eq!(repo.list_by_customer(9), vec![]);
}

#[test]
fn list_events_returns_the_requests_events_in_order() {
    let mut repo = seeded();
    let a = repo.create(1, 1, 1, 0, 0).unwrap();
    let b = repo.create(1, 1, 1, 0, 0).unwrap();
    repo.add_event(100, a.id).unwrap();
    repo.add_event(101, b.id).unwrap();
    repo.add_event(102, a.id).unwrap();
    assert_eq!(
        repo.list_events(a.id),
        vec![
            EventModel { id: 100, request: a.id },
            EventModel { id: 102, request: a.id }
        ]
    );
    assert_eq!(repo.list_events(b.id), vec![EventModel { id: 101, request: b.id }]);
    assert_eq!(repo.list_events(99), vec![]);
}

#[test]
fn add_event_requires_an_existing_request() {
    let mut repo = seeded();
    assert_eq!(
        repo.add_event(100, 42),
        Err(RepositoryError::ReferentialIntegrity)
    );
}

#[test]
fn update_of_passengers_changes_only_that_field() {
    let mut repo = seeded();
    let created = repo.create(1, 2, 3, 1, 2).unwrap();
    let other = repo.create(2, 1, 5, 0, 0).unwrap();
    let patch = RequestUpdate { passengers: Some(7), ..RequestUpdate::none() };
    let updated = repo.update(created.id, patch).unwrap();
    assert_eq!(
        updated,
        Model { id: created.id, tour: 1, customer: 2, passengers: 7, wheelchairs: 1, luggage: 2 }
    );
    assert_eq!(repo.get(created.id), Ok(updated));
    // The other request did not move at all.
    assert_eq!(repo.get(other.id), Ok(other));
}

#[test]
fn update_can_reassign_tour_and_customer() {
    let mut repo = seeded();
    let created = repo.create(1, 1, 3, 0, 0).unwrap();
    let patch = RequestUpdate { tour: Some(2), customer: Some(2), ..RequestUpdate::none() };
    let updated = repo.update(created.id, patch).unwrap();
    assert_eq!(updated.tour, 2);
    assert_eq!(updated.customer, 2);
    assert_eq!(updated.id, created.id);
    assert_eq!(repo.list_by_tour(1), vec![]);
    assert_eq!(repo.list_by_tour(2), vec![updated]);
}

#[test]
fn update_of_unknown_id_fails() {
    let mut repo = seeded();
    let patch = RequestUpdate { passengers: Some(1), ..RequestUpdate::none() };
    assert_eq!(repo.update(5, patch), Err(RepositoryError::NotFound));
}

#[test]
fn update_to_missing_tour_fails_and_changes_nothing() {
    let mut repo = seeded();
    let created = repo.create(1, 1, 3, 0, 0).unwrap();
    let patch = RequestUpdate { tour: Some(999), ..RequestUpdate::none() };
    assert_eq!(
        repo.update(created.id, patch),
        Err(RepositoryError::ReferentialIntegrity)
    );
    assert_eq!(repo.get(created.id), Ok(created));
}

#[test]
fn update_to_negative_count_fails_and_changes_nothing() {
    let mut repo = seeded();
    let created = repo.create(1, 1, 3, 0, 0).unwrap();
    let patch = RequestUpdate { luggage: Some(-2), ..RequestUpdate::none() };
    assert_eq!(repo.update(created.id, patch), Err(RepositoryError::Validation));
    assert_eq!(repo.get(created.id), Ok(created));
}

#[test]
fn booking_scenario_create_list_delete() {
    let mut repo = RequestRepository::new();
    repo.add_tour(1);
    repo.add_user(1);
    let created = repo.create(1, 1, 3, 1, 2).unwrap();
    assert_eq!(
        created,
        Model { id: 1, tour: 1, customer: 1, passengers: 3, wheelchairs: 1, luggage: 2 }
    );
    assert_eq!(repo.list_by_tour(1), vec![created]);
    repo.delete(1).unwrap();
    assert_eq!(repo.list_by_tour(1), vec![]);
}

#[test]
fn booking_scenario_missing_tour() {
    let mut repo = RequestRepository::new();
    repo.add_user(1);
    assert_eq!(
        repo.create(999, 1, 3, 1, 2),
        Err(RepositoryError::ReferentialIntegrity)
    );
}
