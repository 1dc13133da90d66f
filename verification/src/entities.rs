//! Row types for the `request` table and the related tables it references.

use vstd::prelude::*;

verus! {

/// One row of the `request` table: a booking of seats on a tour.
///
/// `tour` and `customer` are foreign keys into the `tour` and `user`
/// tables; neither cascades on update or delete of its parent. The three
/// count fields are free integers at the schema level; the repository
/// rejects negative values on write.
#[derive(Clone, Copy, Debug, PartialEq, Eq, Structural)]
pub struct Model {
    /// Primary key, assigned once at creation and never reused.
    pub id: i32,
    /// Foreign key: the tour this request books seats on.
    pub tour: i32,
    /// Foreign key: the user placing the request.
    pub customer: i32,
    /// Number of passengers requested.
    pub passengers: i32,
    /// Number of wheelchair-accessible seats required.
    pub wheelchairs: i32,
    /// Count of luggage items.
    pub luggage: i32,
}

/// The relations a request row takes part in.
///
/// A request belongs to exactly one tour and one customer, and a request
/// may accumulate any number of event records over its lifetime. Each
/// relation is served by its own repository method: `list_by_tour`,
/// `list_by_customer` and `list_events`.
#[derive(Copy, Clone, Debug)]
pub enum Relation {
    /// One request has many events.
    Event,
    /// Many requests belong to one tour.
    Tour,
    /// Many requests belong to one user acting as customer.
    User,
}

/// One row of the `event` table, as far as this repository reads it:
/// its primary key and its foreign key back into the `request` table.
/// The event subsystem owns the rest of the row.
#[derive(Clone, Copy, Debug, PartialEq, Eq, Structural)]
pub struct EventModel {
    /// Primary key of the event row.
    pub id: i32,
    /// Foreign key: the request this event belongs to.
    pub request: i32,
}

} // verus!
