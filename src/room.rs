use vstd::prelude::*;

verus! {

/// Whether a room is free, or reserved from a check-in date on.
#[derive(Debug, PartialEq, Eq)]
pub enum UsageStatus {
    Available,
    Stay { check_in_date: String },
}

/// A usage status as a value of the model.
pub enum StatusView {
    Available,
    Stay { check_in_date: Seq<char> },
}

impl DeepView for UsageStatus {
    type V = StatusView;

    open spec fn deep_view(&self) -> StatusView {
        match self {
            UsageStatus::Available => StatusView::Available,
            UsageStatus::Stay { check_in_date } => StatusView::Stay {
                check_in_date: check_in_date@,
            },
        }
    }
}

impl UsageStatus {
    /// A copy of this status, carrying the check-in date along.
    pub fn duplicate(&self) -> (r: UsageStatus)
        ensures
            r.deep_view() == self.deep_view(),
    {
        match self {
            UsageStatus::Available => UsageStatus::Available,
            UsageStatus::Stay { check_in_date } => UsageStatus::Stay {
                check_in_date: check_in_date.clone(),
            },
        }
    }
}

/// A check-in date and the account that booked the room for it. No
/// operation of the registry books a room yet: the list stays empty.
pub struct Booking {
    pub check_in_date: String,
    pub account_id: String,
}

impl DeepView for Booking {
    type V = (Seq<char>, Seq<char>);

    open spec fn deep_view(&self) -> (Seq<char>, Seq<char>) {
        (self.check_in_date@, self.account_id@)
    }
}

/// The full record of a room, as the room store holds it.
pub struct Room {
    pub name: String,
    pub owner_id: String,
    pub image: String,
    pub beds: u8,
    pub description: String,
    pub location: String,
    pub price: u128,
    pub status: UsageStatus,
    pub booked_info: Vec<Booking>,
}

/// A room record as a value of the model.
pub struct RoomView {
    pub name: Seq<char>,
    pub owner_id: Seq<char>,
    pub image: Seq<char>,
    pub beds: u8,
    pub description: Seq<char>,
    pub location: Seq<char>,
    pub price: u128,
    pub status: StatusView,
    pub booked_info: Seq<(Seq<char>, Seq<char>)>,
}

impl DeepView for Room {
    type V = RoomView;

    open spec fn deep_view(&self) -> RoomView {
        RoomView {
            name: self.name@,
            owner_id: self.owner_id@,
            image: self.image@,
            beds: self.beds,
            description: self.description@,
            location: self.location@,
            price: self.price,
            status: self.status.deep_view(),
            booked_info: self.booked_info.deep_view(),
        }
    }
}

/// What a room listing shows of a room: the record without its owner and
/// its bookings.
#[derive(Debug, PartialEq, Eq)]
pub struct RegisteredRoom {
    pub name: String,
    pub image: String,
    pub beds: u8,
    pub description: String,
    pub location: String,
    pub price: u128,
    pub status: UsageStatus,
}

/// A listing entry as a value of the model.
pub struct RegisteredView {
    pub name: Seq<char>,
    pub image: Seq<char>,
    pub beds: u8,
    pub description: Seq<char>,
    pub location: Seq<char>,
    pub price: u128,
    pub status: StatusView,
}

impl DeepView for RegisteredRoom {
    type V = RegisteredView;

    open spec fn deep_view(&self) -> RegisteredView {
        RegisteredView {
            name: self.name@,
            image: self.image@,
            beds: self.beds,
            description: self.description@,
            location: self.location@,
            price: self.price,
            status: self.status.deep_view(),
        }
    }
}

/// The listing entry for a room record.
pub open spec fn project(r: RoomView) -> RegisteredView {
    RegisteredView {
        name: r.name,
        image: r.image,
        beds: r.beds,
        description: r.description,
        location: r.location,
        price: r.price,
        status: r.status,
    }
}

impl Room {
    /// The record of a newly registered room: available, with no bookings.
    pub open spec fn fresh(
        owner_id: Seq<char>,
        name: Seq<char>,
        image: Seq<char>,
        beds: u8,
        description: Seq<char>,
        location: Seq<char>,
        price: u128,
    ) -> RoomView {
        RoomView {
            name,
            owner_id,
            image,
            beds,
            description,
            location,
            price,
            status: StatusView::Available,
            booked_info: Seq::empty(),
        }
    }

    pub fn new(
        owner_id: String,
        name: String,
        image: String,
        beds: u8,
        description: String,
        location: String,
        price: u128,
    ) -> (r: Room)
        ensures
            r.deep_view() == Room::fresh(
                owner_id@,
                name@,
                image@,
                beds,
                description@,
                location@,
                price,
            ),
    {
        let r = Room {
            name,
            owner_id,
            image,
            beds,
            description,
            location,
            price,
            status: UsageStatus::Available,
            booked_info: Vec::new(),
        };
        assert(r.booked_info.deep_view() =~= Seq::<(Seq<char>, Seq<char>)>::empty());
        r
    }

    /// The listing entry for this room.
    pub fn to_registered(&self) -> (r: RegisteredRoom)
        ensures
            r.deep_view() == project(self.deep_view()),
    {
        RegisteredRoom {
            name: self.name.clone(),
            image: self.image.clone(),
            beds: self.beds,
            description: self.description.clone(),
            location: self.location.clone(),
            price: self.price,
            status: self.status.duplicate(),
        }
    }
}

} // verus!
