use room_registry::{Booking, Contract, RegisteredRoom, Room, UsageStatus};

fn s(x: &str) -> String {
    x.to_string()
}

fn register(c: &mut Contract, owner: &str, name: &str, beds: u8, price: u128) {
    c.add_room_to_owner(s(owner), s(name), s("img"), beds, s("desc"), s("loc"), price);
}

#[test]
fn alice_registers_sunset() {
    let mut c = Contract::default();
    c.add_room_to_owner(
        s("alice"),
        s("Sunset"),
        s("https://example.com/sunset.png"),
        2,
        s("Sea view"),
        s("Kamakura"),
        100,
    );
    assert!(c.room_exists(s("alice"), s("Sunset")));
    let rooms = c.get_rooms_registered_by_owner(s("alice"));
    assert_eq!(rooms.len(), 1);
    assert_eq!(rooms[0].name, "Sunset");
    assert_eq!(rooms[0].image, "https://example.com/sunset.png");
    assert_eq!(rooms[0].beds, 2);
    assert_eq!(rooms[0].description, "Sea view");
    assert_eq!(rooms[0].location, "Kamakura");
    assert_eq!(rooms[0].price, 100);
    assert_eq!(rooms[0].status, UsageStatus::Available);
}

#[test]
fn unregistered_room_does_not_exist() {
    let mut c = Contract::new();
    assert!(!c.room_exists(s("alice"), s("Sunset")));
    register(&mut c, "alice", "Sunrise", 1, 10);
    register(&mut c, "bob", "Sunset", 1, 10);
    assert!(!c.room_exists(s("alice"), s("Sunset")));
    assert!(!c.room_exists(s(""), s("")));
}

#[test]
fn registered_room_exists() {
    let mut c = Contract::new();
    register(&mut c, "carol", "Loft", 3, 250);
    assert!(c.room_exists(s("carol"), s("Loft")));
    assert!(!c.room_exists(s("carol"), s("loft")));
}

#[test]
fn owner_without_rooms_lists_nothing() {
    let mut c = Contract::new();
    assert!(c.get_rooms_registered_by_owner(s("dave")).is_empty());
    register(&mut c, "erin", "Cabin", 4, 80);
    assert!(c.get_rooms_registered_by_owner(s("dave")).is_empty());
}

#[test]
fn listing_keeps_registration_order() {
    let mut c = Contract::new();
    register(&mut c, "alice", "R1", 1, 10);
    register(&mut c, "alice", "R2", 2, 20);
    let rooms = c.get_rooms_registered_by_owner(s("alice"));
    let expected = vec![
        RegisteredRoom {
            name: s("R1"),
            image: s("img"),
            beds: 1,
            description: s("desc"),
            location: s("loc"),
            price: 10,
            status: UsageStatus::Available,
        },
        RegisteredRoom {
            name: s("R2"),
            image: s("img"),
            beds: 2,
            description: s("desc"),
            location: s("loc"),
            price: 20,
            status: UsageStatus::Available,
        },
    ];
    assert_eq!(rooms, expected);
}

#[test]
fn reregistration_overwrites_and_lists_twice() {
    let mut c = Contract::new();
    register(&mut c, "alice", "Sunset", 2, 100);
    register(&mut c, "alice", "Sunset", 5, 300);
    assert!(c.room_exists(s("alice"), s("Sunset")));
    let rooms = c.get_rooms_registered_by_owner(s("alice"));
    assert_eq!(rooms.len(), 2);
    for room in rooms.iter() {
        assert_eq!(room.name, "Sunset");
        assert_eq!(room.beds, 5);
        assert_eq!(room.price, 300);
    }
}

#[test]
fn different_owners_same_name_are_distinct() {
    let mut c = Contract::new();
    register(&mut c, "alice", "Sunset", 2, 100);
    assert!(!c.room_exists(s("bob"), s("Sunset")));
    register(&mut c, "bob", "Sunset", 6, 900);
    let alice = c.get_rooms_registered_by_owner(s("alice"));
    let bob = c.get_rooms_registered_by_owner(s("bob"));
    assert_eq!(alice.len(), 1);
    assert_eq!(bob.len(), 1);
    assert_eq!(alice[0].beds, 2);
    assert_eq!(alice[0].price, 100);
    assert_eq!(bob[0].beds, 6);
    assert_eq!(bob[0].price, 900);
}

#[test]
fn identifier_is_plain_concatenation() {
    let mut c = Contract::new();
    register(&mut c, "a", "bc", 1, 1);
    assert!(c.room_exists(s("ab"), s("c")));
    assert!(c.room_exists(s("abc"), s("")));
    assert!(c.get_rooms_registered_by_owner(s("ab")).is_empty());
}

#[test]
fn zero_beds_and_largest_price_are_kept() {
    let mut c = Contract::new();
    register(&mut c, "frank", "Closet", 0, u128::MAX);
    let rooms = c.get_rooms_registered_by_owner(s("frank"));
    assert_eq!(rooms.len(), 1);
    assert_eq!(rooms[0].beds, 0);
    assert_eq!(rooms[0].price, u128::MAX);
}

#[test]
fn empty_strings_are_accepted() {
    let mut c = Contract::new();
    c.add_room_to_owner(s(""), s(""), s(""), 1, s(""), s(""), 0);
    assert!(c.room_exists(s(""), s("")));
    let rooms = c.get_rooms_registered_by_owner(s(""));
    assert_eq!(rooms.len(), 1);
    assert_eq!(rooms[0].name, "");
}

#[test]
fn stay_status_is_copied_with_its_date() {
    let status = UsageStatus::Stay { check_in_date: s("2024-05-01") };
    assert_eq!(status.duplicate(), UsageStatus::Stay { check_in_date: s("2024-05-01") });
    assert_eq!(UsageStatus::Available.duplicate(), UsageStatus::Available);
}

#[test]
fn projection_drops_owner_and_bookings() {
    let mut room = Room::new(s("alice"), s("Sunset"), s("img"), 2, s("desc"), s("loc"), 100);
    assert_eq!(room.owner_id, "alice");
    assert_eq!(room.status, UsageStatus::Available);
    assert!(room.booked_info.is_empty());
    room.status = UsageStatus::Stay { check_in_date: s("2024-05-01") };
    room.booked_info.push(Booking { check_in_date: s("2024-05-01"), account_id: s("bob") });
    let listed = room.to_registered();
    assert_eq!(
        listed,
        RegisteredRoom {
            name: s("Sunset"),
            image: s("img"),
            beds: 2,
            description: s("desc"),
            location: s("loc"),
            price: 100,
            status: UsageStatus::Stay { check_in_date: s("2024-05-01") },
        }
    );
}
