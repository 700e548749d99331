use boberplayer::error::StoreError;
use boberplayer::names::{chars_of, name_precedes};
use boberplayer::servers::{IpAddress, Server, ServerDatabase};
use boberplayer::store::WellFormed;

fn v4(a: u8, b: u8, c: u8, d: u8) -> IpAddress {
    IpAddress::V4(u32::from_be_bytes([a, b, c, d]))
}

fn names(db: &ServerDatabase) -> Vec<String> {
    db.servers.iter().map(|s| s.name.clone()).collect()
}

#[test]
fn add_keeps_first_address_of_a_name() {
    let mut db = ServerDatabase::default();
    assert_eq!(db.add_server("alpha".to_string(), Some(v4(10, 0, 0, 1))), Ok(()));
    assert_eq!(db.add_server("beta".to_string(), Some(v4(10, 0, 0, 2))), Ok(()));
    assert_eq!(db.add_server("alpha".to_string(), Some(v4(10, 0, 0, 9))), Ok(()));
    assert_eq!(
        db.servers,
        vec![
            Server::new(v4(10, 0, 0, 1), "alpha".to_string()),
            Server::new(v4(10, 0, 0, 2), "beta".to_string()),
        ]
    );
}

#[test]
fn add_inserts_in_name_order() {
    let mut db = ServerDatabase::default();
    for name in ["mike", "alpha", "zulu", "bravo", "november"] {
        assert_eq!(db.add_server(name.to_string(), Some(v4(192, 168, 0, 1))), Ok(()));
        assert!(db.is_well_formed());
    }
    assert_eq!(names(&db), vec!["alpha", "bravo", "mike", "november", "zulu"]);
}

#[test]
fn add_without_address_reports_parse_error() {
    let mut db = ServerDatabase::default();
    db.add_server("alpha".to_string(), Some(v4(10, 0, 0, 1))).unwrap();
    assert_eq!(db.add_server("beta".to_string(), None), Err(StoreError::AddressParseError));
    assert_eq!(names(&db), vec!["alpha"]);
}

#[test]
fn add_accepts_ipv6() {
    let mut db = ServerDatabase::default();
    db.add_server("six".to_string(), Some(IpAddress::V6(1))).unwrap();
    assert_eq!(db.servers, vec![Server::new(IpAddress::V6(1), "six".to_string())]);
}

#[test]
fn find_gives_index_or_insertion_point() {
    let mut db = ServerDatabase::default();
    for name in ["b", "d", "f"] {
        db.add_server(name.to_string(), Some(v4(1, 1, 1, 1))).unwrap();
    }
    assert_eq!(db.find("b"), Ok(0));
    assert_eq!(db.find("d"), Ok(1));
    assert_eq!(db.find("f"), Ok(2));
    assert_eq!(db.find("a"), Err(0));
    assert_eq!(db.find("c"), Err(1));
    assert_eq!(db.find("e"), Err(2));
    assert_eq!(db.find("g"), Err(3));
    assert_eq!(ServerDatabase::default().find("x"), Err(0));
}

#[test]
fn modify_moves_renamed_server_to_its_place() {
    let mut db = ServerDatabase::default();
    for name in ["alpha", "beta", "gamma"] {
        db.add_server(name.to_string(), Some(v4(10, 0, 0, 1))).unwrap();
    }
    assert_eq!(
        db.modify_server("alpha".to_string(), "zeta".to_string(), Some(v4(10, 0, 0, 7))),
        Ok(())
    );
    assert!(db.is_well_formed());
    assert_eq!(
        db.servers,
        vec![
            Server::new(v4(10, 0, 0, 1), "beta".to_string()),
            Server::new(v4(10, 0, 0, 1), "gamma".to_string()),
            Server::new(v4(10, 0, 0, 7), "zeta".to_string()),
        ]
    );
}

#[test]
fn modify_same_name_changes_address() {
    let mut db = ServerDatabase::default();
    db.add_server("alpha".to_string(), Some(v4(10, 0, 0, 1))).unwrap();
    db.add_server("beta".to_string(), Some(v4(10, 0, 0, 2))).unwrap();
    db.modify_server("beta".to_string(), "beta".to_string(), Some(v4(10, 0, 0, 3))).unwrap();
    assert_eq!(
        db.servers,
        vec![
            Server::new(v4(10, 0, 0, 1), "alpha".to_string()),
            Server::new(v4(10, 0, 0, 3), "beta".to_string()),
        ]
    );
}

#[test]
fn modify_onto_taken_name_keeps_the_holder() {
    let mut db = ServerDatabase::default();
    db.add_server("alpha".to_string(), Some(v4(10, 0, 0, 1))).unwrap();
    db.add_server("beta".to_string(), Some(v4(10, 0, 0, 2))).unwrap();
    db.modify_server("alpha".to_string(), "beta".to_string(), Some(v4(10, 0, 0, 3))).unwrap();
    assert!(db.is_well_formed());
    assert_eq!(db.servers, vec![Server::new(v4(10, 0, 0, 2), "beta".to_string())]);
}

#[test]
fn modify_unknown_name_is_no_error() {
    let mut db = ServerDatabase::default();
    db.add_server("alpha".to_string(), Some(v4(10, 0, 0, 1))).unwrap();
    assert_eq!(
        db.modify_server("nobody".to_string(), "beta".to_string(), Some(v4(10, 0, 0, 2))),
        Ok(())
    );
    assert_eq!(db.servers, vec![Server::new(v4(10, 0, 0, 1), "alpha".to_string())]);
}

#[test]
fn modify_without_address_reports_parse_error() {
    let mut db = ServerDatabase::default();
    db.add_server("alpha".to_string(), Some(v4(10, 0, 0, 1))).unwrap();
    assert_eq!(
        db.modify_server("alpha".to_string(), "beta".to_string(), None),
        Err(StoreError::AddressParseError)
    );
    assert_eq!(db.servers, vec![Server::new(v4(10, 0, 0, 1), "alpha".to_string())]);
}

#[test]
fn remove_takes_out_the_named_server_only() {
    let mut db = ServerDatabase::default();
    for name in ["alpha", "beta", "gamma"] {
        db.add_server(name.to_string(), Some(v4(10, 0, 0, 1))).unwrap();
    }
    db.remove_server("beta".to_string());
    assert_eq!(names(&db), vec!["alpha", "gamma"]);
    db.remove_server("beta".to_string());
    assert_eq!(names(&db), vec!["alpha", "gamma"]);
    db.remove_server("alpha".to_string());
    db.remove_server("gamma".to_string());
    assert!(db.servers.is_empty());
}

#[test]
fn order_holds_after_a_mixed_sequence() {
    let mut db = ServerDatabase::default();
    db.add_server("delta".to_string(), Some(v4(1, 0, 0, 4))).unwrap();
    db.add_server("alpha".to_string(), Some(v4(1, 0, 0, 1))).unwrap();
    db.modify_server("delta".to_string(), "aardvark".to_string(), Some(v4(1, 0, 0, 5))).unwrap();
    db.add_server("charlie".to_string(), Some(v4(1, 0, 0, 3))).unwrap();
    db.remove_server("alpha".to_string());
    db.add_server("bravo".to_string(), Some(v4(1, 0, 0, 2))).unwrap();
    db.modify_server("charlie".to_string(), "alpha".to_string(), Some(v4(1, 0, 0, 6))).unwrap();
    assert!(db.is_well_formed());
    assert_eq!(names(&db), vec!["aardvark", "alpha", "bravo"]);
}

#[test]
fn well_formedness_is_detected() {
    let unsorted = ServerDatabase {
        servers: vec![
            Server::new(v4(1, 1, 1, 1), "b".to_string()),
            Server::new(v4(1, 1, 1, 1), "a".to_string()),
        ],
    };
    assert!(!unsorted.is_well_formed());
    let twice = ServerDatabase {
        servers: vec![
            Server::new(v4(1, 1, 1, 1), "a".to_string()),
            Server::new(v4(1, 1, 1, 2), "a".to_string()),
        ],
    };
    assert!(!twice.is_well_formed());
    let one = ServerDatabase { servers: vec![Server::new(v4(1, 1, 1, 1), "a".to_string())] };
    assert!(one.is_well_formed());
    assert!(ServerDatabase::default().is_well_formed());
}

#[test]
fn names_order_like_strings() {
    let samples = ["", "a", "ab", "abc", "abd", "b", "B", "é", "z", "zz", "日本", "10", "9"];
    for a in samples {
        for b in samples {
            assert_eq!(name_precedes(a, b), a < b, "{:?} before {:?}", a, b);
        }
    }
    assert!(name_precedes("alpha", "beta"));
    assert!(name_precedes("alpha", "alphabet"));
    assert!(!name_precedes("alpha", "alpha"));
    assert!(!name_precedes("beta", "alpha"));
}

#[test]
fn chars_are_taken_in_order() {
    assert_eq!(chars_of(""), Vec::<char>::new());
    assert_eq!(chars_of("abc"), vec!['a', 'b', 'c']);
    assert_eq!(chars_of("né日"), vec!['n', 'é', '日']);
}

#[test]
fn servers_order_by_name_then_address() {
    let a1 = Server::new(v4(10, 0, 0, 1), "alpha".to_string());
    let a2 = Server::new(v4(10, 0, 0, 2), "alpha".to_string());
    let b = Server::new(v4(1, 0, 0, 0), "beta".to_string());
    assert!(a1 < a2);
    assert!(a2 < b);
    assert!(IpAddress::V4(u32::MAX) < IpAddress::V6(0));
}
