use gallery_api::seed::{find_id, seed_artifacts, seed_artists, seed_tribes, Seeded};

fn seeded(names: &[&str]) -> Vec<Seeded> {
    names.iter().enumerate().map(|(i, n)| Seeded { id: (i as u128) + 100, name: n.to_string() }).collect()
}

#[test]
fn find_id_takes_the_first_match() {
    let rows = vec![
        Seeded { id: 1, name: "Tiwi".into() },
        Seeded { id: 2, name: "Yolngu".into() },
        Seeded { id: 3, name: "Tiwi".into() },
    ];
    assert_eq!(find_id(&rows, "Tiwi"), Some(1));
    assert_eq!(find_id(&rows, "Yolngu"), Some(2));
    assert_eq!(find_id(&rows, "tiwi"), None);
    assert_eq!(find_id(&Vec::new(), "Tiwi"), None);
}

#[test]
fn seed_data_is_linked_by_name() {
    let tribes = seed_tribes();
    let names: Vec<_> = tribes.iter().map(|t| t.name.clone()).collect();
    assert_eq!(names, ["Pintupi", "Yolngu", "Anmatyerre", "Arrernte", "Tiwi"]);
    assert!(tribes.iter().all(|t| t.validate().is_ok()));

    let tribe_rows = seeded(&["Pintupi", "Yolngu", "Anmatyerre", "Arrernte", "Tiwi"]);
    let artists = seed_artists(&tribe_rows);
    assert_eq!(artists.len(), 8);
    assert_eq!(artists[0].display_name, "Emily Kame Kngwarreye");
    assert_eq!(artists[0].tribe_id, Some(102));
    assert_eq!(artists[2].display_name, "Rover Thomas");
    assert_eq!(artists[2].tribe_id, None);
    assert_eq!(artists[7].tribe_id, Some(104));
    assert!(artists.iter().all(|a| a.validate().is_ok()));

    let artist_rows = seeded(&artists.iter().map(|a| a.display_name.as_str()).collect::<Vec<_>>());
    let works = seed_artifacts(&artist_rows).unwrap();
    assert_eq!(works.len(), 7);
    assert_eq!(works[0].title, "Earth's Creation");
    assert_eq!(works[0].artist_id, 100);
    assert_eq!(works[4].title, "Marrapinti");
    assert_eq!(works[4].artist_id, 105);
    assert!(works.iter().all(|w| w.validate().is_ok()));
}

#[test]
fn seeding_stops_at_a_missing_artist() {
    let partial = seeded(&["Emily Kame Kngwarreye", "Albert Namatjira"]);
    assert_eq!(seed_artifacts(&partial).err(), Some("seed: missing artist Rover Thomas".to_string()));
    let unaffiliated = seed_artists(&Vec::new());
    assert!(unaffiliated.iter().all(|a| a.tribe_id.is_none()));
}
