use rm_query::error::QueryError;
use rm_query::{complete_query, query_api};
use rm_query::query_language::operand::{Operand, OperandEnum};
use rm_query::query_language::operation::{Operation, OperationEnum, Root};
use rm_query::query_language::operation_list::{OperationList, OperationListEvaluator};
use rm_query::rm_api::entities::{
    Character, CharacterPage, Episode, EpisodePage, Info, Location, LocationPage, Page,
};
use rm_query::rm_api::request::MockRequest;
use rm_query::rm_api::response::{RMResponse, RMResponseEnum};
use rm_query::sorting::SortKey;

fn text(s: &str) -> Operand {
    Operand(OperandEnum::String(s.to_string()))
}

fn number(n: u32) -> Operand {
    Operand(OperandEnum::Number(n))
}

fn contains(field: &str, value: &str) -> Operation {
    Operation(OperationEnum::Contains(text(field), text(value)))
}

fn sort(direction: &str, field: &str) -> Operation {
    Operation(OperationEnum::Sort(text(direction), text(field)))
}

fn limit(count: u32) -> Operation {
    Operation(OperationEnum::Limit(number(count)))
}

fn info(count: u32) -> Info {
    Info {
        count,
        pages: 1,
        next: None,
        prev: None,
    }
}

fn character(id: u32, name: &str, status: &str, species: &str) -> Character {
    Character {
        id,
        name: name.into(),
        status: status.into(),
        species: species.into(),
        ..Default::default()
    }
}

fn family() -> CharacterPage {
    Page {
        info: Info {
            count: 826,
            pages: 42,
            next: Some("https://rickandmortyapi.com/api/character/?page=2".into()),
            prev: None,
        },
        results: vec![
            character(1, "Rick Sanchez", "Alive", "Human"),
            character(2, "Morty Smith", "Alive", "Human"),
            character(3, "Summer Smith", "Alive", "Human"),
            character(4, "Beth Smith", "Alive", "Human"),
            character(8, "Adjudicator Rick", "Dead", "Human"),
            character(13, "Alien Googah", "unknown", "Alien"),
        ],
    }
}

fn names(page: &CharacterPage) -> Vec<String> {
    page.results.iter().map(|c| c.name.clone()).collect()
}

fn ids(page: &CharacterPage) -> Vec<u32> {
    page.results.iter().map(|c| c.id).collect()
}

fn characters_after(page: &CharacterPage, ops: Vec<Operation>) -> CharacterPage {
    page.after_all(&OperationList(ops)).unwrap()
}

#[test]
fn simple_root_query() {
    let query = "CHARACTERS::CONTAINS(name, xxxxxx)";
    let operation_list = OperationList::parse_str(query).unwrap();
    let mock_response = MockRequest.evaluate_op(&operation_list).unwrap();
    let evaluated_response = mock_response.evaluate_op(&operation_list).unwrap().0;

    match evaluated_response {
        RMResponseEnum::Characters(page) => {
            assert_eq!(page.results.len(), 0)
        }
        RMResponseEnum::Episodes(_) => panic!(),
        RMResponseEnum::Locations(_) => panic!(),
    }

    let query = "CHARACTERS::CONTAINS(name, Ri)";
    let operation_list = OperationList::parse_str(query).unwrap();
    let mock_response = MockRequest.evaluate_op(&operation_list).unwrap();
    let evaluated_response = mock_response.evaluate_op(&operation_list).unwrap().0;

    match evaluated_response {
        RMResponseEnum::Characters(page) => {
            assert_eq!(page.results.len(), 1)
        }
        RMResponseEnum::Episodes(_) => panic!(),
        RMResponseEnum::Locations(_) => panic!(),
    }
}

#[test]
fn single_contains_operation_characters() {
    let operation_list = OperationList(vec![Operation(OperationEnum::Contains(
        Operand(OperandEnum::String("name".into())),
        Operand(OperandEnum::String("xxxxx".into())),
    ))]);
    let response = RMResponse(RMResponseEnum::Characters(CharacterPage {
        info: Info {
            count: 1,
            pages: 1,
            next: None,
            prev: None,
        },
        results: vec![Character {
            name: "Rick Sanchez".into(),
            ..Default::default()
        }],
    }));

    let evaluated_response = response.evaluate_op(&operation_list).unwrap();

    match evaluated_response.0 {
        RMResponseEnum::Characters(page) => {
            assert_eq!(page.results.len(), 0);
        }
        _ => panic!(),
    }

    let operation_list = OperationList(vec![Operation(OperationEnum::Contains(
        Operand(OperandEnum::String("name".into())),
        Operand(OperandEnum::String("Rick".into())),
    ))]);

    let evaluated_response = response.evaluate_op(&operation_list).unwrap();
    match evaluated_response.0 {
        RMResponseEnum::Characters(page) => {
            assert_eq!(page.results.len(), 1);
        }
        _ => panic!(),
    }
}

#[test]
fn multiple_contains_operation_characters() {
    let operation_list = OperationList(vec![
        Operation(OperationEnum::Contains(
            Operand(OperandEnum::String("name".into())),
            Operand(OperandEnum::String("Rick".into())),
        )),
        Operation(OperationEnum::Contains(
            Operand(OperandEnum::String("status".into())),
            Operand(OperandEnum::String("Alive".into())),
        )),
    ]);

    let response = RMResponse(RMResponseEnum::Characters(CharacterPage {
        info: Info {
            count: 1,
            pages: 1,
            next: None,
            prev: None,
        },
        results: vec![Character {
            name: "Rick Sanchez".into(),
            status: "Alive".into(),
            ..Default::default()
        }],
    }));

    let evaluated_response = response.evaluate_op(&operation_list).unwrap();

    match evaluated_response.0 {
        RMResponseEnum::Characters(page) => {
            assert_eq!(page.results.len(), 1);
        }
        _ => panic!(),
    }

    let operation_list = OperationList(vec![
        Operation(OperationEnum::Contains(
            Operand(OperandEnum::String("name".into())),
            Operand(OperandEnum::String("Rick".into())),
        )),
        Operation(OperationEnum::Contains(
            Operand(OperandEnum::String("status".into())),
            Operand(OperandEnum::String("Dead".into())),
        )),
    ]);

    let evaluated_response = response.evaluate_op(&operation_list).unwrap();
    match evaluated_response.0 {
        RMResponseEnum::Characters(page) => {
            assert_eq!(page.results.len(), 0);
        }
        _ => panic!(),
    }
}

#[test]
fn sort_characters_by_name() {
    let response = RMResponse(RMResponseEnum::Characters(CharacterPage {
        info: info(2),
        results: vec![
            Character {
                name: "Rick Sanchez".into(),
                ..Default::default()
            },
            Character {
                name: "Morty Smith".into(),
                ..Default::default()
            },
        ],
    }));

    let evaluated_response = response
        .evaluate_op(&OperationList(vec![sort("ASC", "name")]))
        .unwrap();
    match evaluated_response.0 {
        RMResponseEnum::Characters(page) => {
            assert_eq!(page.results[0].name, "Morty Smith");
            assert_eq!(page.results[1].name, "Rick Sanchez");
        }
        _ => panic!(),
    }

    let evaluated_response = response
        .evaluate_op(&OperationList(vec![sort("DSC", "name")]))
        .unwrap();
    match evaluated_response.0 {
        RMResponseEnum::Characters(page) => {
            assert_eq!(page.results[0].name, "Rick Sanchez");
            assert_eq!(page.results[1].name, "Morty Smith");
        }
        _ => panic!(),
    }
}

#[test]
fn sort_with_an_unknown_direction_sorts_nothing() {
    let page = family();
    let after = characters_after(&page, vec![sort("name", "ASC")]);
    assert_eq!(after, page);
    let after = characters_after(&page, vec![sort("DESC", "name")]);
    assert_eq!(after, page);
    let after = characters_after(&page, vec![sort("asc", "name")]);
    assert_eq!(after, page);
}

#[test]
fn sort_operation_locations() {
    let operation_list = OperationList(vec![Operation(OperationEnum::Sort(
        Operand(OperandEnum::String("ASC".into())),
        Operand(OperandEnum::String("name".into())),
    ))]);

    let response = RMResponse(RMResponseEnum::Locations(LocationPage {
        info: Info {
            count: 2,
            pages: 1,
            next: None,
            prev: None,
        },
        results: vec![
            Location {
                name: "Earth (C-137)".into(),
                created: "2017-11-10T12:42:04.162Z".into(),
                ..Default::default()
            },
            Location {
                name: "Earth (Replacement Dimension)".into(),
                created: "2018-01-10T18:20:41.703Z".into(),
                ..Default::default()
            },
        ],
    }));

    let evaluated_response = response.evaluate_op(&operation_list).unwrap();

    match evaluated_response.0 {
        RMResponseEnum::Locations(page) => {
            assert_eq!(page.results[0].name, "Earth (C-137)");
            assert_eq!(page.results[1].name, "Earth (Replacement Dimension)");
        }
        _ => panic!(),
    }

    let operation_list = OperationList(vec![Operation(OperationEnum::Sort(
        Operand(OperandEnum::String("DSC".into())),
        Operand(OperandEnum::String("name".into())),
    ))]);

    let evaluated_response = response.evaluate_op(&operation_list).unwrap();
    match evaluated_response.0 {
        RMResponseEnum::Locations(page) => {
            assert_eq!(page.results[0].name, "Earth (Replacement Dimension)");
            assert_eq!(page.results[1].name, "Earth (C-137)");
        }
        _ => panic!(),
    }

    let operation_list = OperationList(vec![Operation(OperationEnum::Sort(
        Operand(OperandEnum::String("ASC".into())),
        Operand(OperandEnum::String("created".into())),
    ))]);

    let evaluated_response = response.evaluate_op(&operation_list).unwrap();
    match evaluated_response.0 {
        RMResponseEnum::Locations(page) => {
            assert_eq!(page.results[0].created, "2017-11-10T12:42:04.162Z");
            assert_eq!(page.results[1].created, "2018-01-10T18:20:41.703Z");
        }

        _ => panic!(),
    }

    let operation_list = OperationList(vec![Operation(OperationEnum::Sort(
        Operand(OperandEnum::String("DSC".into())),
        Operand(OperandEnum::String("created".into())),
    ))]);

    let evaluated_response = response.evaluate_op(&operation_list).unwrap();
    match evaluated_response.0 {
        RMResponseEnum::Locations(page) => {
            assert_eq!(page.results[0].created, "2018-01-10T18:20:41.703Z");
            assert_eq!(page.results[1].created, "2017-11-10T12:42:04.162Z");
        }
        _ => panic!(),
    }
}

#[test]
fn limit_operation_characters() {
    let operation_list = OperationList(vec![Operation(OperationEnum::Limit(Operand(
        OperandEnum::Number(1),
    )))]);

    let response = RMResponse(RMResponseEnum::Characters(CharacterPage {
        info: Info {
            count: 2,
            pages: 1,
            next: None,
            prev: None,
        },
        results: vec![
            Character {
                name: "Rick Sanchez".into(),
                ..Default::default()
            },
            Character {
                name: "Morty Smith".into(),
                ..Default::default()
            },
        ],
    }));

    let evaluated_response = response.evaluate_op(&operation_list).unwrap();

    match evaluated_response.0 {
        RMResponseEnum::Characters(page) => {
            assert_eq!(page.results.len(), 1);
            assert_eq!(page.results[0].name, "Rick Sanchez");
        }
        _ => panic!(),
    }
}

#[test]
fn limit_edges() {
    let page = family();
    assert_eq!(characters_after(&page, vec![limit(0)]).results.len(), 0);
    assert_eq!(ids(&characters_after(&page, vec![limit(3)])), vec![1, 2, 3]);
    assert_eq!(characters_after(&page, vec![limit(6)]), page);
    assert_eq!(characters_after(&page, vec![limit(7)]), page);
    assert_eq!(characters_after(&page, vec![limit(4294967295)]), page);
    let by_text = Operation(OperationEnum::Limit(text("2")));
    assert_eq!(ids(&characters_after(&page, vec![by_text])), vec![1, 2]);
    let by_bad_text = Operation(OperationEnum::Limit(text("two")));
    assert_eq!(characters_after(&page, vec![by_bad_text]).results.len(), 0);
}

#[test]
fn info_is_carried_over_unchanged() {
    let page = family();
    let after = characters_after(
        &page,
        vec![contains("name", "Smith"), sort("DSC", "name"), limit(2)],
    );
    assert_eq!(after.info, page.info);
    assert_eq!(after.info.count, 826);
    assert_eq!(names(&after), vec!["Summer Smith", "Morty Smith"]);
}

#[test]
fn the_page_itself_is_not_changed() {
    let page = family();
    let copy = family();
    let _ = characters_after(&page, vec![sort("DSC", "name"), limit(1)]);
    assert_eq!(page, copy);
}

#[test]
fn contains_is_case_sensitive_and_keeps_order() {
    let page = family();
    assert_eq!(
        ids(&characters_after(&page, vec![contains("name", "Rick")])),
        vec![1, 8]
    );
    assert_eq!(
        characters_after(&page, vec![contains("name", "rick")]).results.len(),
        0
    );
    assert_eq!(characters_after(&page, vec![contains("name", "")]), page);
    assert_eq!(
        ids(&characters_after(&page, vec![contains("species", "Alien")])),
        vec![13]
    );
    assert_eq!(
        ids(&characters_after(&page, vec![contains("status", "Dead")])),
        vec![8]
    );
}

#[test]
fn contains_on_an_unknown_field_keeps_records_for_the_empty_value_only() {
    let page = family();
    assert_eq!(
        characters_after(&page, vec![contains("shoe_size", "4")]).results.len(),
        0
    );
    assert_eq!(characters_after(&page, vec![contains("shoe_size", "")]), page);
    assert_eq!(
        characters_after(&page, vec![contains("id", "1")]).results.len(),
        0
    );
}

#[test]
fn contains_filters_commute() {
    let page = family();
    let one = characters_after(
        &page,
        vec![contains("name", "Smith"), contains("status", "Alive")],
    );
    let other = characters_after(
        &page,
        vec![contains("status", "Alive"), contains("name", "Smith")],
    );
    assert_eq!(one, other);
    assert_eq!(ids(&one), vec![2, 3, 4]);
    let one = characters_after(&page, vec![contains("name", "i"), contains("name", "R")]);
    let other = characters_after(&page, vec![contains("name", "R"), contains("name", "i")]);
    assert_eq!(one, other);
    assert_eq!(ids(&one), vec![1, 8]);
}

#[test]
fn limit_and_contains_do_not_commute() {
    let page = family();
    let filtered_first = characters_after(&page, vec![contains("name", "Smith"), limit(1)]);
    let limited_first = characters_after(&page, vec![limit(1), contains("name", "Smith")]);
    assert_eq!(ids(&filtered_first), vec![2]);
    assert_eq!(limited_first.results.len(), 0);
    assert_ne!(filtered_first, limited_first);
}

#[test]
fn sort_is_stable() {
    let page = family();
    let by_status = characters_after(&page, vec![sort("ASC", "status")]);
    assert_eq!(ids(&by_status), vec![1, 2, 3, 4, 8, 13]);
    let by_species = characters_after(&page, vec![sort("ASC", "species")]);
    assert_eq!(ids(&by_species), vec![13, 1, 2, 3, 4, 8]);
    let by_species_down = characters_after(&page, vec![sort("DSC", "species")]);
    assert_eq!(ids(&by_species_down), vec![1, 2, 3, 4, 8, 13]);
    let by_status_down = characters_after(&page, vec![sort("DSC", "status")]);
    assert_eq!(ids(&by_status_down), vec![13, 8, 1, 2, 3, 4]);
}

#[test]
fn sort_twice_is_sort_once() {
    let page = family();
    for field in ["name", "status", "species", "type", "gender"] {
        for direction in ["ASC", "DSC"] {
            let once = characters_after(&page, vec![sort(direction, field)]);
            let twice = characters_after(&page, vec![sort(direction, field), sort(direction, field)]);
            assert_eq!(once, twice);
            assert_eq!(once.results.len(), page.results.len());
        }
    }
}

#[test]
fn evaluation_is_repeatable() {
    let page = RMResponse(RMResponseEnum::Characters(family()));
    let list = OperationList::parse_str(
        "CHARACTERS::CONTAINS(status, Alive)::SORT(DSC, name)::LIMIT(3)",
    )
    .unwrap();
    let first = page.evaluate_op(&list).unwrap();
    let second = page.evaluate_op(&list).unwrap();
    assert_eq!(first, second);
    match first.0 {
        RMResponseEnum::Characters(page) => {
            assert_eq!(names(&page), vec!["Summer Smith", "Rick Sanchez", "Morty Smith"]);
        }
        _ => panic!(),
    }
}

#[test]
fn characters_sort_by_name_under_any_other_field() {
    let page = family();
    let by_name = characters_after(&page, vec![sort("ASC", "name")]);
    assert_eq!(
        names(&by_name),
        vec![
            "Adjudicator Rick",
            "Alien Googah",
            "Beth Smith",
            "Morty Smith",
            "Rick Sanchez",
            "Summer Smith"
        ]
    );
    assert_eq!(characters_after(&page, vec![sort("ASC", "gender")]), by_name);
    assert_eq!(characters_after(&page, vec![sort("ASC", "id")]), by_name);
    assert_eq!(characters_after(&page, vec![sort("ASC", "")]), by_name);
}

#[test]
fn texts_are_ordered_character_by_character() {
    let page = Page {
        info: info(5),
        results: vec![
            character(1, "b", "", ""),
            character(2, "ab", "", ""),
            character(3, "", "", ""),
            character(4, "a", "", ""),
            character(5, "B", "", ""),
            character(6, "\u{e9}", "", ""),
            character(7, "z", "", ""),
        ],
    };
    let sorted = characters_after(&page, vec![sort("ASC", "name")]);
    assert_eq!(ids(&sorted), vec![3, 5, 4, 2, 1, 7, 6]);
    let sorted = characters_after(&page, vec![sort("DSC", "name")]);
    assert_eq!(ids(&sorted), vec![6, 7, 1, 2, 4, 5, 3]);
}

fn episode(id: u32, name: &str, air_date: &str, code: &str, characters: Vec<&str>) -> Episode {
    Episode {
        id,
        name: name.into(),
        air_date: air_date.into(),
        episode: code.into(),
        characters: characters.into_iter().map(|c| c.to_string()).collect(),
        ..Default::default()
    }
}

fn season() -> EpisodePage {
    Page {
        info: info(4),
        results: vec![
            episode(10, "Close Rick-counters", "April 7, 2014", "S01E10", vec!["b", "a"]),
            episode(2, "Lawnmower Dog", "December 9, 2013", "S01E02", vec!["b"]),
            episode(1, "Pilot", "December 2, 2013", "S01E01", vec!["a", "c"]),
            episode(11, "Ricksy Business", "April 14, 2014", "S01E11", vec![]),
        ],
    }
}

fn episode_ids(page: &EpisodePage) -> Vec<u32> {
    page.results.iter().map(|e| e.id).collect()
}

#[test]
fn episodes_sort_by_their_fields() {
    let page = season();
    let by = |direction: &str, field: &str| {
        episode_ids(&page.after_all(&OperationList(vec![sort(direction, field)])).unwrap())
    };
    assert_eq!(by("ASC", "id"), vec![1, 2, 10, 11]);
    assert_eq!(by("DSC", "id"), vec![11, 10, 2, 1]);
    assert_eq!(by("ASC", "name"), vec![10, 2, 1, 11]);
    assert_eq!(by("ASC", "episode"), vec![1, 2, 10, 11]);
    assert_eq!(by("ASC", "characters"), vec![11, 1, 2, 10]);
    assert_eq!(by("DSC", "characters"), vec![10, 2, 1, 11]);
}

#[test]
fn episodes_are_not_sorted_by_air_date() {
    let page = season();
    let by = |direction: &str, field: &str| {
        page.after_all(&OperationList(vec![sort(direction, field)])).unwrap()
    };
    assert_eq!(by("ASC", "air_date"), page);
    assert_eq!(by("DSC", "air_date"), page);
    assert_eq!(by("ASC", "created"), page);
    assert_eq!(by("DSC", "no such field"), page);
}

#[test]
fn episodes_are_filtered_by_name_air_date_and_code() {
    let page = season();
    let kept = |field: &str, value: &str| {
        episode_ids(&page.after_all(&OperationList(vec![contains(field, value)])).unwrap())
    };
    assert_eq!(kept("name", "Rick"), vec![10, 11]);
    assert_eq!(kept("air_date", "2013"), vec![2, 1]);
    assert_eq!(kept("episode", "E1"), vec![10, 11]);
    assert_eq!(kept("characters", "a"), Vec::<u32>::new());
}

fn location(id: u32, name: &str, kind: &str, dimension: &str, created: &str) -> Location {
    Location {
        id,
        name: name.into(),
        _type: kind.into(),
        dimension: dimension.into(),
        residents: vec![],
        url: String::new(),
        created: created.into(),
    }
}

fn places() -> LocationPage {
    Page {
        info: info(4),
        results: vec![
            location(3, "Citadel of Ricks", "Space station", "unknown", "2017-11-10T13:08:13.191Z"),
            location(1, "Earth (C-137)", "Planet", "Dimension C-137", "2017-11-10T12:42:04.162Z"),
            location(20, "Earth (Replacement Dimension)", "Planet", "Replacement Dimension", "2018-01-10T18:20:41.703Z"),
            location(2, "Abadango", "Cluster", "unknown", "2017-11-10T14:09:13.191+02:00"),
        ],
    }
}

fn location_ids(page: &LocationPage) -> Vec<u32> {
    page.results.iter().map(|l| l.id).collect()
}

#[test]
fn locations_sort_by_their_fields() {
    let page = places();
    let by = |direction: &str, field: &str| {
        location_ids(&page.after_all(&OperationList(vec![sort(direction, field)])).unwrap())
    };
    assert_eq!(by("ASC", "id"), vec![1, 2, 3, 20]);
    assert_eq!(by("ASC", "name"), vec![2, 3, 1, 20]);
    assert_eq!(by("ASC", "type"), vec![2, 1, 20, 3]);
    assert_eq!(by("DSC", "type"), vec![3, 1, 20, 2]);
    assert_eq!(by("ASC", "dimension"), vec![1, 20, 3, 2]);
    assert_eq!(by("ASC", "residents"), vec![3, 1, 20, 2]);
    assert_eq!(by("ASC", "no such field"), vec![2, 3, 1, 20]);
}

#[test]
fn locations_sort_by_the_time_they_were_created_at() {
    let page = places();
    let by = |direction: &str| {
        location_ids(&page.after_all(&OperationList(vec![sort(direction, "created")])).unwrap())
    };
    assert_eq!(by("ASC"), vec![2, 1, 3, 20]);
    assert_eq!(by("DSC"), vec![20, 3, 1, 2]);
}

#[test]
fn timestamp_that_does_not_parse_fails_the_sort() {
    let mut page = places();
    page.results[2].created = "yesterday".into();
    let list = OperationList(vec![sort("ASC", "created")]);
    assert_eq!(page.after_all(&list), Err(QueryError::Evaluation));
    let response = RMResponse(RMResponseEnum::Locations(page.duplicate()));
    assert_eq!(response.evaluate_op(&list), Err(QueryError::Evaluation));
    let list = OperationList(vec![sort("ASC", "created"), limit(1)]);
    assert_eq!(page.after_all(&list), Err(QueryError::Evaluation));
    let list = OperationList(vec![sort("ASC", "name")]);
    assert!(page.after_all(&list).is_ok());
    let list = OperationList(vec![sort("sideways", "created")]);
    assert_eq!(page.after_all(&list), Ok(page.duplicate()));
    let list = OperationList(vec![contains("name", "Replacement"), sort("DSC", "created")]);
    assert_eq!(location_ids(&page.after_all(&list).unwrap()), vec![20]);
    let list = OperationList(vec![limit(2), sort("DSC", "created")]);
    assert_eq!(location_ids(&page.after_all(&list).unwrap()), vec![3, 1]);
}

#[test]
fn sorting_by_given_keys() {
    let page = places();
    let keys = vec![
        Some(SortKey::Instant(5, 0)),
        Some(SortKey::Instant(-7, 999_999_999)),
        Some(SortKey::Instant(5, 0)),
        Some(SortKey::Instant(-7, 1_000_000_000)),
    ];
    assert_eq!(
        location_ids(&page.sorted_by_keys(&keys, false).unwrap()),
        vec![1, 2, 3, 20]
    );
    assert_eq!(
        location_ids(&page.sorted_by_keys(&keys, true).unwrap()),
        vec![3, 20, 2, 1]
    );
    let keys = vec![Some(SortKey::Number(1)), None, Some(SortKey::Number(0)), None];
    assert_eq!(page.sorted_by_keys(&keys, false), Err(QueryError::Evaluation));
    let keys = vec![Some(SortKey::Number(1)), Some(SortKey::Number(0))];
    assert_eq!(page.sorted_by_keys(&keys, false), Err(QueryError::Evaluation));
    assert_eq!(page.sorted_by_keys(&vec![], true), Err(QueryError::Evaluation));
    let keys = vec![
        Some(SortKey::Nothing),
        Some(SortKey::Nothing),
        Some(SortKey::Nothing),
        Some(SortKey::Nothing),
    ];
    assert_eq!(page.sorted_by_keys(&keys, true), Ok(page.duplicate()));
    let one = Page {
        info: info(1),
        results: vec![location(1, "a", "", "", "no time")],
    };
    assert_eq!(one.sorted_by_keys(&vec![None], false), Ok(one.duplicate()));
    let list = OperationList(vec![sort("ASC", "created")]);
    assert_eq!(one.after_all(&list), Ok(one.duplicate()));
}

#[test]
fn operations_of_the_request_and_reserved_ones_change_no_page() {
    let page = family();
    let after = characters_after(
        &page,
        vec![
            Operation(OperationEnum::Root(Root::EPISODES)),
            Operation(OperationEnum::Name(text("Rick"))),
            Operation(OperationEnum::Page(number(3))),
            Operation(OperationEnum::Dimension(text("C-137"))),
            Operation(OperationEnum::Length(text("name"), text("3"))),
            Operation(OperationEnum::Index(number(0))),
            Operation(OperationEnum::Pick(text("name"))),
        ],
    );
    assert_eq!(after, page);
    assert_eq!(characters_after(&page, vec![]), page);
}

#[test]
fn query_api_end_to_end() {
    match query_api(MockRequest, "CHARACTERS::CONTAINS(name, Ri)").unwrap() {
        RMResponseEnum::Characters(page) => assert_eq!(page.results.len(), 1),
        _ => panic!(),
    }
    match query_api(MockRequest, "CHARACTERS::CONTAINS(name, xxxxxx)").unwrap() {
        RMResponseEnum::Characters(page) => assert_eq!(page.results.len(), 0),
        _ => panic!(),
    }
    assert!(matches!(query_api(MockRequest, "BOGUS"), Err(QueryError::Syntax(_))));
    assert!(matches!(
        query_api(MockRequest, "EPISODES::LIMIT(1)"),
        Err(QueryError::UnsupportedRoot)
    ));
}

#[test]
fn a_page_answers_as_it_is() {
    let page = family();
    let list = OperationList(vec![limit(1)]);
    let answer = OperationListEvaluator::evaluate_op(&page, &list).unwrap();
    assert_eq!(answer, RMResponse(RMResponseEnum::Characters(family())));
    assert_eq!(answer.clone(), answer);
}

#[test]
fn a_failed_request_ends_the_query() {
    let list = OperationList(vec![sort("ASC", "created"), limit(1)]);
    assert_eq!(
        complete_query(Err(QueryError::Backend("connection refused".to_string())), &list),
        Err(QueryError::Backend("connection refused".to_string()))
    );
    assert_eq!(
        complete_query(Err(QueryError::UnsupportedRoot), &list),
        Err(QueryError::UnsupportedRoot)
    );
    let answer = RMResponse(RMResponseEnum::Locations(places()));
    match complete_query(Ok(answer), &list).unwrap() {
        RMResponseEnum::Locations(page) => assert_eq!(location_ids(&page), vec![2]),
        _ => panic!(),
    }
    let mut broken = places();
    broken.results[0].created = "2017-13-10T13:08:13.191Z".into();
    let answer = RMResponse(RMResponseEnum::Locations(broken));
    assert_eq!(complete_query(Ok(answer), &list), Err(QueryError::Evaluation));
}

#[test]
fn timestamps_are_read_as_points_in_time() {
    let page = Page {
        info: info(5),
        results: vec![
            location(1, "", "", "", "2020-01-01T00:00:00Z"),
            location(2, "", "", "", "2020-01-01T01:00:00+02:00"),
            location(3, "", "", "", "2019-12-31T23:59:59.999999999-00:00"),
            location(4, "", "", "", "2020-01-01t00:00:00.000000001z"),
            location(5, "", "", "", "2020-01-01T00:00:00+00:00"),
        ],
    };
    let sorted = page.after_all(&OperationList(vec![sort("ASC", "created")])).unwrap();
    assert_eq!(location_ids(&sorted), vec![2, 3, 1, 5, 4]);
    let sorted = page.after_all(&OperationList(vec![sort("DSC", "created")])).unwrap();
    assert_eq!(location_ids(&sorted), vec![4, 1, 5, 3, 2]);
    for bad in ["", "2020-01-01", "2020-01-01T00:00:00", "2020-02-30T00:00:00Z", "01/01/2020"] {
        let mut page = page.duplicate();
        page.results[4].created = bad.into();
        assert_eq!(
            page.after_all(&OperationList(vec![sort("ASC", "created")])),
            Err(QueryError::Evaluation)
        );
    }
}
