use chron::api::{clamp_count, parse_id_list, AppError, IdListError};
use chron::models::{EntityKind, IsoDateTime, PageToken};
use chron::queries::{
    paginate, Column, Condition, Cursor, GetEntitiesQuery, GetEventsQuery, GetGameEventsQuery, GetVersionsQuery,
    SortOrder, Table,
};

const GAME: u128 = 0x0123_4567_89ab_cdef_0011_2233_4455_6677;
const OTHER: u128 = 0xffee_ddcc_bbaa_9988_7766_5544_3322_1100;

fn describe(c: &Condition) -> String {
    match c {
        Condition::UuidEq(col, id) => format!("{:?} = {:x}", col, id),
        Condition::TextEq(col, t) => format!("{:?} = '{}'", col, t),
        Condition::Matches(q) => format!("matches '{}'", q),
        Condition::AtMost(col, t) => format!("{:?} <= {}", col, t),
        Condition::AtLeast(col, t) => format!("{:?} >= {}", col, t),
        Condition::KindEq(k) => format!("kind = {}", k),
        Condition::UuidIn(col, ids) => format!("{:?} in {:x?}", col, ids),
        Condition::EndsAfter(t) => format!("valid_to null or > {}", t),
        Condition::IsNull(col) => format!("{:?} is null", col),
        Condition::After(cur) => format!(
            "after {:?} {:?} {:?} {:x} {}",
            cur.order, cur.timestamp_column, cur.id_column, cur.token.entity_id, cur.token.timestamp
        ),
    }
}

fn describe_all(cs: &[Condition]) -> Vec<String> {
    cs.iter().map(describe).collect()
}

fn token() -> PageToken {
    PageToken { entity_id: OTHER, timestamp: 1_600_000_000_000_000_000 }
}

#[test]
fn game_events_plan_with_every_filter() {
    let q = GetGameEventsQuery {
        game_id: Some(GAME),
        search: Some("home run".to_string()),
        before: Some(200),
        after: Some(100),
        count: 50,
        order: SortOrder::Desc,
        page: Some(token()),
    };
    let p = q.plan();
    assert!(!p.all_version_columns);
    assert_eq!(p.columns, vec![Column::GameId, Column::Timestamp, Column::Data]);
    assert_eq!(p.from, Table::GameEvents);
    assert!(!p.join_objects);
    assert_eq!(p.order_by, vec![(Column::Timestamp, SortOrder::Desc)]);
    assert_eq!(p.limit, Some(50));
    assert_eq!(
        describe_all(&p.conditions),
        vec![
            format!("GameId = {:x}", GAME),
            "matches 'home run'".to_string(),
            "Timestamp <= 200".to_string(),
            "Timestamp >= 100".to_string(),
            format!("after Desc Timestamp None {:x} 1600000000000000000", OTHER),
        ]
    );
}

#[test]
fn game_events_plan_without_filters() {
    let q = GetGameEventsQuery {
        game_id: None,
        search: None,
        before: None,
        after: None,
        count: 5000,
        order: SortOrder::Asc,
        page: None,
    };
    let p = q.plan();
    assert!(p.conditions.is_empty());
    assert_eq!(p.limit, Some(5000));
    assert_eq!(p.order_by, vec![(Column::Timestamp, SortOrder::Asc)]);
}

#[test]
fn events_plan_filters_by_channel() {
    let q = GetEventsQuery {
        channel: Some("sim-data".to_string()),
        before: None,
        after: Some(-5),
        count: 10,
        order: SortOrder::Asc,
        page: Some(token()),
    };
    let p = q.plan();
    assert_eq!(p.columns, vec![Column::Channel, Column::Event, Column::Timestamp, Column::Payload, Column::Raw]);
    assert_eq!(p.from, Table::Events);
    assert_eq!(p.limit, Some(10));
    assert_eq!(
        describe_all(&p.conditions),
        vec![
            "Channel = 'sim-data'".to_string(),
            "Timestamp >= -5".to_string(),
            format!("after Asc Timestamp None {:x} 1600000000000000000", OTHER),
        ]
    );
}

#[test]
fn entities_plan_current_versions() {
    let q = GetEntitiesQuery { kind: EntityKind::Team, at: None, id: vec![], order: SortOrder::Asc, page: None };
    let p = q.plan();
    assert!(p.all_version_columns);
    assert!(p.columns.is_empty());
    assert_eq!(p.from, Table::Versions);
    assert!(p.join_objects);
    assert_eq!(p.order_by, vec![(Column::ValidFrom, SortOrder::Asc), (Column::EntityId, SortOrder::Asc)]);
    assert_eq!(p.limit, None);
    assert_eq!(describe_all(&p.conditions), vec!["kind = 3".to_string(), "ValidTo is null".to_string()]);
}

#[test]
fn entities_plan_at_an_instant() {
    let q = GetEntitiesQuery {
        kind: EntityKind::Player,
        at: Some(77),
        id: vec![GAME, OTHER],
        order: SortOrder::Desc,
        page: Some(token()),
    };
    let p = q.plan();
    assert_eq!(p.order_by, vec![(Column::ValidFrom, SortOrder::Desc), (Column::EntityId, SortOrder::Desc)]);
    assert_eq!(
        describe_all(&p.conditions),
        vec![
            "kind = 2".to_string(),
            format!("EntityId in {:x?}", vec![GAME, OTHER]),
            "ValidFrom <= 77".to_string(),
            "valid_to null or > 77".to_string(),
            format!("after Desc ValidFrom Some(EntityId) {:x} 1600000000000000000", OTHER),
        ]
    );
}

#[test]
fn versions_plan_with_range() {
    let q = GetVersionsQuery {
        kind: EntityKind::Game,
        id: vec![],
        before: Some(9),
        after: Some(3),
        count: 1000,
        order: SortOrder::Asc,
        page: None,
    };
    let p = q.plan();
    assert!(p.all_version_columns);
    assert!(p.join_objects);
    assert_eq!(p.limit, Some(1000));
    assert_eq!(
        describe_all(&p.conditions),
        vec!["kind = 1".to_string(), "ValidFrom <= 9".to_string(), "ValidFrom >= 3".to_string()]
    );
}

#[test]
fn paginate_builds_cursor() {
    let c = paginate(SortOrder::Desc, Column::ValidFrom, Some(Column::EntityId), token());
    match c {
        Condition::After(cur) => assert_eq!(
            cur,
            Cursor {
                order: SortOrder::Desc,
                timestamp_column: Column::ValidFrom,
                id_column: Some(Column::EntityId),
                token: token(),
            }
        ),
        _ => panic!("not a cursor condition"),
    }
}

#[test]
fn clamp_count_caps_and_defaults() {
    assert_eq!(clamp_count(None, 5000), 5000);
    assert_eq!(clamp_count(Some(10), 5000), 10);
    assert_eq!(clamp_count(Some(5000), 5000), 5000);
    assert_eq!(clamp_count(Some(6000), 5000), 5000);
    assert_eq!(clamp_count(Some(0), 1000), 0);
}

#[test]
fn api_game_events_query_defaults() {
    let q = chron::api::GetGameEventsQuery {
        game_id: Some(GAME),
        search: None,
        before: Some(IsoDateTime(42)),
        after: None,
        count: None,
        order: SortOrder::Desc,
    };
    let d = q.into_db_query();
    assert_eq!(d.game_id, Some(GAME));
    assert_eq!(d.search, None);
    assert_eq!(d.before, Some(42));
    assert_eq!(d.after, None);
    assert_eq!(d.count, 5000);
    assert_eq!(d.order, SortOrder::Desc);
    assert!(d.page.is_none());
}

#[test]
fn api_events_query_caps_count() {
    let q = chron::api::GetEventsQuery {
        channel: Some("ticker".to_string()),
        before: None,
        after: Some(IsoDateTime(-1)),
        count: Some(9000),
        order: SortOrder::Asc,
    };
    let d = q.into_db_query();
    assert_eq!(d.channel.as_deref(), Some("ticker"));
    assert_eq!(d.after, Some(-1));
    assert_eq!(d.count, 5000);
    assert!(d.page.is_none());
}

#[test]
fn api_versions_query_caps_at_thousand() {
    let q = chron::api::GetVersionsQuery {
        kind: EntityKind::Sim,
        id: vec![GAME],
        before: None,
        after: None,
        count: Some(2000),
        order: SortOrder::Asc,
    };
    let d = q.into_db_query();
    assert_eq!(d.kind, EntityKind::Sim);
    assert_eq!(d.id, vec![GAME]);
    assert_eq!(d.count, 1000);
    let q2 = chron::api::GetVersionsQuery {
        kind: EntityKind::Sim,
        id: vec![],
        before: None,
        after: None,
        count: None,
        order: SortOrder::Desc,
    };
    assert_eq!(q2.into_db_query().count, 1000);
}

#[test]
fn api_entities_query_lists_current_versions() {
    let d = chron::api::GetEntitiesQuery { kind: EntityKind::Temporal }.into_db_query();
    assert_eq!(d.kind, EntityKind::Temporal);
    assert_eq!(d.at, None);
    assert!(d.id.is_empty());
    assert_eq!(d.order, SortOrder::Asc);
    assert!(d.page.is_none());
}

#[test]
fn id_lists_parse_each_piece() {
    let a = uuid::Uuid::from_u128(GAME).to_string();
    let b = uuid::Uuid::from_u128(OTHER).to_string();
    assert_eq!(parse_id_list(&a), Ok(vec![GAME]));
    assert_eq!(parse_id_list(&format!("{},{}", a, b)), Ok(vec![GAME, OTHER]));
    assert_eq!(parse_id_list(&format!("{},{}", b, b)), Ok(vec![OTHER, OTHER]));
}

#[test]
fn id_lists_refuse_bad_pieces() {
    let a = uuid::Uuid::from_u128(GAME).to_string();
    assert_eq!(parse_id_list(""), Err(IdListError::InvalidId));
    assert_eq!(parse_id_list(&format!("{},", a)), Err(IdListError::InvalidId));
    assert_eq!(parse_id_list(&format!("{},nope", a)), Err(IdListError::InvalidId));
    assert_eq!(parse_id_list("not-an-id"), Err(IdListError::InvalidId));
}

#[test]
fn app_error_is_a_server_error() {
    let e = AppError::new("database is down".to_string());
    assert_eq!(e.message, "database is down");
    assert_eq!(e.status_code(), 500);
}

#[test]
fn id_lists_accept_every_identifier_form() {
    let hyphenated = "01234567-89ab-cdef-0011-223344556677";
    assert_eq!(parse_id_list(hyphenated), Ok(vec![GAME]));
    assert_eq!(parse_id_list("0123456789abcdef0011223344556677"), Ok(vec![GAME]));
    assert_eq!(parse_id_list("01234567-89AB-CDEF-0011-223344556677"), Ok(vec![GAME]));
    assert_eq!(parse_id_list("{01234567-89ab-cdef-0011-223344556677}"), Ok(vec![GAME]));
    assert_eq!(parse_id_list("urn:uuid:01234567-89ab-cdef-0011-223344556677"), Ok(vec![GAME]));
    assert_eq!(parse_id_list("URN:UUID:01234567-89ab-cdef-0011-223344556677"), Ok(vec![GAME]));
}

#[test]
fn id_lists_refuse_misshapen_identifiers() {
    // a hyphen out of place
    assert_eq!(parse_id_list("0123456-789ab-cdef-0011-223344556677"), Err(IdListError::InvalidId));
    // a letter past f
    assert_eq!(parse_id_list("01234567-89ab-cdeg-0011-223344556677"), Err(IdListError::InvalidId));
    // braces of the wrong kind
    assert_eq!(parse_id_list("[01234567-89ab-cdef-0011-223344556677]"), Err(IdListError::InvalidId));
    // a simple form one digit short
    assert_eq!(parse_id_list("0123456789abcdef001122334455667"), Err(IdListError::InvalidId));
    // a non-ASCII digit
    assert_eq!(parse_id_list("0123456789abcdef00112233445566\u{ff17}7"), Err(IdListError::InvalidId));
}
