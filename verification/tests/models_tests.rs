use chron::bytes::{i128_from_le_bytes, i128_to_le_bytes, u128_from_be_bytes, u128_to_be_bytes};
use chron::models::{EntityKind, EntityVersion, GameEvent, HasPageToken, IsoDateTime, PageToken, PageTokenError, PusherEvent};
use chron::json::Json;
use chron::queries::{with_page_token, SortOrder};

const ALL_KINDS: [EntityKind; 20] = [
    EntityKind::Game,
    EntityKind::Player,
    EntityKind::Team,
    EntityKind::Flagsmith,
    EntityKind::Ticker,
    EntityKind::SeasonElections,
    EntityKind::SeasonSchedule,
    EntityKind::SeasonScheduleHourly,
    EntityKind::Temporal,
    EntityKind::Post,
    EntityKind::GameBetData,
    EntityKind::BoxScore,
    EntityKind::Sim,
    EntityKind::SeasonTournaments,
    EntityKind::Tournament,
    EntityKind::Asset,
    EntityKind::ForbiddenBook,
    EntityKind::TeamBlessingPreferences,
    EntityKind::GameOutcomes,
    EntityKind::GameOutcome,
];

#[test]
fn entity_kind_codes_are_stable() {
    assert_eq!(EntityKind::Game.code(), 1);
    assert_eq!(EntityKind::Asset.code(), 16);
    assert_eq!(EntityKind::GameOutcomes.code(), 19);
    assert_eq!(EntityKind::GameOutcome.code(), 20);
    for (i, k) in ALL_KINDS.iter().enumerate() {
        assert_eq!(k.code(), i as i16 + 1);
    }
}

#[test]
fn entity_kind_code_roundtrip() {
    for k in ALL_KINDS.iter() {
        assert_eq!(EntityKind::from_code(k.code()), Some(*k));
    }
    assert_eq!(EntityKind::from_code(0), None);
    assert_eq!(EntityKind::from_code(21), None);
    assert_eq!(EntityKind::from_code(-1), None);
}

#[test]
fn entity_kind_name_roundtrip() {
    for k in ALL_KINDS.iter() {
        assert_eq!(EntityKind::from_name(k.name()), Some(*k));
    }
    assert_eq!(EntityKind::SeasonScheduleHourly.name(), "season_schedule_hourly");
    assert_eq!(EntityKind::TeamBlessingPreferences.name(), "team_blessing_preferences");
    assert_eq!(EntityKind::from_name("Game"), None);
    assert_eq!(EntityKind::from_name(""), None);
    assert_eq!(EntityKind::from_name("box_score"), Some(EntityKind::BoxScore));
}

#[test]
fn page_token_zero_text() {
    let t = PageToken { entity_id: 0, timestamp: 0 };
    assert_eq!(t.to_string(), "AAAAAAAAAAAAAAAAAAAAAAAAAAAAAAAAAAAAAAAAAAA=");
}

#[test]
fn page_token_known_text() {
    let t = PageToken { entity_id: 0x0123456789abcdef0123456789abcdef, timestamp: 1_600_000_000_123_456_789 };
    let text = t.to_string();
    assert_eq!(text, "Fc3734VXNBYAAAAAAAAAAAEjRWeJq83vASNFZ4mrze8=");
    assert_eq!(PageToken::from_str(&text), Ok(t));
}

#[test]
fn page_token_negative_timestamp() {
    let t = PageToken { entity_id: 0, timestamp: -1 };
    assert_eq!(t.to_string(), "_____________________wAAAAAAAAAAAAAAAAAAAAA=");
    assert_eq!(PageToken::from_str("_____________________wAAAAAAAAAAAAAAAAAAAAA="), Ok(t));
}

#[test]
fn page_token_roundtrip_many() {
    let stamps = [0i128, 1, -1, 1_000_000_000, -377_705_116_800_000_000_000, 253_402_300_799_999_999_999];
    let ids = [0u128, 1, u128::MAX, 0xdeadbeef];
    for ts in stamps {
        for id in ids {
            let t = PageToken { entity_id: id, timestamp: ts };
            assert_eq!(PageToken::from_str(&t.to_string()), Ok(t));
        }
    }
}

#[test]
fn page_token_time_range_edges() {
    assert_eq!(
        PageToken::from_str("AACTGHDdSYbr_________wAAAAAAAAAAAAAAAAAAAAA="),
        Ok(PageToken { entity_id: 0, timestamp: -377_705_116_800_000_000_000 })
    );
    assert_eq!(
        PageToken::from_str("__-SGHDdSYbr_________wAAAAAAAAAAAAAAAAAAAAA="),
        Err(PageTokenError::TimestampOutOfRange)
    );
    assert_eq!(
        PageToken::from_str("__-uov7RqbwNAAAAAAAAAAAAAAAAAAAAAAAAAAAAAAA="),
        Ok(PageToken { entity_id: 0, timestamp: 253_402_300_799_999_999_999 })
    );
    assert_eq!(
        PageToken::from_str("AACvov7RqbwNAAAAAAAAAAAAAAAAAAAAAAAAAAAAAAA="),
        Err(PageTokenError::TimestampOutOfRange)
    );
}

#[test]
fn page_token_errors() {
    assert_eq!(PageToken::from_str("not base64!"), Err(PageTokenError::InvalidEncoding));
    assert_eq!(PageToken::from_str("AAAA"), Err(PageTokenError::InvalidLength));
    assert_eq!(
        PageToken::from_str("AAAAAAAAAAAAAAAAAAAAAAAAAAAAAAAAAAAAAAAAAA=="),
        Err(PageTokenError::InvalidLength)
    );
    // the standard alphabet's '+' is not URL-safe
    assert_eq!(PageToken::from_str("++++"), Err(PageTokenError::InvalidEncoding));
}

#[test]
fn byte_encodings_match_std() {
    for v in [0i128, 1, -1, i128::MIN, i128::MAX, 1_600_000_000_123_456_789, -42] {
        let b = i128_to_le_bytes(v);
        assert_eq!(b, v.to_le_bytes().to_vec());
        assert_eq!(i128_from_le_bytes(&b), v);
    }
    for v in [0u128, 1, u128::MAX, 0x0123456789abcdef0123456789abcdef] {
        let b = u128_to_be_bytes(v);
        assert_eq!(b, v.to_be_bytes().to_vec());
        assert_eq!(b, uuid::Uuid::from_u128(v).as_bytes().to_vec());
        assert_eq!(u128_from_be_bytes(&b), v);
    }
}

#[test]
fn page_tokens_of_items() {
    let v = EntityVersion {
        kind: EntityKind::Player,
        entity_id: 7,
        valid_from: IsoDateTime(99),
        valid_to: None,
        data: Json::Null,
    };
    assert_eq!(v.page_token(), PageToken { entity_id: 7, timestamp: 99 });
    let g = GameEvent { game_id: 5, timestamp: 12, data: Json::Null };
    assert_eq!(g.page_token(), PageToken { entity_id: 0, timestamp: 12 });
    let e = PusherEvent::new(33, "ticker".to_string(), "x".to_string(), None, "raw".to_string());
    assert_eq!(e.page_token(), PageToken { entity_id: 0, timestamp: 33 });
    assert_eq!(e.channel, "ticker");
    assert_eq!(e.raw, "raw");
}

#[test]
fn next_page_is_last_items_token() {
    let empty: Vec<GameEvent> = Vec::new();
    let r = with_page_token(empty);
    assert!(r.items.is_empty());
    assert_eq!(r.next_page, None);
    let items = vec![
        GameEvent { game_id: 1, timestamp: 10, data: Json::Null },
        GameEvent { game_id: 1, timestamp: 20, data: Json::Null },
    ];
    let r = with_page_token(items);
    assert_eq!(r.items.len(), 2);
    assert_eq!(r.next_page, Some(PageToken { entity_id: 0, timestamp: 20 }));
}

#[test]
fn sort_order_names() {
    assert_eq!(SortOrder::default(), SortOrder::Asc);
    assert_eq!(SortOrder::from_name("asc"), Some(SortOrder::Asc));
    assert_eq!(SortOrder::from_name("desc"), Some(SortOrder::Desc));
    assert_eq!(SortOrder::from_name("DESC"), None);
}

#[test]
fn iso_date_time_conversions() {
    let t: IsoDateTime = IsoDateTime::from(123i128);
    assert_eq!(t, IsoDateTime(123));
    assert_eq!(t.into_nanos(), 123);
}
