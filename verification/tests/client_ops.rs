use timeclock::client::ClockClient;
use timeclock::clocks::{
    ClockError, ClockInTimeUpdate, ClockSchema, CreateClockInput, DeleteClockInput, EditClockInput,
    EditClockInputStrategy, GetClocksInput, ValidateUserClaimsToClockInput,
};
use timeclock::timestamp::{current_time, Timestamp};
use timeclock::uid::Uid;

fn owner_a() -> Uid {
    Uid::parse("11111111-2222-3333-4444-555555555555").unwrap()
}

fn owner_b() -> Uid {
    Uid::parse("99999999-8888-7777-6666-555555555555").unwrap()
}

fn ts(s: &str) -> Timestamp {
    Timestamp::parse(s).unwrap()
}

fn create(client: &mut ClockClient, owner: Uid, name: &str, now: &str) -> ClockSchema {
    client
        .create_clock(
            CreateClockInput {
                identity_pool_user_id: owner,
                name: name.to_owned(),
            },
            ts(now),
        )
        .unwrap()
}

#[test]
fn create_sets_the_documented_defaults() {
    let mut client = ClockClient::new();
    let now = current_time().unwrap();
    let before = chrono::Utc::now();
    let created = client
        .create_clock(
            CreateClockInput {
                identity_pool_user_id: owner_a(),
                name: "X".to_owned(),
            },
            now.duplicate(),
        )
        .unwrap();
    let after = chrono::Utc::now();
    assert_eq!(created.identity_pool_user_id, owner_a());
    assert_eq!(created.name.as_str(), "X");
    assert!(!created.active);
    assert_eq!(created.clock_in_time, None);
    assert_eq!(created.last_edit, now);
    let stamped = chrono::DateTime::parse_from_rfc3339(created.last_edit.as_string())
        .unwrap()
        .to_utc();
    assert!(before - chrono::TimeDelta::seconds(1) <= stamped);
    assert!(stamped <= after + chrono::TimeDelta::seconds(1));
}

#[test]
fn create_generates_fresh_record_identifiers() {
    let mut client = ClockClient::new();
    let first = create(&mut client, owner_a(), "one", "2026-01-02T03:04:05+00:00");
    let second = create(&mut client, owner_a(), "two", "2026-01-02T03:04:06+00:00");
    assert!(!first.uuid.same(&second.uuid));
    let listed = client.get_clocks(&GetClocksInput(owner_a())).unwrap();
    assert_eq!(listed.len(), 2);
}

#[test]
fn noop_edit_writes_nothing_and_yields_none() {
    let mut client = ClockClient::new();
    let created = create(&mut client, owner_a(), "shift", "2026-01-02T03:04:05+00:00");
    let edited = client
        .edit_clock(
            EditClockInput {
                uuid: created.uuid.duplicate(),
                update: EditClockInputStrategy::Fields {
                    identity_pool_user_id: owner_a(),
                    name: None,
                    active: None,
                    clock_in_time: ClockInTimeUpdate::NoChange,
                },
            },
            ts("2026-01-02T09:00:00+00:00"),
        )
        .unwrap();
    assert_eq!(edited, None);
    let stored = client
        .validate_user_claims_to_clock(ValidateUserClaimsToClockInput {
            identity_pool_user_id: owner_a(),
            uuid: created.uuid.duplicate(),
        })
        .unwrap();
    assert_eq!(stored.last_edit, created.last_edit);
    assert_eq!(stored, created);
}

#[test]
fn partial_edit_touches_exactly_the_supplied_fields() {
    let mut client = ClockClient::new();
    let created = create(&mut client, owner_a(), "shift", "2026-01-02T03:04:05+00:00");
    let t = ts("2026-01-02T08:30:00+00:00");
    let edited = client
        .edit_clock(
            EditClockInput {
                uuid: created.uuid.duplicate(),
                update: EditClockInputStrategy::Fields {
                    identity_pool_user_id: owner_a(),
                    name: None,
                    active: Some(true),
                    clock_in_time: ClockInTimeUpdate::SetTo(t.duplicate()),
                },
            },
            ts("2026-01-02T08:30:01+00:00"),
        )
        .unwrap()
        .unwrap();
    assert!(edited.active);
    assert_eq!(edited.clock_in_time, Some(t));
    assert_eq!(edited.name, created.name);
    assert_eq!(edited.last_edit, ts("2026-01-02T08:30:01+00:00"));
    assert_eq!(edited.uuid, created.uuid);
}

#[test]
fn clearing_the_clock_in_time_is_its_own_instruction() {
    let mut client = ClockClient::new();
    let created = create(&mut client, owner_a(), "shift", "2026-01-02T03:04:05+00:00");
    client
        .edit_clock(
            EditClockInput {
                uuid: created.uuid.duplicate(),
                update: EditClockInputStrategy::Fields {
                    identity_pool_user_id: owner_a(),
                    name: None,
                    active: None,
                    clock_in_time: ClockInTimeUpdate::SetTo(ts("2026-01-02T08:00:00+00:00")),
                },
            },
            ts("2026-01-02T08:00:01+00:00"),
        )
        .unwrap()
        .unwrap();
    let cleared = client
        .edit_clock(
            EditClockInput {
                uuid: created.uuid.duplicate(),
                update: EditClockInputStrategy::Fields {
                    identity_pool_user_id: owner_a(),
                    name: None,
                    active: None,
                    clock_in_time: ClockInTimeUpdate::Clear,
                },
            },
            ts("2026-01-02T09:00:00+00:00"),
        )
        .unwrap()
        .unwrap();
    assert_eq!(cleared.clock_in_time, None);
}

#[test]
fn publish_replaces_every_non_key_field() {
    let mut client = ClockClient::new();
    let created = create(&mut client, owner_a(), "draft", "2026-01-02T03:04:05+00:00");
    let replacement = ClockSchema {
        identity_pool_user_id: owner_a(),
        uuid: created.uuid.duplicate(),
        name: "published".to_owned(),
        last_edit: ts("2020-01-01T00:00:00+00:00"),
        active: true,
        clock_in_time: Some(ts("2026-01-02T07:00:00+00:00")),
    };
    let published = client
        .edit_clock(
            EditClockInput {
                uuid: created.uuid.duplicate(),
                update: EditClockInputStrategy::Publish(replacement),
            },
            ts("2026-01-02T10:00:00+00:00"),
        )
        .unwrap()
        .unwrap();
    assert_eq!(published.name.as_str(), "published");
    assert!(published.active);
    assert_eq!(published.clock_in_time, Some(ts("2026-01-02T07:00:00+00:00")));
    assert_eq!(published.last_edit, ts("2026-01-02T10:00:00+00:00"));
}

#[test]
fn publish_with_mismatched_identifier_is_rejected() {
    let mut client = ClockClient::new();
    let created = create(&mut client, owner_a(), "shift", "2026-01-02T03:04:05+00:00");
    let other_id = Uid::parse("aaaaaaaa-bbbb-cccc-dddd-eeeeeeeeeeee").unwrap();
    let payload = ClockSchema {
        identity_pool_user_id: owner_a(),
        uuid: other_id,
        name: "impostor".to_owned(),
        last_edit: ts("2026-01-02T03:04:05+00:00"),
        active: false,
        clock_in_time: None,
    };
    let answer = client.edit_clock(
        EditClockInput {
            uuid: created.uuid.duplicate(),
            update: EditClockInputStrategy::Publish(payload),
        },
        ts("2026-01-02T10:00:00+00:00"),
    );
    match answer {
        Err(ClockError::ClockNotFound(owner, target)) => {
            assert_eq!(owner, owner_a());
            assert_eq!(target, created.uuid);
        }
        other => panic!("expected the identity check to fail, got {:?}", other),
    }
    let untouched = client
        .validate_user_claims_to_clock(ValidateUserClaimsToClockInput {
            identity_pool_user_id: owner_a(),
            uuid: created.uuid.duplicate(),
        })
        .unwrap();
    assert_eq!(untouched, created);
}

#[test]
fn delete_returns_the_last_snapshot_and_forgets_the_record() {
    let mut client = ClockClient::new();
    let created = create(&mut client, owner_a(), "shift", "2026-01-02T03:04:05+00:00");
    let snapshot = client
        .delete_clock(DeleteClockInput {
            identity_pool_user_id: owner_a(),
            uuid: created.uuid.duplicate(),
        })
        .unwrap();
    assert_eq!(snapshot, created);
    let gone = client.validate_user_claims_to_clock(ValidateUserClaimsToClockInput {
        identity_pool_user_id: owner_a(),
        uuid: created.uuid.duplicate(),
    });
    match gone {
        Err(ClockError::ClockNotFound(owner, id)) => {
            assert_eq!(owner, owner_a());
            assert_eq!(id, created.uuid);
        }
        other => panic!("expected the record to be gone, got {:?}", other),
    }
    let again = client.delete_clock(DeleteClockInput {
        identity_pool_user_id: owner_a(),
        uuid: created.uuid.duplicate(),
    });
    assert!(matches!(again, Err(ClockError::ClockNotFound(..))));
}

#[test]
fn ownership_is_checked_through_the_key_alone() {
    let mut client = ClockClient::new();
    let created = create(&mut client, owner_b(), "b's shift", "2026-01-02T03:04:05+00:00");
    let foreign = client.validate_user_claims_to_clock(ValidateUserClaimsToClockInput {
        identity_pool_user_id: owner_a(),
        uuid: created.uuid.duplicate(),
    });
    match foreign {
        Err(ClockError::ClockNotFound(owner, id)) => {
            assert_eq!(owner, owner_a());
            assert_eq!(id, created.uuid);
        }
        other => panic!("expected not-found, got {:?}", other),
    }
    let own = client.validate_user_claims_to_clock(ValidateUserClaimsToClockInput {
        identity_pool_user_id: owner_b(),
        uuid: created.uuid.duplicate(),
    });
    assert_eq!(own.unwrap(), created);
}

#[test]
fn listing_is_per_owner_and_empty_after_deletion() {
    let mut client = ClockClient::new();
    let a1 = create(&mut client, owner_a(), "a one", "2026-01-02T03:04:05+00:00");
    let a2 = create(&mut client, owner_a(), "a two", "2026-01-02T03:04:06+00:00");
    let b1 = create(&mut client, owner_b(), "b one", "2026-01-02T03:04:07+00:00");
    let listed_a = client.get_clocks(&GetClocksInput(owner_a())).unwrap();
    assert_eq!(listed_a.len(), 2);
    assert!(listed_a.contains(&a1));
    assert!(listed_a.contains(&a2));
    let listed_b = client.get_clocks(&GetClocksInput(owner_b())).unwrap();
    assert_eq!(listed_b, vec![b1]);
    client
        .delete_clock(DeleteClockInput {
            identity_pool_user_id: owner_a(),
            uuid: a1.uuid.duplicate(),
        })
        .unwrap();
    client
        .delete_clock(DeleteClockInput {
            identity_pool_user_id: owner_a(),
            uuid: a2.uuid.duplicate(),
        })
        .unwrap();
    assert_eq!(client.get_clocks(&GetClocksInput(owner_a())).unwrap(), vec![]);
    assert_eq!(client.get_clocks(&GetClocksInput(owner_b())).unwrap().len(), 1);
}

#[test]
fn full_lifecycle_of_one_record() {
    let mut client = ClockClient::new();
    let created = create(&mut client, owner_a(), "Shift 1", "2026-01-02T03:04:05+00:00");
    assert_eq!(created.identity_pool_user_id, owner_a());
    assert_eq!(created.name.as_str(), "Shift 1");
    assert!(!created.active);
    assert_eq!(created.clock_in_time, None);

    let now = ts("2026-01-02T08:00:00+00:00");
    let clocked_in = client
        .edit_clock(
            EditClockInput {
                uuid: created.uuid.duplicate(),
                update: EditClockInputStrategy::Fields {
                    identity_pool_user_id: owner_a(),
                    name: None,
                    active: Some(true),
                    clock_in_time: ClockInTimeUpdate::SetTo(now.duplicate()),
                },
            },
            now.duplicate(),
        )
        .unwrap()
        .unwrap();
    assert!(clocked_in.active);
    assert_eq!(clocked_in.clock_in_time, Some(now.duplicate()));

    let noop = client
        .edit_clock(
            EditClockInput {
                uuid: created.uuid.duplicate(),
                update: EditClockInputStrategy::Fields {
                    identity_pool_user_id: owner_a(),
                    name: None,
                    active: None,
                    clock_in_time: ClockInTimeUpdate::NoChange,
                },
            },
            ts("2026-01-02T08:00:01+00:00"),
        )
        .unwrap();
    assert_eq!(noop, None);

    let snapshot = client
        .delete_clock(DeleteClockInput {
            identity_pool_user_id: owner_a(),
            uuid: created.uuid.duplicate(),
        })
        .unwrap();
    assert_eq!(snapshot, clocked_in);

    assert_eq!(client.get_clocks(&GetClocksInput(owner_a())).unwrap(), vec![]);
}

#[test]
fn field_edit_of_an_absent_record_upserts_a_partial_row() {
    let mut client = ClockClient::new();
    let absent_id = Uid::parse("aaaaaaaa-bbbb-cccc-dddd-eeeeeeeeeeee").unwrap();
    let answer = client.edit_clock(
        EditClockInput {
            uuid: absent_id.duplicate(),
            update: EditClockInputStrategy::Fields {
                identity_pool_user_id: owner_a(),
                name: Some("orphan".to_owned()),
                active: None,
                clock_in_time: ClockInTimeUpdate::NoChange,
            },
        },
        ts("2026-01-02T03:04:05+00:00"),
    );
    match answer {
        Err(ClockError::ParseMalformedQuery(field, _)) => {
            assert_eq!(field.as_str(), "active");
        }
        other => panic!("expected the partial row to fail decoding, got {:?}", other),
    }
    let listed = client.get_clocks(&GetClocksInput(owner_a()));
    assert!(matches!(listed, Err(ClockError::ParseMalformedQuery(..))));
}
