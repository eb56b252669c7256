use stoat_policy::clock::Timestamp;
use stoat_policy::erasure::ErasureReport;
use stoat_policy::error::Error;
use stoat_policy::mongo::{
    found, found_session, readable, FieldsUser, MongoDb, PipelineStage, RelationStep,
    RelationshipStatus, RelationshipUpdate,
};
use stoat_policy::query::{equals, one_of, Change, Filter, Test, Value};
use stoat_policy::text::{before, contains, decimal, distinct, holds, lines, trim_end_slashes};

fn text(value: &str) -> String {
    value.to_string()
}

fn strings(list: &[&str]) -> Vec<String> {
    list.iter().map(|item| item.to_string()).collect()
}

#[test]
fn users_are_looked_up() {
    let find = MongoDb.fetch_user("u");
    assert_eq!(find.collection, "users");
    assert_eq!(find.filter.all, vec![equals("_id", "u")]);
    let find = MongoDb.fetch_user_by_username("Name", "0001");
    let expected = vec![equals("username", "Name"), equals("discriminator", "0001")];
    assert_eq!(find.filter.all, expected);
    assert!(find.ignore_case);
    let find = MongoDb.fetch_users(&strings(&["a", "b"]));
    assert_eq!(find.filter.all, vec![one_of("_id", &strings(&["a", "b"]))]);
    assert_eq!(
        find.failure(),
        Error::DatabaseError { operation: text("find"), collection: text("users") }
    );
    let find = MongoDb.fetch_discriminators_in_use("Name");
    assert!(find.ignore_case);
    assert_eq!(find.fields, strings(&["discriminator"]));
    let find = MongoDb.fetch_session_by_token("t");
    assert_eq!(find.collection, "sessions");
    assert_eq!(find.filter.all, vec![equals("token", "t")]);
}

#[test]
fn what_is_not_found_is_said() {
    assert_eq!(found(Some(1)), Ok(1));
    assert_eq!(found::<u8>(None), Err(Error::NotFound));
    assert_eq!(found_session(Some(1)), Ok(1));
    assert_eq!(found_session::<u8>(None), Err(Error::InvalidSession));
    assert_eq!(readable(vec![Some(1), None, Some(3)]), vec![1, 3]);
}

#[test]
fn mutual_things_are_those_of_both() {
    let find = MongoDb.fetch_mutual_user_ids("a", "b");
    assert_eq!(find.filter.all.len(), 2);
    let friend = vec![(text("_id"), text("a")), (text("status"), text("Friend"))];
    assert_eq!(find.filter.all[0].test, Test::HasElement(friend));
    let find = MongoDb.fetch_mutual_channel_ids("a", "b");
    let kinds = strings(&["Group", "DirectMessage"]);
    assert_eq!(find.filter.all[0], one_of("channel_type", &kinds));
    assert_eq!(find.filter.all[1].test, Test::HasAll(strings(&["a", "b"])));
    let stages = MongoDb.fetch_mutual_server_ids("a", "b");
    assert_eq!(stages.len(), 4);
    assert_eq!(stages[2], PipelineStage::MatchSize { into: text("members"), size: 1 });
    assert_eq!(stages[3], PipelineStage::Project { path: text("_id.server") });
    assert_eq!(
        MongoDb.fetch_mutual_server_ids_failure(),
        Error::DatabaseError { operation: text("aggregate"), collection: text("server_members") }
    );
}

#[test]
fn a_status_is_not_written_and_removed_at_once() {
    let remove = vec![FieldsUser::Avatar, FieldsUser::StatusText];
    let updates = MongoDb.update_user(true, &remove);
    assert_eq!(updates.len(), 2);
    assert!(!updates[0].write && !updates[0].essential);
    assert_eq!(updates[0].remove, strings(&["avatar", "status.text"]));
    assert!(updates[1].write && updates[1].essential);
    assert!(updates[1].remove.is_empty());
    let updates = MongoDb.update_user(false, &remove);
    assert_eq!(updates.len(), 1);
    assert_eq!(updates[0].remove, strings(&["avatar", "status.text"]));
    let updates = MongoDb.update_user(true, &vec![FieldsUser::StatusPresence]);
    assert_eq!(updates.len(), 1);
    assert_eq!(updates[0].remove, strings(&["status.presence"]));
}

#[test]
fn fields_have_their_paths() {
    let paths: Vec<Option<&str>> = [
        FieldsUser::Avatar,
        FieldsUser::ProfileBackground,
        FieldsUser::ProfileContent,
        FieldsUser::StatusPresence,
        FieldsUser::StatusText,
        FieldsUser::DisplayName,
        FieldsUser::Suspension,
        FieldsUser::Nothing,
    ]
    .iter()
    .map(|field| field.as_path())
    .collect();
    assert_eq!(
        paths,
        vec![
            Some("avatar"),
            Some("profile.background"),
            Some("profile.content"),
            Some("status.presence"),
            Some("status.text"),
            Some("display_name"),
            Some("suspended_until"),
            Some("none"),
        ]
    );
}

#[test]
fn relations_are_set_or_pulled() {
    let update = MongoDb.set_relationship("u", "v", RelationshipStatus::Blocked);
    assert_eq!(
        update,
        RelationshipUpdate::Replace {
            collection: text("users"),
            filter: Filter { all: vec![equals("_id", "u")], any: Vec::new() },
            path: text("relations"),
            steps: vec![
                RelationStep::Without { id: text("v") },
                RelationStep::Append { id: text("v"), status: text("Blocked") },
            ],
        }
    );
    let pulled = MongoDb.set_relationship("u", "v", RelationshipStatus::Unrelated);
    let RelationshipUpdate::Pull { update } = pulled else { panic!("to be pulled") };
    assert_eq!(update, MongoDb.pull_relationship("u", "v"));
    assert_eq!(
        update.change,
        Change::PullElement { path: text("relations"), id: text("v") }
    );
    assert_eq!(
        update.failure(),
        Error::DatabaseError { operation: text("update_one"), collection: text("users") }
    );
    assert_eq!(
        MongoDb.set_relationship_failure(),
        Error::DatabaseError { operation: text("update_one"), collection: text("user") }
    );
}

#[test]
fn moments_are_written_down_in_full() {
    let seen_at = Timestamp { seconds: 1_679_641_559, nanoseconds: 5_000_000 };
    let update = MongoDb.update_session_last_seen("s", seen_at);
    assert_eq!(update.collection, "sessions");
    assert_eq!(
        update.change,
        Change::Write {
            path: text("last_seen"),
            value: Value::Text(text("2023-03-24T07:05:59.005Z")),
        }
    );
    let record = MongoDb.erasure_record(ErasureReport::default(), seen_at).unwrap();
    assert_eq!(record.recorded_at, "2023-03-24T07:05:59.005Z");
    let recorded = MongoDb.record_erasure(ErasureReport::default()).unwrap();
    assert_eq!(recorded.report, ErasureReport::default());
    assert!(recorded.recorded_at.ends_with('Z'));
}

#[test]
fn a_moment_outside_of_the_calendar_is_told() {
    assert!(Timestamp { seconds: 0, nanoseconds: 0 }.is_formattable());
    assert!(!Timestamp { seconds: 253_402_300_800, nanoseconds: 0 }.is_formattable());
    assert!(!Timestamp { seconds: 1, nanoseconds: -1 }.is_formattable());
    let late = Timestamp { seconds: 253_402_300_800, nanoseconds: 0 };
    assert_eq!(
        MongoDb.erasure_record(ErasureReport::default(), late),
        Err(Error::InternalError)
    );
    assert!(!Timestamp { seconds: 1, nanoseconds: 1_000_000_000 }.is_formattable());
    let a = Timestamp { seconds: 1, nanoseconds: 5 };
    let b = Timestamp { seconds: 1, nanoseconds: 6 };
    assert!(a.is_before(b));
    assert!(!b.is_before(a));
    assert!(!a.is_before(a));
}

#[test]
fn a_subscription_is_removed() {
    let update = MongoDb.remove_push_subscription_by_session_id("s");
    assert_eq!(update.filter.all, vec![equals("_id", "s")]);
    assert_eq!(update.change, Change::Remove { path: text("subscription") });
}

#[test]
fn members_are_searched_for_literally() {
    let find = MongoDb.search_discord_members("A.B", 5, 25);
    assert_eq!(find.collection, "discord_members");
    assert_eq!(find.filter.all[0].path, "search");
    assert_eq!(find.filter.all[0].test, Test::Matches(text("a\\.b")));
    assert_eq!(
        find.sort,
        vec![(text("synced_at"), false), (text("search"), true), (text("_id"), true)]
    );
    assert_eq!((find.skip, find.limit), (Some(5), Some(25)));
    assert!(MongoDb.search_discord_members("", 0, 1).filter.all.is_empty());
}

#[test]
fn claims_and_consent_are_looked_up() {
    assert!(MongoDb.fetch_discord_identities_by_ids(&Vec::new()).is_none());
    let find = MongoDb.fetch_discord_identities_by_ids(&strings(&["1"])).unwrap();
    assert_eq!(find.filter.all, vec![one_of("_id", &strings(&["1"]))]);
    assert_eq!(MongoDb.fetch_discord_identities().sort, vec![(text("claimed_at"), false)]);
    let find = MongoDb.fetch_discord_identity_by_user("u");
    assert_eq!(find.filter.all, vec![equals("user", "u")]);
    assert_eq!(MongoDb.fetch_discord_identity("1").collection, "discord_identities");
    assert_eq!(MongoDb.fetch_discord_member("1").collection, "discord_members");
    let find = MongoDb.fetch_consent_records("u");
    assert_eq!(find.sort, vec![(text("utc_timestamp"), true)]);
    let (filter, stamp) = MongoDb.confirm_discord_identity("1", "admin");
    assert_eq!(filter.all, vec![equals("_id", "1")]);
    assert_eq!(stamp.confirmed_by, "admin");
    assert!(stamp.confirmed_at.seconds > 1_600_000_000);
    assert_eq!(MongoDb.delete_unconfirmed_discord_identity("1").any.len(), 2);
}

#[test]
fn texts_are_taken_apart() {
    assert_eq!(trim_end_slashes("https://a//"), "https://a");
    assert_eq!(trim_end_slashes("//"), "");
    assert!(before("a", "ab") && before("ab", "b") && !before("b", "b"));
    assert!(contains("héllo", "éll") && contains("x", "") && !contains("x", "xx"));
    assert_eq!(decimal(0), "0");
    assert_eq!(decimal(u64::MAX), "18446744073709551615");
    assert_eq!(distinct(&strings(&["b", "a", "b"])), strings(&["b", "a"]));
    assert_eq!(lines("a\n\nb"), strings(&["a", "", "b"]));
    assert!(holds(&strings(&["a"]), "a") && !holds(&strings(&["a"]), "b"));
}
