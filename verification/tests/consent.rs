use stoat_policy::clock::Timestamp;
use stoat_policy::consent::{
    fetch_consent, record_consent, AbstractConsentRecord, ConsentAck, ConsentClient, ConsentEvent,
    ConsentRecord, DataConsent, UserAgent, NO_ACKS, NO_TEXT, WRONG_TEXT,
};
use stoat_policy::error::Error;
use stoat_policy::policy::{
    latest_policy_change_time, AbstractPolicyChange, Acknowledged, Consents, Policies, PolicyCache,
    PolicyChange, TTL,
};
use stoat_policy::reference::ReferenceDb;

fn at(seconds: i64) -> Timestamp {
    Timestamp { seconds, nanoseconds: 0 }
}

fn policy(id: &str, created: i64, sha256: Option<&str>) -> PolicyChange {
    PolicyChange {
        id: id.to_string(),
        created_time: at(created),
        effective_time: at(created + 100),
        description: "changes".to_string(),
        url: "https://example.org/policy".to_string(),
        version: Some(format!("v-{id}")),
        sha256: sha256.map(|hash| hash.to_string()),
    }
}

fn ack(key: &str, granted: bool) -> ConsentAck {
    ConsentAck { ack_key: key.to_string(), granted }
}

fn decisions(policy_id: &str, hash: &str, acks: Vec<ConsentAck>) -> DataConsent {
    DataConsent {
        policy_id: policy_id.to_string(),
        policy_version: "2026-09".to_string(),
        policy_sha256: hash.to_string(),
        acks,
        client: Some("android".to_string()),
    }
}

fn invalid(reason: &str) -> Error {
    Error::FailedValidation { error: reason.to_string() }
}

#[test]
fn one_row_is_written_per_decision_and_then_the_policy_acknowledged() {
    let mut db = ReferenceDb::new();
    db.policy_changes.push(policy("p", 1, Some("hash")));
    let data = decisions("p", "hash", vec![ack("age_18_plus", true), ack("imagery", false)]);
    let ip = Some("192.0.2.7".to_string());
    let agent = UserAgent(Some("browser".to_string()));
    assert_eq!(record_consent(&mut db, "u", &data, &ip, &agent), Ok(()));
    assert_eq!(db.acknowledgements, vec!["u".to_string()]);
    let rows = db.fetch_consent_records("u").unwrap();
    assert_eq!(rows.len(), 2);
    assert_eq!(rows[0].ack_key, "age_18_plus");
    assert_eq!(rows[0].event, ConsentEvent::Grant);
    assert_eq!(rows[1].ack_key, "imagery");
    assert_eq!(rows[1].event, ConsentEvent::Withdraw);
    for row in &rows {
        assert_eq!(row.user_id, "u");
        assert_eq!(row.policy_id, "p");
        assert_eq!(row.policy_version, "2026-09");
        assert_eq!(row.policy_sha256, "hash");
        assert_eq!(row.client, ConsentClient::Android);
        assert_eq!(row.ip.as_deref(), Some("192.0.2.7"));
        assert_eq!(row.user_agent.as_deref(), Some("browser"));
        assert_eq!(row.id.len(), 26);
        assert!(row.utc_timestamp.seconds > 1_600_000_000);
    }
    assert_ne!(rows[0].id, rows[1].id);
    assert!(db.fetch_consent_records("v").unwrap().is_empty());
}

#[test]
fn consent_to_nothing_or_to_another_text_is_refused() {
    let mut db = ReferenceDb::new();
    db.policy_changes.push(policy("p", 1, Some("hash")));
    db.policy_changes.push(policy("q", 2, None));
    let agent = UserAgent(None);
    let mut refused = |data: DataConsent| record_consent(&mut db, "u", &data, &None, &agent);
    assert_eq!(refused(decisions("p", "hash", vec![])), Err(invalid(NO_ACKS)));
    let acks = || vec![ack("age_18_plus", true)];
    assert_eq!(refused(decisions("none", "hash", acks())), Err(Error::NotFound));
    assert_eq!(refused(decisions("p", "other", acks())), Err(invalid(WRONG_TEXT)));
    assert_eq!(refused(decisions("q", "hash", acks())), Err(invalid(NO_TEXT)));
    assert_eq!(db.consent_records.len(), 0);
    assert!(db.acknowledgements.is_empty());
}

#[test]
fn the_surface_is_what_the_client_says() {
    let agent = UserAgent(None);
    for (client, expected) in [
        (Some("web"), ConsentClient::Web),
        (Some("android"), ConsentClient::Android),
        (Some("api"), ConsentClient::Api),
        (Some("toaster"), ConsentClient::Api),
        (None, ConsentClient::Api),
    ] {
        let mut db = ReferenceDb::new();
        db.policy_changes.push(policy("p", 1, Some("hash")));
        let mut data = decisions("p", "hash", vec![ack("k", true)]);
        data.client = client.map(|name| name.to_string());
        record_consent(&mut db, "u", &data, &None, &agent).unwrap();
        assert_eq!(db.fetch_consent_records("u").unwrap()[0].client, expected);
    }
}

fn row(id: &str, when: i64, policy_id: &str, key: &str, event: ConsentEvent) -> ConsentRecord {
    ConsentRecord {
        id: id.to_string(),
        user_id: "u".to_string(),
        event,
        utc_timestamp: at(when),
        policy_id: policy_id.to_string(),
        policy_version: "2026-09".to_string(),
        policy_sha256: "hash".to_string(),
        ack_key: key.to_string(),
        client: ConsentClient::Web,
        ip: None,
        user_agent: None,
    }
}

#[test]
fn the_latest_decision_wins_and_only_the_current_policy_counts() {
    let mut db = ReferenceDb::new();
    db.policy_changes.push(policy("new", 20, Some("hash")));
    db.policy_changes.push(policy("old", 10, Some("hash")));
    for record in [
        row("3", 30, "new", "imagery", ConsentEvent::Withdraw),
        row("1", 10, "new", "imagery", ConsentEvent::Grant),
        row("2", 20, "new", "rules", ConsentEvent::Withdraw),
        row("4", 40, "new", "rules", ConsentEvent::Grant),
        row("5", 50, "old", "privacy", ConsentEvent::Grant),
    ] {
        db.insert_consent_record(&record).unwrap();
    }
    let state = fetch_consent(&db, "u").unwrap();
    assert_eq!(state.policy_id, "new");
    assert_eq!(state.policy_version.as_deref(), Some("v-new"));
    assert_eq!(state.acks, vec![ack("imagery", false), ack("rules", true)]);
    assert_eq!(fetch_consent(&db, "v").unwrap().acks, vec![]);
}

#[test]
fn without_a_policy_there_is_no_position() {
    let db = ReferenceDb::new();
    assert_eq!(fetch_consent(&db, "u"), Err(Error::NotFound));
}

#[test]
fn records_are_appended_and_come_oldest_first() {
    let mut db = ReferenceDb::new();
    db.insert_consent_record(&row("b", 2, "p", "k", ConsentEvent::Grant)).unwrap();
    db.insert_consent_record(&row("c", 3, "p", "k", ConsentEvent::Withdraw)).unwrap();
    db.insert_consent_record(&row("a", 1, "p", "k", ConsentEvent::Grant)).unwrap();
    let ids: Vec<String> =
        db.fetch_consent_records("u").unwrap().into_iter().map(|record| record.id).collect();
    assert_eq!(ids, vec!["a".to_string(), "b".to_string(), "c".to_string()]);
}

#[test]
fn the_newest_policy_is_cached_for_its_time() {
    let mut db = ReferenceDb::new();
    let mut cache = PolicyCache::new();
    assert_eq!(latest_policy_change_time(&db, &mut cache, 0), at(0));
    db.policy_changes.push(policy("a", 70, None));
    db.policy_changes.push(policy("b", 50, None));
    assert_eq!(latest_policy_change_time(&db, &mut cache, TTL - 1), at(0));
    assert_eq!(latest_policy_change_time(&db, &mut cache, TTL), at(70));
    assert_eq!(cache.fresh(2 * TTL - 1), Some(at(70)));
    assert_eq!(cache.fresh(2 * TTL), None);
}

#[test]
fn a_database_error_lets_everyone_through() {
    let mut cache = PolicyCache::new();
    assert_eq!(cache.renew(5, Err(Error::InternalError)), at(0));
    assert_eq!(cache.fresh(6), Some(at(0)));
}

#[test]
fn acknowledging_is_noted() {
    let mut db = ReferenceDb::new();
    db.acknowledge_policy_changes("u").unwrap();
    assert_eq!(db.acknowledgements, vec!["u".to_string()]);
    assert!(db.fetch_policy_changes().unwrap().is_empty());
}

/// A database that answers so many calls and then fails.
struct Failing {
    db: ReferenceDb,
    left: usize,
}

impl Failing {
    fn after(left: usize) -> Failing {
        let mut db = ReferenceDb::new();
        db.policy_changes.push(policy("p", 1, Some("hash")));
        Failing { db, left }
    }

    fn call(&mut self, operation: &str) -> Result<(), Error> {
        if self.left == 0 {
            return Err(failure(operation));
        }
        self.left -= 1;
        Ok(())
    }
}

fn failure(operation: &str) -> Error {
    Error::DatabaseError { operation: operation.to_string(), collection: "any".to_string() }
}

impl AbstractPolicyChange for Failing {
    fn policies_reliable(&self) -> bool {
        unreachable!()
    }

    fn policies(&self) -> Policies {
        unreachable!()
    }

    fn acknowledged(&self) -> Acknowledged {
        unreachable!()
    }

    fn consents(&self) -> Consents {
        unreachable!()
    }

    fn consents_valid(&self) -> bool {
        unreachable!()
    }

    fn consents_reliable(&self) -> bool {
        unreachable!()
    }

    fn policies_may_answer(_error: Error) -> bool {
        unreachable!()
    }

    fn fetch_policy_changes(&self) -> Result<Vec<PolicyChange>, Error> {
        if self.left == 0 { Err(failure("find")) } else { self.db.fetch_policy_changes() }
    }

    fn acknowledge_policy_changes(&mut self, user_id: &str) -> Result<(), Error> {
        self.call("update_one")?;
        self.db.acknowledge_policy_changes(user_id)
    }
}

impl AbstractConsentRecord for Failing {
    fn may_refuse(_record: ConsentRecord, _error: Error) -> bool {
        unreachable!()
    }

    fn consents_may_answer(_error: Error) -> bool {
        unreachable!()
    }

    fn insert_consent_record(&mut self, record: &ConsentRecord) -> Result<(), Error> {
        self.call("insert_one")?;
        self.db.insert_consent_record(record)
    }

    fn fetch_consent_records(&self, user_id: &str) -> Result<Vec<ConsentRecord>, Error> {
        if self.left == 0 { Err(failure("find")) } else { self.db.fetch_consent_records(user_id) }
    }
}

#[test]
fn an_error_of_the_database_is_handed_on_with_what_was_written_before_it() {
    let data = decisions("p", "hash", vec![ack("age_18_plus", true), ack("imagery", false)]);
    let agent = UserAgent(None);
    for (left, operation) in [(0, "find"), (1, "insert_one"), (2, "update_one")] {
        let mut store = Failing::after(left);
        let result = record_consent(&mut store, "u", &data, &None, &agent);
        assert_eq!(result, Err(failure(operation)));
        let rows = store.db.fetch_consent_records("u").unwrap();
        assert_eq!(rows.len(), left);
        for (row, ack) in rows.iter().zip(&data.acks) {
            assert_eq!(row.ack_key, ack.ack_key);
        }
        assert!(store.db.acknowledgements.is_empty());
    }

    let mut store = Failing::after(3);
    assert_eq!(record_consent(&mut store, "u", &data, &None, &agent), Ok(()));
    assert_eq!(store.db.fetch_consent_records("u").unwrap().len(), 2);
    assert_eq!(store.db.acknowledgements, vec!["u".to_string()]);
}

#[test]
fn a_position_is_not_made_up_where_the_database_fails() {
    assert!(matches!(fetch_consent(&Failing::after(0), "u"), Err(error) if error == failure("find")));
    assert!(fetch_consent(&Failing::after(1), "u").is_ok());
}

#[test]
fn a_refusal_comes_before_any_call() {
    let mut store = Failing::after(0);
    let nothing = decisions("p", "hash", Vec::new());
    let result = record_consent(&mut store, "u", &nothing, &None, &UserAgent(None));
    assert_eq!(result, Err(invalid(NO_ACKS)));
}
