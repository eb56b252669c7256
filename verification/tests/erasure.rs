use std::collections::BTreeMap;

use stoat_policy::account::{
    erase_account, Account, AccountErasure, AccountReply, AccountStage, DeletionInfo,
    EmailVerification,
};
use stoat_policy::erasure::{
    Command, ErasurePass, ErasureReport, Reply, ERASURE_POLICY_VERSION, SYSTEM_USER_ID,
};
use stoat_policy::error::Error;
use stoat_policy::mongo::MongoDb;
use stoat_policy::query::{Change, Condition, Filter, Test, Value};

/// A document of the test database.
#[derive(Clone, Default, PartialEq, Debug)]
struct Doc {
    texts: BTreeMap<String, Vec<String>>,
    flags: BTreeMap<String, bool>,
    lists: BTreeMap<String, Vec<BTreeMap<String, String>>>,
}

impl Doc {
    fn with(mut self, path: &str, text: &str) -> Doc {
        self.texts.entry(path.to_string()).or_default().push(text.to_string());
        self
    }

    fn flag(mut self, path: &str, value: bool) -> Doc {
        self.flags.insert(path.to_string(), value);
        self
    }

    fn relation(mut self, id: &str) -> Doc {
        let mut element = BTreeMap::new();
        element.insert("_id".to_string(), id.to_string());
        self.lists.entry("relations".to_string()).or_default().push(element);
        self
    }

    fn reads(&self, path: &str, text: &str) -> bool {
        self.texts.get(path).map_or(false, |values| values.iter().any(|value| value == text))
    }

    fn holds(&self, path: &str, value: &Value) -> bool {
        match value {
            Value::Text(text) => self.reads(path, text),
            Value::Flag(flag) => self.flags.get(path) == Some(flag),
        }
    }

    fn meets(&self, condition: &Condition) -> bool {
        let path = condition.path.as_str();
        match &condition.test {
            Test::Equals(value) => self.holds(path, value),
            Test::OneOf(list) => list.iter().any(|text| self.reads(path, text)),
            Test::Differs(value) => !self.holds(path, value),
            Test::Absent => !self.texts.keys().chain(self.flags.keys()).any(|key| {
                key == path || key.starts_with(&format!("{path}."))
            }),
            Test::HasAll(list) => list.iter().all(|text| self.reads(path, text)),
            Test::HasElement(fields) => self.lists.get(path).map_or(false, |list| {
                list.iter().any(|element| {
                    fields.iter().all(|(field, text)| element.get(field) == Some(text))
                })
            }),
            Test::Matches(_) => panic!("an erasure asks for no expression"),
        }
    }
}

fn picks(filter: &Filter, doc: &Doc) -> bool {
    filter.all.iter().all(|condition| doc.meets(condition))
        && (filter.any.is_empty()
            || filter.any.iter().any(|group| group.iter().all(|c| doc.meets(c))))
}

fn change(doc: &mut Doc, change: &Change) -> bool {
    let before = doc.clone();
    match change {
        Change::Write { path, value: Value::Text(text) } => {
            doc.texts.insert(path.clone(), vec![text.clone()]);
        }
        Change::Write { path, value: Value::Flag(flag) } => {
            doc.flags.insert(path.clone(), *flag);
        }
        Change::Remove { path } => {
            doc.texts.remove(path);
            doc.flags.remove(path);
        }
        Change::Pull { path, item } => {
            if let Some(values) = doc.texts.get_mut(path) {
                values.retain(|value| value != item);
            }
        }
        Change::PullElement { path, id } => {
            if let Some(list) = doc.lists.get_mut(path) {
                list.retain(|element| element.get("_id") != Some(id));
            }
        }
    }
    before != *doc
}

#[derive(Clone, Default, PartialEq, Debug)]
struct Db {
    collections: BTreeMap<String, Vec<Doc>>,
}

impl Db {
    fn insert(&mut self, collection: &str, doc: Doc) {
        self.collections.entry(collection.to_string()).or_default().push(doc);
    }

    fn all(&mut self, collection: &str) -> &mut Vec<Doc> {
        self.collections.entry(collection.to_string()).or_default()
    }

    fn find(&mut self, collection: &str, id: &str) -> Option<Doc> {
        self.all(collection).iter().find(|doc| doc.reads("_id", id)).cloned()
    }

    fn perform(&mut self, command: &Command) -> Reply {
        match command {
            Command::ListIds { collection, filter } => Reply::Ids(
                self.all(collection)
                    .iter()
                    .filter(|doc| picks(filter, doc))
                    .map(|doc| doc.texts["_id"][0].clone())
                    .collect(),
            ),
            Command::Count { collection, filter } => Reply::Number(
                self.all(collection).iter().filter(|doc| picks(filter, doc)).count() as u64,
            ),
            Command::DeleteMany { collection, filter } => {
                let docs = self.all(collection);
                let before = docs.len();
                docs.retain(|doc| !picks(filter, doc));
                Reply::Number((before - docs.len()) as u64)
            }
            Command::DeleteOne { collection, filter } => {
                let docs = self.all(collection);
                if let Some(place) = docs.iter().position(|doc| picks(filter, doc)) {
                    docs.remove(place);
                }
                Reply::Done
            }
            Command::UpdateMany { collection, filter, change: update } => {
                let mut modified = 0;
                for doc in self.all(collection).iter_mut() {
                    if picks(filter, doc) && change(doc, update) {
                        modified += 1;
                    }
                }
                Reply::Number(modified)
            }
            Command::MarkAttachments { filter } => {
                for doc in self.all("attachments").iter_mut() {
                    if picks(filter, doc) {
                        doc.flags.insert("deleted".to_string(), true);
                    }
                }
                Reply::Done
            }
            Command::DeleteChannelObjects { channels } => {
                for name in ["channel_invites", "channel_unreads", "webhooks"] {
                    self.all(name).retain(|doc| !channels.iter().any(|id| doc.reads("channel", id)));
                }
                Reply::Done
            }
        }
    }

    fn erase_user(&mut self, user_id: &str) -> ErasureReport {
        let mut pass = MongoDb.erase_user(user_id);
        while let Some(command) = pass.command() {
            let reply = self.perform(&command);
            assert!(pass.accepts(&reply));
            pass.advance(reply);
        }
        pass.into_report()
    }
}

fn message(id: &str, author: &str) -> Doc {
    Doc::default()
        .with("_id", id)
        .with("channel", "01ERASETESTCHANNEL00000000")
        .with("author", author)
}

#[test]
fn erase_user_takes_their_content_and_leaves_everyone_else_alone() {
    let mut db = Db::default();
    for name in ["Leaver", "Bystander", "SecondLeaver"] {
        db.insert("users", Doc::default().with("_id", name));
    }
    db.insert("messages", message("01ERASETESTLEAVERMESSAGE00", "Leaver"));
    db.insert("messages", message("01ERASETESTBYSTANDERMESSAG", "Bystander"));

    let report = db.erase_user("Leaver");
    assert_eq!(report.user_id, "Leaver");
    assert_eq!(report.policy_version, ERASURE_POLICY_VERSION);
    assert_eq!(report.messages_deleted, 1);
    assert!(db.find("users", "Leaver").is_none());
    assert!(db.find("messages", "01ERASETESTLEAVERMESSAGE00").is_none());
    assert!(db.find("users", "Bystander").is_some());
    assert!(db.find("messages", "01ERASETESTBYSTANDERMESSAG").is_some());

    let system = "00000000000000000000000000";
    assert_eq!(SYSTEM_USER_ID, system);
    db.insert(
        "messages",
        message("01ERASETESTSYSTEMABOUTTHEM", system)
            .with("system.type", "user_joined")
            .with("system.id", "SecondLeaver"),
    );
    db.insert(
        "messages",
        message("01ERASETESTSYSTEMBYTHEM000", system)
            .with("system.type", "user_joined")
            .with("system.id", "Bystander")
            .with("system.by", "SecondLeaver"),
    );
    let sys = db.erase_user("SecondLeaver");
    assert!(db.find("messages", "01ERASETESTSYSTEMABOUTTHEM").is_none());
    let survivor = db.find("messages", "01ERASETESTSYSTEMBYTHEM000").unwrap();
    assert_eq!(survivor.texts["system.by"], vec![system.to_string()]);
    assert_eq!(sys.system_references_scrubbed, 1);

    let second = db.erase_user("Leaver");
    assert_eq!(second.messages_deleted, 0);
    assert!(MongoDb.record_erasure(report).is_ok());
}

fn crowded() -> Db {
    let mut db = Db::default();
    db.insert("users", Doc::default().with("_id", "U").relation("V"));
    db.insert("users", Doc::default().with("_id", "V").relation("U").relation("W"));
    db.insert("users", Doc::default().with("_id", "BOT"));
    db.insert("bots", Doc::default().with("_id", "BOT").with("owner", "U"));
    db.insert("sessions", Doc::default().with("_id", "S1").with("user_id", "U"));
    db.insert("sessions", Doc::default().with("_id", "S2").with("user_id", "BOT"));
    db.insert("sessions", Doc::default().with("_id", "S3").with("user_id", "V"));
    db.insert("messages", message("M1", "U"));
    db.insert("messages", message("M2", "V"));
    let direct = Doc::default().with("_id", "M3").with("channel", "DM").with("author", "V");
    db.insert("messages", direct);
    db.insert(
        "messages",
        message("M4", "SYS").with("system.type", "message_pinned").with("system.id", "U"),
    );
    let channel = |id: &str, kind: &str| Doc::default().with("_id", id).with("channel_type", kind);
    db.insert("channels", channel("SAVED", "SavedMessages").with("user", "U"));
    let pair = channel("DM", "DirectMessage").with("recipients", "U").with("recipients", "V");
    db.insert("channels", pair);
    let group = channel("G", "Group").with("recipients", "U").with("recipients", "V");
    db.insert("channels", group);
    let attachment = |id: &str| Doc::default().with("_id", id);
    db.insert(
        "attachments",
        attachment("A1").with("used_for.type", "UserAvatar").with("used_for.id", "U"),
    );
    db.insert(
        "attachments",
        attachment("A2").with("used_for.type", "Message").with("used_for.id", "M1"),
    );
    db.insert("attachments", attachment("A3").with("uploader_id", "U"));
    db.insert(
        "attachments",
        attachment("A4")
            .with("used_for.type", "Message")
            .with("used_for.id", "M1")
            .flag("reported", true),
    );
    db.insert(
        "attachments",
        attachment("A5")
            .with("uploader_id", "U")
            .with("used_for.type", "ServerIcon")
            .with("used_for.id", "SRV"),
    );
    db.insert("server_members", Doc::default().with("_id.user", "U").with("_id.server", "SRV"));
    db.insert("server_members", Doc::default().with("_id.user", "V").with("_id.server", "SRV"));
    db.insert("server_bans", Doc::default().with("_id.user", "U"));
    db.insert("channel_unreads", Doc::default().with("_id.user", "U"));
    db.insert("channel_invites", Doc::default().with("_id", "I1").with("creator", "U"));
    db.insert("invites", Doc::default().with("_id", "C1").with("claimed_by", "U"));
    db.insert("safety_reports", Doc::default().with("author_id", "U"));
    db
}

#[test]
fn erasure_counts_and_keeps_what_it_is_to_keep() {
    let mut db = crowded();
    let report = db.erase_user("U");
    let expected = ErasureReport {
        user_id: "U".to_string(),
        policy_version: "1".to_string(),
        attachments_marked: 3,
        messages_deleted: 2,
        channels_deleted: 2,
        groups_departed: 1,
        memberships_deleted: 1,
        unreads_deleted: 1,
        invites_deleted: 1,
        bots_deleted: 1,
        relations_pulled: 1,
        sessions_deleted: 2,
        system_references_scrubbed: 0,
        attachments_withheld_reported: 1,
    };
    assert_eq!(report, expected);
    assert!(db.find("messages", "M2").is_some());
    assert!(db.find("messages", "M3").is_none());
    assert!(db.find("messages", "M4").is_some());
    assert!(db.find("users", "BOT").is_none());
    assert_eq!(db.find("users", "V").unwrap().lists["relations"].len(), 1);
    assert_eq!(db.find("channels", "G").unwrap().texts["recipients"], vec!["V".to_string()]);
    assert!(!db.find("invites", "C1").unwrap().texts.contains_key("claimed_by"));
    assert_eq!(db.find("attachments", "A4").unwrap().flags.get("deleted"), Some(&true));
    assert_eq!(db.find("attachments", "A5").unwrap().flags.get("deleted"), None);
    assert_eq!(db.all("server_bans").len(), 1);
    assert_eq!(db.all("safety_reports").len(), 1);
    assert_eq!(db.all("sessions").len(), 1);
    assert_eq!(db.all("server_members").len(), 1);
}

#[test]
fn messages_that_go_with_a_private_channel_are_counted() {
    let mut db = Db::default();
    db.insert(
        "channels",
        Doc::default()
            .with("_id", "D")
            .with("channel_type", "DirectMessage")
            .with("recipients", "L")
            .with("recipients", "S"),
    );
    let theirs = Doc::default().with("_id", "M").with("channel", "D").with("author", "S");
    db.insert("messages", theirs);
    let report = db.erase_user("L");
    assert_eq!(report.channels_deleted, 1);
    assert_eq!(report.messages_deleted, 1);
    assert!(db.find("channels", "D").is_none());
    assert!(db.find("messages", "M").is_none());
}

#[test]
fn the_sentinel_is_erased_quietly_the_second_time() {
    let mut db = Db::default();
    let joined = message("M", "V").with("system.type", "user_joined").with("system.id", "V");
    db.insert("messages", joined.with("system.by", SYSTEM_USER_ID));
    db.insert("consent_records", Doc::default().with("_id", "R").with("user_id", SYSTEM_USER_ID));
    let first = db.erase_user(SYSTEM_USER_ID);
    let after = db.clone();
    assert_eq!(first.system_references_scrubbed, 0);
    assert_eq!(db.erase_user(SYSTEM_USER_ID).system_references_scrubbed, 0);
    assert_eq!(db, after);
    assert!(db.find("consent_records", "R").is_some());
}

#[test]
fn erasure_repeats_cleanly() {
    let mut db = crowded();
    db.erase_user("U");
    let after = db.clone();
    let again = db.erase_user("U");
    assert_eq!(db, after);
    assert_eq!(again.messages_deleted, 0);
    assert_eq!(again.channels_deleted, 0);
    assert_eq!(again.groups_departed, 0);
    assert_eq!(again.relations_pulled, 0);
    assert_eq!(again.system_references_scrubbed, 0);
}

#[test]
fn an_interrupted_erasure_is_finished_by_repeating_it() {
    let mut start = crowded();
    for (name, id) in [("webhooks", "H"), ("channel_invites", "I2"), ("channel_unreads", "R")] {
        let object = Doc::default().with("_id", id).with("channel", "DM").with("creator", "V");
        start.insert(name, object);
    }
    let mut whole = start.clone();
    whole.erase_user("U");
    assert!(whole.find("webhooks", "H").is_none());
    assert!(whole.find("channel_invites", "I2").is_none());
    assert!(whole.find("channel_unreads", "R").is_none());
    for carried_out in 0..25 {
        let mut db = start.clone();
        let mut pass = ErasurePass::new("U");
        for _ in 0..carried_out {
            let reply = db.perform(&pass.command().unwrap());
            pass.advance(reply);
        }
        assert!(db.find("users", "U").is_some(), "after {carried_out} commands");
        db.erase_user("U");
        assert!(db.find("users", "BOT").is_none(), "after {carried_out} commands");
        for name in start.collections.keys() {
            assert_eq!(db.all(name), whole.all(name), "{name} after {carried_out} commands");
        }
    }
}

#[test]
fn what_hangs_on_something_goes_before_it() {
    let mut db = crowded();
    let mut pass = ErasurePass::new("U");
    let mut order = Vec::new();
    while let Some(command) = pass.command() {
        match &command {
            Command::DeleteMany { collection, .. } => order.push(collection.clone()),
            Command::DeleteChannelObjects { .. } => order.push("objects".to_string()),
            _ => {}
        }
        let reply = db.perform(&command);
        pass.advance(reply);
    }
    let expected = [
        "messages",
        "messages",
        "messages",
        "objects",
        "channels",
        "server_members",
        "channel_unreads",
        "channel_invites",
        "users",
        "sessions",
        "bots",
        "sessions",
    ];
    assert_eq!(order, expected);
}

#[test]
fn identity_goes_last() {
    let mut db = crowded();
    let mut pass = ErasurePass::new("U");
    let mut commands = Vec::new();
    while let Some(command) = pass.command() {
        let reply = db.perform(&command);
        pass.advance(reply);
        commands.push(command);
    }
    assert_eq!(commands.len(), 25);
    let singles = commands.iter().filter(|c| matches!(c, Command::DeleteOne { .. })).count();
    assert_eq!(singles, 1);
    assert!(matches!(
        commands.last(),
        Some(Command::DeleteOne { collection, .. }) if collection == "users"
    ));
}

#[test]
fn replies_of_another_kind_are_not_accepted() {
    let pass = ErasurePass::new("U");
    assert!(!pass.accepts(&Reply::Done));
    assert!(!pass.accepts(&Reply::Number(1)));
    assert!(pass.accepts(&Reply::Ids(Vec::new())));
}

#[test]
fn failures_name_the_operation_and_the_collection() {
    let pass = ErasurePass::new("U");
    let failure = pass.command().unwrap().failure().unwrap();
    assert_eq!(
        failure,
        Error::DatabaseError {
            operation: "distinct".to_string(),
            collection: "messages".to_string(),
        }
    );
    let marking = Command::MarkAttachments { filter: Filter { all: Vec::new(), any: Vec::new() } };
    assert!(marking.failure().is_none());
}

#[test]
fn a_blank_report_counts_nothing() {
    let report = ErasureReport::default();
    assert_eq!(report.user_id, "");
    assert_eq!(report.messages_deleted, 0);
    assert_eq!(report.attachments_withheld_reported, 0);
}

fn account() -> Account {
    Account {
        id: "U".to_string(),
        email: "u@example.org".to_string(),
        email_normalised: "u@example.org".to_string(),
        password: "SECRET-REDACTED".to_string(),
        verification: EmailVerification::Pending,
        password_reset: Some("token".to_string()),
        lockout: Some(3),
        deletion: Some(DeletionInfo::Scheduled),
    }
}

fn run_to_scrubbing(db: &mut Db) -> AccountErasure {
    let mut erasure = erase_account(account());
    loop {
        let reply = match &erasure.stage {
            AccountStage::Erasing { pass } => db.perform(&pass.command().unwrap()),
            _ => return erasure,
        };
        erasure = erasure.advance(AccountReply::Answered { reply });
    }
}

#[test]
fn an_account_becomes_a_tombstone_after_everything_is_gone() {
    let mut db = crowded();
    let erasure = run_to_scrubbing(&mut db);
    assert!(db.find("users", "U").is_none());
    let AccountStage::Scrubbing { account, .. } = &erasure.stage else {
        panic!("the account is to be scrubbed")
    };
    assert_eq!(account.id, "U");
    assert_eq!(account.email, "deleted-U");
    assert_eq!(account.email_normalised, "deleted-U");
    assert_eq!(account.password, "");
    assert_eq!(account.verification, EmailVerification::Verified);
    assert_eq!(account.password_reset, None);
    assert_eq!(account.lockout, None);
    assert_eq!(account.deletion, Some(DeletionInfo::Deleted));

    // That it could not be saved does not keep the erasure from being recorded.
    let erasure = erasure.advance(AccountReply::Saved { well: false });
    assert!(matches!(erasure.stage, AccountStage::Recording { .. }));
    let erasure = erasure.advance(AccountReply::Recorded);
    let AccountStage::Finished { outcome } = erasure.stage else { panic!("it is over") };
    assert_eq!(outcome.unwrap().messages_deleted, 2);
}

#[test]
fn a_failure_half_way_leaves_the_account_scheduled() {
    let erasure = erase_account(account());
    let erasure = erasure.advance(AccountReply::Refused { error: Error::InternalError });
    assert_eq!(erasure.account.deletion, Some(DeletionInfo::Scheduled));
    let AccountStage::Finished { outcome } = erasure.stage else { panic!("it is over") };
    assert_eq!(
        outcome,
        Err(Error::DatabaseError {
            operation: "distinct".to_string(),
            collection: "messages".to_string(),
        })
    );
}

#[test]
fn a_record_that_fails_fails_the_erasure() {
    let mut db = crowded();
    let erasure = run_to_scrubbing(&mut db).advance(AccountReply::Saved { well: true });
    let error = MongoDb.record_erasure_failure();
    let erasure = erasure.advance(AccountReply::Refused { error });
    let AccountStage::Finished { outcome } = erasure.stage else { panic!("it is over") };
    assert_eq!(
        outcome,
        Err(Error::DatabaseError {
            operation: "insert_one".to_string(),
            collection: "erasure_log".to_string(),
        })
    );
}
