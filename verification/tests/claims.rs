use stoat_policy::claims::{
    claim_discord_identity, confirm_discord_claim, fetch_discord_claims,
    fetch_my_discord_identity, reject_discord_claim, rejection, search_discord_members,
    withdraw_discord_identity, DataClaimDiscordIdentity, Rejection, ServerPermissions, CONFIRMED,
    GONE, TAKEN,
};
use stoat_policy::clock::Timestamp;
use stoat_policy::discord::{
    escape_regex, AbstractDiscordIdentity, ConfirmStamp, DiscordIdentity, DiscordMember, Identities,
    Members,
};
use stoat_policy::error::Error;
use stoat_policy::reference::ReferenceDb;
use stoat_policy::users::{AbstractUsers, User, Users};

const PLAIN: ServerPermissions = ServerPermissions { manage_server: false, verify_members: false };
const VERIFIER: ServerPermissions =
    ServerPermissions { manage_server: false, verify_members: true };
const MANAGER: ServerPermissions = ServerPermissions { manage_server: true, verify_members: false };

fn at(seconds: i64) -> Timestamp {
    Timestamp { seconds, nanoseconds: 0 }
}

fn member(id: &str, name: &str, synced: i64) -> DiscordMember {
    DiscordMember {
        id: id.to_string(),
        username: name.to_string(),
        display_name: Some(format!("{name} display")),
        nickname: None,
        search: name.to_lowercase(),
        synced_at: at(synced),
    }
}

fn identity(id: &str, user: &str, claimed: i64, confirmed: bool) -> DiscordIdentity {
    DiscordIdentity {
        id: id.to_string(),
        user: user.to_string(),
        discord_username: "someone".to_string(),
        discord_display_name: None,
        claimed_at: at(claimed),
        source: "member".to_string(),
        confirmed_by: if confirmed { Some("01ADMIN".to_string()) } else { None },
        confirmed_at: if confirmed { Some(at(claimed)) } else { None },
    }
}

fn data(id: &str) -> DataClaimDiscordIdentity {
    DataClaimDiscordIdentity { discord_id: id.to_string() }
}

fn missing(permission: &str) -> Error {
    Error::MissingPermission { permission: permission.to_string() }
}

fn invalid(reason: &str) -> Error {
    Error::FailedValidation { error: reason.to_string() }
}

#[test]
fn a_claim_needs_both_stamps() {
    let mut claim = identity("1", "u", 1, true);
    assert!(claim.is_confirmed());
    claim.confirmed_at = None;
    assert!(!claim.is_confirmed());
    let mut claim = identity("1", "u", 1, true);
    claim.confirmed_by = None;
    assert!(!claim.is_confirmed());
    assert!(!identity("1", "u", 1, false).is_confirmed());
}

#[test]
fn escaping_leaves_nothing_with_a_meaning() {
    assert_eq!(escape_regex(".*"), "\\.\\*");
    assert_eq!(escape_regex("\\^$.|?*+()[]{}"), "\\\\\\^\\$\\.\\|\\?\\*\\+\\(\\)\\[\\]\\{\\}");
    assert_eq!(escape_regex("bunjie-1_é"), "bunjie-1_é");
    assert_eq!(escape_regex(""), "");
}

#[test]
fn a_member_claims_an_account_of_the_snapshot() {
    let mut db = ReferenceDb::new();
    db.discord_members.put(member("10", "Bunjie", 1));
    let claim = claim_discord_identity(&mut db, "u", &data("10")).unwrap();
    assert_eq!(claim.discord_id, "10");
    assert_eq!(claim.user, "u");
    assert_eq!(claim.discord_username, "Bunjie");
    assert_eq!(claim.discord_display_name.as_deref(), Some("Bunjie display"));
    assert_eq!(claim.source, "signup");
    assert_eq!(claim.confirmed_by, None);
    assert_eq!(claim.confirmed_at, None);
    // The clock was asked: the claim is of this century.
    assert!(claim.claimed_at.seconds > 1_600_000_000);

    let mine = fetch_my_discord_identity(&db, "u").unwrap();
    assert_eq!(mine, Some(claim));
    assert_eq!(fetch_my_discord_identity(&db, "v").unwrap(), None);
}

#[test]
fn the_nickname_is_what_a_member_recognises() {
    let mut db = ReferenceDb::new();
    let mut with_nickname = member("10", "Bunjie", 1);
    with_nickname.nickname = Some("B".to_string());
    db.discord_members.put(with_nickname);
    let claim = claim_discord_identity(&mut db, "u", &data("10")).unwrap();
    assert_eq!(claim.discord_display_name.as_deref(), Some("B"));
}

#[test]
fn an_account_outside_of_the_snapshot_cannot_be_claimed() {
    let mut db = ReferenceDb::new();
    assert_eq!(claim_discord_identity(&mut db, "u", &data("10")), Err(Error::NotFound));
}

#[test]
fn somebody_elses_claim_is_never_overwritten() {
    let mut db = ReferenceDb::new();
    db.discord_members.put(member("10", "Bunjie", 1));
    let first = claim_discord_identity(&mut db, "u", &data("10")).unwrap();
    assert_eq!(claim_discord_identity(&mut db, "v", &data("10")), Err(invalid(TAKEN)));
    assert_eq!(fetch_my_discord_identity(&db, "u").unwrap(), Some(first));
}

#[test]
fn claiming_again_keeps_the_confirmation() {
    let mut db = ReferenceDb::new();
    db.discord_members.put(member("10", "Bunjie", 1));
    db.discord_identities.put(identity("10", "u", 5, true));
    let claim = claim_discord_identity(&mut db, "u", &data("10")).unwrap();
    assert_eq!(claim.confirmed_by.as_deref(), Some("01ADMIN"));
}

#[test]
fn a_pending_claim_is_released_and_a_confirmed_one_is_not() {
    let mut db = ReferenceDb::new();
    db.discord_members.put(member("10", "A", 1));
    db.discord_members.put(member("11", "B", 1));
    db.discord_members.put(member("12", "C", 1));
    claim_discord_identity(&mut db, "u", &data("10")).unwrap();
    claim_discord_identity(&mut db, "u", &data("11")).unwrap();
    assert_eq!(db.fetch_discord_identity("10").unwrap(), None);
    db.confirm_discord_identity("11", "admin").unwrap();
    assert_eq!(claim_discord_identity(&mut db, "u", &data("12")), Err(invalid(CONFIRMED)));
    assert!(db.fetch_discord_identity("11").unwrap().is_some());
    assert_eq!(withdraw_discord_identity(&mut db, "u"), Err(invalid(CONFIRMED)));
}

#[test]
fn a_pending_claim_can_be_withdrawn() {
    let mut db = ReferenceDb::new();
    db.discord_identities.put(identity("10", "u", 5, false));
    assert_eq!(withdraw_discord_identity(&mut db, "v"), Ok(()));
    assert!(db.fetch_discord_identity("10").unwrap().is_some());
    assert_eq!(withdraw_discord_identity(&mut db, "u"), Ok(()));
    assert!(db.fetch_discord_identity("10").unwrap().is_none());
}

#[test]
fn search_is_by_name_in_any_case_newest_sync_first() {
    let mut db = ReferenceDb::new();
    db.discord_members.put(member("3", "Anna", 1));
    db.discord_members.put(member("2", "Joanna", 1));
    db.discord_members.put(member("1", "Joanna", 1));
    db.discord_members.put(member("4", "Hannah", 9));
    db.discord_members.put(member("5", "Bob", 9));
    db.discord_identities.put(identity("2", "u", 5, false));
    let found = search_discord_members(&db, &Some("ANNA".to_string()), None, None).unwrap();
    let ids: Vec<&str> = found.items.iter().map(|item| item.id.as_str()).collect();
    assert_eq!(ids, vec!["4", "3", "1", "2"]);
    assert_eq!(found.total, 4);
    let claimed: Vec<bool> = found.items.iter().map(|item| item.claimed).collect();
    assert_eq!(claimed, vec![false, false, false, true]);

    // The case of the query makes no difference.
    for query in ["anna", "Anna", "aNNa"] {
        let again = search_discord_members(&db, &Some(query.to_string()), None, None).unwrap();
        assert_eq!(again.total, 4);
        let again: Vec<&str> = again.items.iter().map(|item| item.id.as_str()).collect();
        assert_eq!(again, ids);
    }

    let all = search_discord_members(&db, &None, None, None).unwrap();
    assert_eq!(all.total, 5);
    let none = search_discord_members(&db, &Some("a.*".to_string()), None, None).unwrap();
    assert_eq!(none.total, 0);
}

#[test]
fn pages_are_capped() {
    let mut db = ReferenceDb::new();
    for i in 0..60 {
        db.discord_members.put(member(&format!("{i:03}"), &format!("name{i:03}"), 1));
    }
    let page = |skip, limit| {
        let found = search_discord_members(&db, &None, skip, limit).unwrap();
        assert_eq!(found.total, 60);
        found.items.into_iter().map(|item| item.id).collect::<Vec<String>>()
    };
    assert_eq!(page(None, None).len(), 25);
    assert_eq!(page(None, Some(1000)).len(), 50);
    assert_eq!(page(None, Some(0)).len(), 1);
    assert_eq!(page(None, Some(-5)).len(), 1);
    assert_eq!(page(Some(58), Some(50)), vec!["058".to_string(), "059".to_string()]);
    assert_eq!(page(Some(u64::MAX), Some(50)).len(), 0);
    let mut both = page(Some(0), Some(30));
    both.extend(page(Some(30), Some(30)));
    let all: Vec<String> = (0..60).map(|i| format!("{i:03}")).collect();
    assert_eq!(both, all);
}

#[test]
fn verify_members_alone_can_read_claims_but_a_plain_member_cannot() {
    let mut db = ReferenceDb::new();
    db.discord_identities.put(identity("1", "u", 1, false));
    db.discord_identities.put(identity("2", "v", 3, true));
    db.discord_identities.put(identity("3", "w", 2, false));
    assert_eq!(fetch_discord_claims(&db, PLAIN), Err(missing("VerifyMembers")));
    for permissions in [VERIFIER, MANAGER] {
        let claims = fetch_discord_claims(&db, permissions).unwrap();
        let ids: Vec<&str> = claims.iter().map(|claim| claim.discord_id.as_str()).collect();
        assert_eq!(ids, vec!["2", "3", "1"]);
    }
}

#[test]
fn verify_members_rules_for_confirm_and_reject() {
    let mut db = ReferenceDb::new();
    for id in ["claimant", "verifier"] {
        db.users.put(User { id: id.to_string(), bot: false });
    }

    // Confirm: someone else's claim is fine, your own is not.
    db.discord_identities.put(identity("theirs", "claimant", 1, false));
    db.discord_identities.put(identity("mine", "verifier", 1, false));
    assert_eq!(
        confirm_discord_claim(&mut db, "plain", PLAIN, "theirs"),
        Err(missing("VerifyMembers"))
    );
    assert_eq!(confirm_discord_claim(&mut db, "verifier", VERIFIER, "theirs"), Ok(()));
    assert_eq!(
        confirm_discord_claim(&mut db, "verifier", VERIFIER, "mine"),
        Err(missing("ManageServer"))
    );
    assert_eq!(confirm_discord_claim(&mut db, "manager", MANAGER, "mine"), Ok(()));
    let stamped = db.fetch_discord_identity("theirs").unwrap().unwrap();
    assert_eq!(stamped.confirmed_by.as_deref(), Some("verifier"));
    assert!(stamped.is_confirmed());

    // Reject: unconfirmed is fine for a verifier, confirmed is not.
    db.discord_identities.put(identity("unconfirmed", "claimant", 1, false));
    db.discord_identities.put(identity("confirmed", "claimant", 1, true));
    assert_eq!(reject_discord_claim(&mut db, VERIFIER, "unconfirmed"), Ok(()));
    assert!(db.fetch_discord_identity("unconfirmed").unwrap().is_none());
    assert_eq!(
        reject_discord_claim(&mut db, VERIFIER, "confirmed"),
        Err(missing("ManageServer"))
    );
    assert!(db.fetch_discord_identity("confirmed").unwrap().is_some());
    assert_eq!(reject_discord_claim(&mut db, MANAGER, "confirmed"), Ok(()));
    assert!(db.fetch_discord_identity("confirmed").unwrap().is_none());

    // An outsider learns nothing about whether a claim exists: same answer either way.
    db.discord_identities.put(identity("still_there", "claimant", 1, true));
    let a = reject_discord_claim(&mut db, PLAIN, "still_there");
    let b = reject_discord_claim(&mut db, PLAIN, "does-not-exist");
    assert_eq!(a, b);
    assert_eq!(a, Err(missing("VerifyMembers")));
}

#[test]
fn confirming_needs_a_claim_and_a_claimant() {
    let mut db = ReferenceDb::new();
    assert_eq!(confirm_discord_claim(&mut db, "m", MANAGER, "1"), Err(Error::NotFound));
    db.discord_identities.put(identity("1", "gone", 1, false));
    assert_eq!(confirm_discord_claim(&mut db, "m", MANAGER, "1"), Err(invalid(GONE)));
    db.discord_identities.put(identity("2", "gone", 7, true));
    assert_eq!(confirm_discord_claim(&mut db, "m", MANAGER, "2"), Ok(()));
    let kept = db.fetch_discord_identity("2").unwrap().unwrap();
    assert_eq!(kept.confirmed_by.as_deref(), Some("01ADMIN"));
}

#[test]
fn a_claim_confirmed_a_moment_ago_is_not_undone_by_a_verifier() {
    assert_eq!(rejection(true, VERIFIER), Ok(Rejection::Over));
    assert_eq!(rejection(true, MANAGER), Ok(Rejection::Over));
    assert_eq!(rejection(false, VERIFIER), Err(missing("ManageServer")));
    assert_eq!(rejection(false, MANAGER), Ok(Rejection::Delete));
}

#[test]
fn rejecting_what_is_not_there_does_nothing() {
    let mut db = ReferenceDb::new();
    assert_eq!(reject_discord_claim(&mut db, VERIFIER, "1"), Ok(()));
}

#[test]
fn claims_are_found_by_their_accounts() {
    let mut db = ReferenceDb::new();
    db.insert_discord_identity(&identity("1", "u", 1, false)).unwrap();
    db.insert_discord_identity(&identity("2", "v", 1, false)).unwrap();
    let ids = vec!["2".to_string(), "9".to_string()];
    let found = db.fetch_discord_identities_by_ids(&ids).unwrap();
    assert_eq!(found, vec![identity("2", "v", 1, false)]);
    assert_eq!(db.delete_unconfirmed_discord_identity("2"), Ok(true));
    assert_eq!(db.delete_unconfirmed_discord_identity("2"), Ok(false));
    db.delete_discord_identity("1").unwrap();
    assert_eq!(db.discord_identities.len(), 0);
    assert_eq!(db.fetch_discord_member("1").unwrap(), None);
}

#[test]
fn stamps_go_on_together() {
    let stamp = ConfirmStamp::at("admin", at(9));
    let claim = stamp.put_on(&identity("1", "u", 1, false));
    assert_eq!(claim.confirmed_by.as_deref(), Some("admin"));
    assert_eq!(claim.confirmed_at, Some(at(9)));
    assert_eq!(claim.user, "u");
}

/// A database that cannot be reached.
struct Down;

fn down() -> Error {
    Error::DatabaseError { operation: "connect".to_string(), collection: "any".to_string() }
}

impl AbstractUsers for Down {
    fn users_valid(&self) -> bool {
        unreachable!()
    }

    fn users_reliable(&self) -> bool {
        unreachable!()
    }

    fn users(&self) -> Users {
        unreachable!()
    }

    fn users_may_answer(_error: Error) -> bool {
        unreachable!()
    }

    fn fetch_user(&self, _id: &str) -> Result<User, Error> {
        Err(down())
    }
}

impl AbstractDiscordIdentity for Down {
    fn valid(&self) -> bool {
        unreachable!()
    }

    fn reliable(&self) -> bool {
        unreachable!()
    }

    fn members(&self) -> Members {
        unreachable!()
    }

    fn identities(&self) -> Identities {
        unreachable!()
    }

    fn may_answer(_error: Error) -> bool {
        unreachable!()
    }

    fn search_discord_members(
        &self,
        _query: &str,
        _skip: u64,
        _limit: i64,
    ) -> Result<(Vec<DiscordMember>, u64), Error> {
        Err(down())
    }

    fn fetch_discord_member(&self, _discord_id: &str) -> Result<Option<DiscordMember>, Error> {
        Err(down())
    }

    fn fetch_discord_identity(&self, _discord_id: &str) -> Result<Option<DiscordIdentity>, Error> {
        Err(down())
    }

    fn fetch_discord_identity_by_user(
        &self,
        _user_id: &str,
    ) -> Result<Option<DiscordIdentity>, Error> {
        Err(down())
    }

    fn fetch_discord_identities_by_ids(
        &self,
        _discord_ids: &Vec<String>,
    ) -> Result<Vec<DiscordIdentity>, Error> {
        Err(down())
    }

    fn fetch_discord_identities(&self) -> Result<Vec<DiscordIdentity>, Error> {
        Err(down())
    }

    fn insert_discord_identity(&mut self, _identity: &DiscordIdentity) -> Result<(), Error> {
        Err(down())
    }

    fn confirm_discord_identity(
        &mut self,
        _discord_id: &str,
        _admin_id: &str,
    ) -> Result<(), Error> {
        Err(down())
    }

    fn delete_discord_identity(&mut self, _discord_id: &str) -> Result<(), Error> {
        Err(down())
    }

    fn delete_unconfirmed_discord_identity(&mut self, _discord_id: &str) -> Result<bool, Error> {
        Err(down())
    }
}

#[test]
fn an_error_of_the_database_is_handed_on() {
    assert_eq!(fetch_my_discord_identity(&Down, "u"), Err(down()));
    assert_eq!(claim_discord_identity(&mut Down, "u", &data("10")), Err(down()));
    assert_eq!(withdraw_discord_identity(&mut Down, "u"), Err(down()));
    assert_eq!(confirm_discord_claim(&mut Down, "u", VERIFIER, "10"), Err(down()));
    assert_eq!(reject_discord_claim(&mut Down, MANAGER, "10"), Err(down()));
    assert!(matches!(
        search_discord_members(&Down, &None, None, None),
        Err(error) if error == down()
    ));
    assert_eq!(fetch_discord_claims(&Down, MANAGER), Err(down()));
    // What a caller may not do is refused before the database is asked.
    assert_eq!(fetch_discord_claims(&Down, PLAIN), Err(missing("VerifyMembers")));
    assert_eq!(reject_discord_claim(&mut Down, PLAIN, "10"), Err(missing("VerifyMembers")));
}

/// A database in which somebody else confirms a claim right after it was read.
struct Racing {
    db: ReferenceDb,
}

impl AbstractUsers for Racing {
    fn users_valid(&self) -> bool {
        unreachable!()
    }

    fn users_reliable(&self) -> bool {
        unreachable!()
    }

    fn users(&self) -> Users {
        unreachable!()
    }

    fn users_may_answer(_error: Error) -> bool {
        unreachable!()
    }

    fn fetch_user(&self, _id: &str) -> Result<User, Error> {
        unreachable!()
    }
}

impl AbstractDiscordIdentity for Racing {
    fn valid(&self) -> bool {
        unreachable!()
    }

    fn reliable(&self) -> bool {
        unreachable!()
    }

    fn members(&self) -> Members {
        unreachable!()
    }

    fn identities(&self) -> Identities {
        unreachable!()
    }

    fn may_answer(_error: Error) -> bool {
        unreachable!()
    }

    fn search_discord_members(
        &self,
        _query: &str,
        _skip: u64,
        _limit: i64,
    ) -> Result<(Vec<DiscordMember>, u64), Error> {
        unreachable!()
    }

    fn fetch_discord_member(&self, _discord_id: &str) -> Result<Option<DiscordMember>, Error> {
        unreachable!()
    }

    fn fetch_discord_identity(&self, discord_id: &str) -> Result<Option<DiscordIdentity>, Error> {
        self.db.fetch_discord_identity(discord_id)
    }

    fn fetch_discord_identity_by_user(
        &self,
        _user_id: &str,
    ) -> Result<Option<DiscordIdentity>, Error> {
        unreachable!()
    }

    fn fetch_discord_identities_by_ids(
        &self,
        _discord_ids: &Vec<String>,
    ) -> Result<Vec<DiscordIdentity>, Error> {
        unreachable!()
    }

    fn fetch_discord_identities(&self) -> Result<Vec<DiscordIdentity>, Error> {
        unreachable!()
    }

    fn insert_discord_identity(&mut self, _identity: &DiscordIdentity) -> Result<(), Error> {
        unreachable!()
    }

    fn confirm_discord_identity(
        &mut self,
        _discord_id: &str,
        _admin_id: &str,
    ) -> Result<(), Error> {
        unreachable!()
    }

    fn delete_discord_identity(&mut self, discord_id: &str) -> Result<(), Error> {
        self.db.delete_discord_identity(discord_id)
    }

    fn delete_unconfirmed_discord_identity(&mut self, discord_id: &str) -> Result<bool, Error> {
        self.db.confirm_discord_identity(discord_id, "01ADMIN")?;
        self.db.delete_unconfirmed_discord_identity(discord_id)
    }
}

#[test]
fn a_confirmation_wins_the_race_against_a_verifier() {
    let mut store = Racing { db: ReferenceDb::new() };
    store.db.discord_identities.put(identity("10", "u", 1, false));
    assert_eq!(reject_discord_claim(&mut store, VERIFIER, "10"), Err(missing("ManageServer")));
    assert!(store.db.fetch_discord_identity("10").unwrap().unwrap().is_confirmed());

    store.db.discord_identities.put(identity("20", "v", 1, false));
    assert_eq!(reject_discord_claim(&mut store, MANAGER, "20"), Ok(()));
    assert!(store.db.fetch_discord_identity("20").unwrap().is_none());
}
