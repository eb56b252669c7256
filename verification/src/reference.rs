use vstd::prelude::*;

use crate::consent::{made_by, AbstractConsentRecord, ConsentRecord};
use crate::discord::{AbstractDiscordIdentity, DiscordIdentity, DiscordMember};
use crate::error::Result;
use crate::order::Ordered;
use crate::policy::{AbstractPolicyChange, PolicyChange};
use crate::table::{Keyed, Table};
use crate::text::texts;
use crate::users::{AbstractUsers, User};

verus! {

/// A database that keeps everything in memory.
#[derive(Debug, PartialEq, Eq)]
pub struct ReferenceDb {
    pub users: Table<User>,
    pub discord_members: Table<DiscordMember>,
    pub discord_identities: Table<DiscordIdentity>,
    pub consent_records: Table<ConsentRecord>,
    pub policy_changes: Vec<PolicyChange>,
    /// The users that have acknowledged the policies
    pub acknowledgements: Vec<String>,
}

impl ReferenceDb {
    /// Whether every record is found by its own id.
    pub open spec fn wf(&self) -> bool {
        &&& self.users.wf()
        &&& self.discord_members.wf()
        &&& self.discord_identities.wf()
        &&& self.consent_records.wf()
    }

    /// A database that holds nothing.
    pub fn new() -> (db: ReferenceDb)
        ensures
            db.wf(),
            db.users@ == Map::<Seq<char>, User>::empty(),
            db.discord_members@ == Map::<Seq<char>, DiscordMember>::empty(),
            db.discord_identities@ == Map::<Seq<char>, DiscordIdentity>::empty(),
            db.consent_records@ == Map::<Seq<char>, ConsentRecord>::empty(),
            db.policy_changes@ == Seq::<PolicyChange>::empty(),
            db.acknowledgements@ == Seq::<String>::empty(),
    {
        ReferenceDb {
            users: Table::new(),
            discord_members: Table::new(),
            discord_identities: Table::new(),
            consent_records: Table::new(),
            policy_changes: Vec::new(),
            acknowledgements: Vec::new(),
        }
    }
}

/// A new database has no users, no members, no claims, no consent and no policies.
pub proof fn law_new_database_is_empty(db: ReferenceDb, id: Seq<char>)
    requires
        call_ensures(ReferenceDb::new, (), db),
    ensures
        !db.users@.contains_key(id),
        !db.discord_members@.contains_key(id),
        !db.discord_identities@.contains_key(id),
        !db.consent_records@.contains_key(id),
        db.policy_changes@.len() == 0,
        db.acknowledgements@.len() == 0,
{
}

/// A user is found by their id exactly if they are in the table of users.
pub proof fn law_user_is_found_by_id(db: &ReferenceDb, id: &str, result: Result<User>)
    requires
        db.users.wf(),
        call_ensures(<ReferenceDb as AbstractUsers>::fetch_user, (db, id), result),
    ensures
        result is Ok <==> db.users@.contains_key(id@),
        result is Ok ==> result->Ok_0 == db.users@[id@],
        result is Err ==> result->Err_0 is NotFound,
{
}

/// Policies are fetched as they are listed.
pub proof fn law_policies_are_fetched_in_order(
    db: &ReferenceDb,
    result: Result<Vec<PolicyChange>>,
)
    requires
        call_ensures(<ReferenceDb as AbstractPolicyChange>::fetch_policy_changes, (db,), result),
    ensures
        result is Ok,
        result->Ok_0@ == db.policy_changes@,
{
}

/// Whoever acknowledges the policies is among those that have, and nobody else is who was not.
pub proof fn law_acknowledgement_is_noted(
    db: &mut ReferenceDb,
    user_id: &str,
    result: Result<()>,
    other: Seq<char>,
)
    requires
        call_ensures(
            <ReferenceDb as AbstractPolicyChange>::acknowledge_policy_changes,
            (db, user_id),
            result,
        ),
    ensures
        result is Ok,
        final(db).policy_changes@ == old(db).policy_changes@,
        final(db).consent_records@ == old(db).consent_records@,
        texts(final(db).acknowledgements@).contains(other) <==> other == user_id@ || texts(
            old(db).acknowledgements@,
        ).contains(other),
{
    let before = texts(old(db).acknowledgements@);
    let after = texts(final(db).acknowledgements@);
    assert(after.to_set() == before.to_set().insert(user_id@));
    assert(after.to_set().contains(other) <==> after.contains(other));
    assert(before.to_set().contains(other) <==> before.contains(other));
}

/// A consent record is kept under its id, and every other one stays as it was.
pub proof fn law_consent_record_is_kept(
    db: &mut ReferenceDb,
    record: &ConsentRecord,
    result: Result<()>,
    other: Seq<char>,
)
    requires
        old(db).consent_records.wf(),
        call_ensures(
            <ReferenceDb as AbstractConsentRecord>::insert_consent_record,
            (db, record),
            result,
        ),
    ensures
        result is Ok,
        final(db).consent_records@.contains_key(record.id@),
        final(db).consent_records@[record.id@] == *record,
        other != record.id@ ==> (final(db).consent_records@.contains_key(other) <==> old(
            db).consent_records@.contains_key(other)),
        other != record.id@ && old(db).consent_records@.contains_key(other) ==> final(
            db).consent_records@[other] == old(db).consent_records@[other],
{
}

/// The consent records of a user are fetched oldest first: each is one of theirs.
pub proof fn law_consent_records_are_fetched_oldest_first(
    db: &ReferenceDb,
    user_id: &str,
    result: Result<Vec<ConsentRecord>>,
    i: int,
    j: int,
)
    requires
        db.consent_records.wf(),
        call_ensures(
            <ReferenceDb as AbstractConsentRecord>::fetch_consent_records,
            (db, user_id),
            result,
        ),
    ensures
        result is Ok,
        0 <= i < result->Ok_0@.len() ==> result->Ok_0@[i].user_id@ == user_id@
            && db.consent_records@.contains_pair(result->Ok_0@[i].id@, result->Ok_0@[i]),
        0 <= i < j < result->Ok_0@.len() ==> {
            let older = result->Ok_0@[i].utc_timestamp;
            let newer = result->Ok_0@[j].utc_timestamp;
            older.seconds < newer.seconds || (older.seconds == newer.seconds && older.nanoseconds
                <= newer.nanoseconds)
        },
{
    let list = result->Ok_0@;
    if 0 <= i < list.len() {
        assert(db.consent_records@.contains_pair(list[i].id(), list[i]));
        assert(made_by(user_id@)(list[i]));
    }
    if 0 <= i < j < list.len() {
        assert(!list[j].precedes(&list[i]));
    }
}

/// Every consent record of a user is fetched.
pub proof fn law_no_consent_record_is_left_out(
    db: &ReferenceDb,
    user_id: &str,
    list: Vec<ConsentRecord>,
    id: Seq<char>,
)
    requires
        db.consent_records.wf(),
        call_ensures(
            <ReferenceDb as AbstractConsentRecord>::fetch_consent_records,
            (db, user_id),
            Ok(list),
        ),
        db.consent_records@.contains_key(id),
        db.consent_records@[id].user_id@ == user_id@,
    ensures
        list@.contains(db.consent_records@[id]),
{
    assert(made_by(user_id@)(db.consent_records@[id]));
}

/// A claim is stored under its account, stamped, or removed there, and every other claim stays as
/// it was. Stamps are put on a claim that is there, with who confirms it.
pub proof fn law_claims_change_one_at_a_time(
    db: &mut ReferenceDb,
    identity: &DiscordIdentity,
    stored: Result<()>,
    confirming: &mut ReferenceDb,
    discord_id: &str,
    admin_id: &str,
    confirmed: Result<()>,
    deleting: &mut ReferenceDb,
    deleted: Result<()>,
    other: Seq<char>,
)
    requires
        old(db).discord_members.wf() && old(db).discord_identities.wf(),
        call_ensures(
            <ReferenceDb as AbstractDiscordIdentity>::insert_discord_identity,
            (db, identity),
            stored,
        ),
        old(confirming).discord_members.wf() && old(confirming).discord_identities.wf(),
        call_ensures(
            <ReferenceDb as AbstractDiscordIdentity>::confirm_discord_identity,
            (confirming, discord_id, admin_id),
            confirmed,
        ),
        old(deleting).discord_members.wf() && old(deleting).discord_identities.wf(),
        call_ensures(
            <ReferenceDb as AbstractDiscordIdentity>::delete_discord_identity,
            (deleting, discord_id),
            deleted,
        ),
    ensures
        stored is Ok,
        final(db).discord_identities@.contains_pair(identity.id@, *identity),
        other != identity.id@ ==> (final(db).discord_identities@.contains_key(other) <==> old(
            db).discord_identities@.contains_key(other)),
        confirmed is Ok,
        final(confirming).discord_identities@.contains_key(discord_id@) <==> old(
            confirming).discord_identities@.contains_key(discord_id@),
        old(confirming).discord_identities@.contains_key(discord_id@) ==> {
            let before = old(confirming).discord_identities@[discord_id@];
            let after = final(confirming).discord_identities@[discord_id@];
            &&& after.confirmed_by is Some && after.confirmed_by->0@ == admin_id@
            &&& after.confirmed_at is Some
            &&& after.user@ == before.user@
            &&& after.claimed_at == before.claimed_at
        },
        other != discord_id@ && old(confirming).discord_identities@.contains_key(other) ==> final(
            confirming).discord_identities@.contains_pair(
            other,
            old(confirming).discord_identities@[other],
        ),
        deleted is Ok,
        !final(deleting).discord_identities@.contains_key(discord_id@),
        other != discord_id@ && old(deleting).discord_identities@.contains_key(other) ==> final(
            deleting).discord_identities@.contains_pair(
            other,
            old(deleting).discord_identities@[other],
        ),
{
}

/// A claim is removed while it is unconfirmed exactly if it is there and lacks a stamp, and the
/// answer says whether it was.
pub proof fn law_confirmed_claims_are_not_removed(
    db: &mut ReferenceDb,
    discord_id: &str,
    result: Result<bool>,
    other: Seq<char>,
)
    requires
        old(db).discord_members.wf() && old(db).discord_identities.wf(),
        call_ensures(
            <ReferenceDb as AbstractDiscordIdentity>::delete_unconfirmed_discord_identity,
            (db, discord_id),
            result,
        ),
    ensures
        result is Ok,
        result->Ok_0 <==> old(db).discord_identities@.contains_key(discord_id@) && !(
        old(db).discord_identities@[discord_id@].confirmed_by is Some && old(
            db).discord_identities@[discord_id@].confirmed_at is Some),
        final(db).discord_identities@.contains_key(other) <==> old(
            db).discord_identities@.contains_key(other) && !(result->Ok_0 && other == discord_id@),
        final(db).discord_identities@.contains_key(other) ==> final(db).discord_identities@[other]
            == old(db).discord_identities@[other],
{
}

/// A member of the snapshot and a claim are found by the Discord account, exactly if they are
/// there; a claim is found by its user exactly if that user has one.
pub proof fn law_claims_are_found_where_they_are(
    db: &ReferenceDb,
    id: &str,
    member: Result<Option<DiscordMember>>,
    claim: Result<Option<DiscordIdentity>>,
    own: Result<Option<DiscordIdentity>>,
    other: Seq<char>,
)
    requires
        db.discord_members.wf(),
        db.discord_identities.wf(),
        call_ensures(
            <ReferenceDb as AbstractDiscordIdentity>::fetch_discord_member,
            (db, id),
            member,
        ),
        call_ensures(
            <ReferenceDb as AbstractDiscordIdentity>::fetch_discord_identity,
            (db, id),
            claim,
        ),
        call_ensures(
            <ReferenceDb as AbstractDiscordIdentity>::fetch_discord_identity_by_user,
            (db, id),
            own,
        ),
    ensures
        member is Ok && claim is Ok && own is Ok,
        member->Ok_0 is Some <==> db.discord_members@.contains_key(id@),
        member->Ok_0 is Some ==> member->Ok_0->0 == db.discord_members@[id@],
        claim->Ok_0 is Some <==> db.discord_identities@.contains_key(id@),
        claim->Ok_0 is Some ==> claim->Ok_0->0 == db.discord_identities@[id@],
        own->Ok_0 is Some ==> own->Ok_0->0.user@ == id@ && db.discord_identities@.contains_pair(
            own->Ok_0->0.id@,
            own->Ok_0->0,
        ),
        own->Ok_0 is None && db.discord_identities@.contains_key(other)
            ==> db.discord_identities@[other].user@ != id@,
{
}

/// The claims fetched for some accounts are those on them, all of them.
pub proof fn law_claims_on_accounts_are_fetched(
    db: &ReferenceDb,
    ids: &Vec<String>,
    result: Result<Vec<DiscordIdentity>>,
    i: int,
    id: Seq<char>,
)
    requires
        db.discord_members.wf(),
        db.discord_identities.wf(),
        call_ensures(
            <ReferenceDb as AbstractDiscordIdentity>::fetch_discord_identities_by_ids,
            (db, ids),
            result,
        ),
    ensures
        result is Ok,
        0 <= i < result->Ok_0@.len() ==> texts(ids@).contains(result->Ok_0@[i].id@)
            && db.discord_identities@.contains_pair(result->Ok_0@[i].id@, result->Ok_0@[i]),
        texts(ids@).contains(id) && db.discord_identities@.contains_key(id)
            ==> result->Ok_0@.contains(db.discord_identities@[id]),
{
    let list = result->Ok_0@;
    if 0 <= i < list.len() {
        assert(list.contains(list[i]));
    }
}

/// All claims are fetched, each once, the newest first.
pub proof fn law_claims_are_fetched_newest_first(
    db: &ReferenceDb,
    result: Result<Vec<DiscordIdentity>>,
    i: int,
    j: int,
    id: Seq<char>,
)
    requires
        db.discord_members.wf(),
        db.discord_identities.wf(),
        call_ensures(
            <ReferenceDb as AbstractDiscordIdentity>::fetch_discord_identities,
            (db,),
            result,
        ),
    ensures
        result is Ok,
        db.discord_identities@.contains_key(id) ==> result->Ok_0@.contains(
            db.discord_identities@[id],
        ),
        0 <= i < j < result->Ok_0@.len() ==> {
            let newer = result->Ok_0@[i];
            let older = result->Ok_0@[j];
            &&& newer.id@ != older.id@
            &&& older.claimed_at.seconds < newer.claimed_at.seconds || (older.claimed_at.seconds
                == newer.claimed_at.seconds && older.claimed_at.nanoseconds
                <= newer.claimed_at.nanoseconds)
        },
{
    let every = |identity: DiscordIdentity| true;
    let list = result->Ok_0@;
    if db.discord_identities@.contains_key(id) {
        assert(every(db.discord_identities@[id]));
    }
    if 0 <= i < j < list.len() {
        assert(!list[j].precedes(&list[i]));
        assert(list[i].id() != list[j].id());
    }
}

} // verus!
