use vstd::prelude::*;

use crate::clock::{now_utc, Timestamp};
use crate::discord::{
    confirmed, is_confirmation, is_search_result, lemma_one_order, lists_those, naming, page_of,
    AbstractDiscordIdentity, DiscordIdentity, DiscordMember,
};
use crate::error::{failed_validation, is_failed_validation, Error, Result};
use crate::order::{is_sorted, Ordered};
use crate::table::Keyed;
use crate::text::{
    holds, lemma_precedes_total, lowercase_of, precedes, same, stands_in, texts,
};

verus! {

/// The most results one request may return.
///
/// A picker only ever shows a handful at a time, and a large page turns this into a bulk
/// export of the community's Discord roster.
pub const MAX_LIMIT: i64 = 50;

/// How many results a request returns that does not say.
pub const DEFAULT_LIMIT: i64 = 25;

/// How far into the results a caller may page.
pub const MAX_SKIP: u64 = 500;

/// Why a claim on an account that somebody else has claimed is refused.
pub const TAKEN: &'static str =
    "that Discord account has already been claimed by another member; ask an admin";

/// Why a confirmed claim cannot be changed by the member.
pub const CONFIRMED: &'static str =
    "your Discord account has already been confirmed; ask an admin to change it";

/// Why a claim of an account that is gone is not confirmed.
pub const GONE: &'static str = "that claim points at a NAC account that no longer exists";

/// How a claim that a member made says it came to exist.
pub const SIGNUP: &'static str = "signup";

/// What a caller may do on a server, as far as claims go.
#[derive(Debug, Clone, Copy, PartialEq, Eq, Structural)]
pub struct ServerPermissions {
    pub manage_server: bool,
    pub verify_members: bool,
}

/// One searchable Discord account: only what somebody needs to recognise their own name.
#[derive(Debug, PartialEq, Eq)]
pub struct DiscordMemberSuggestion {
    pub id: String,
    pub username: String,
    pub display_name: Option<String>,
    pub nickname: Option<String>,
    /// Whether somebody has already claimed this account
    pub claimed: bool,
}

/// A page of Discord name suggestions.
#[derive(Debug, PartialEq, Eq)]
pub struct DiscordMemberSearch {
    /// This page of results
    pub items: Vec<DiscordMemberSuggestion>,
    /// How many accounts matched in total, across all pages
    pub total: u64,
}

/// The Discord account a member says is theirs.
#[derive(Debug, PartialEq, Eq)]
pub struct DataClaimDiscordIdentity {
    /// Discord user id, taken from a search result
    pub discord_id: String,
}

/// A claim linking a Discord account to an account here, as it is shown.
#[derive(Debug, PartialEq, Eq)]
pub struct DiscordIdentityClaim {
    pub discord_id: String,
    pub discord_username: String,
    pub discord_display_name: Option<String>,
    pub user: String,
    pub claimed_at: Timestamp,
    pub source: String,
    pub confirmed_by: Option<String>,
    pub confirmed_at: Option<Timestamp>,
}

/// How a stored claim is shown.
pub open spec fn shown(identity: DiscordIdentity) -> DiscordIdentityClaim {
    DiscordIdentityClaim {
        discord_id: identity.id,
        discord_username: identity.discord_username,
        discord_display_name: identity.discord_display_name,
        user: identity.user,
        claimed_at: identity.claimed_at,
        source: identity.source,
        confirmed_by: identity.confirmed_by,
        confirmed_at: identity.confirmed_at,
    }
}

/// Present a stored claim to its owner or to an admin.
pub fn to_model(identity: DiscordIdentity) -> (claim: DiscordIdentityClaim)
    ensures
        claim == shown(identity),
{
    DiscordIdentityClaim {
        discord_id: identity.id,
        discord_username: identity.discord_username,
        discord_display_name: identity.discord_display_name,
        user: identity.user,
        claimed_at: identity.claimed_at,
        source: identity.source,
        confirmed_by: identity.confirmed_by,
        confirmed_at: identity.confirmed_at,
    }
}

/// Whether a claim is one of a user's.
pub open spec fn is_claim_of(
    identities: Map<Seq<char>, DiscordIdentity>,
    user_id: Seq<char>,
    claim: DiscordIdentity,
) -> bool {
    identities.contains_pair(claim.id@, claim) && claim.user@ == user_id
}

/// Whether a user has claimed no account.
pub open spec fn claims_nothing(
    identities: Map<Seq<char>, DiscordIdentity>,
    user_id: Seq<char>,
) -> bool {
    forall|id: Seq<char>| #[trigger]
        identities.contains_key(id) ==> identities[id].user@ != user_id
}

/// The name that a member recognises themselves by.
pub open spec fn recognised_name(member: DiscordMember) -> Option<String> {
    if member.nickname is Some {
        member.nickname
    } else {
        member.display_name
    }
}

/// Whether a claim is a fresh one of a user on a Discord account: without any stamp.
pub open spec fn is_fresh_claim(
    identity: DiscordIdentity,
    user_id: Seq<char>,
    member: DiscordMember,
) -> bool {
    &&& identity.id == member.id
    &&& identity.user@ == user_id
    &&& identity.discord_username == member.username
    &&& identity.discord_display_name == recognised_name(member)
    &&& identity.source@ == SIGNUP@
    &&& identity.confirmed_by is None
    &&& identity.confirmed_at is None
}

/// The claim of a user on a Discord account, made at a time.
pub fn fresh_claim(user_id: &str, member: DiscordMember, now: Timestamp) -> (identity:
    DiscordIdentity)
    ensures
        is_fresh_claim(identity, user_id@, member),
        identity.claimed_at == now,
{
    let name = match member.nickname {
        Some(nickname) => Some(nickname),
        None => member.display_name,
    };
    DiscordIdentity {
        id: member.id,
        user: user_id.to_owned(),
        discord_username: member.username,
        discord_display_name: name,
        claimed_at: now,
        source: SIGNUP.to_owned(),
        confirmed_by: None,
        confirmed_at: None,
    }
}

/// Fetch the Discord account that a member has claimed, if any, and whether it is confirmed.
pub fn fetch_my_discord_identity<D: AbstractDiscordIdentity>(db: &D, user_id: &str) -> (result:
    Result<Option<DiscordIdentityClaim>>)
    requires
        db.valid(),
    ensures
        db.reliable() ==> result is Ok,
        result matches Err(error) ==> D::may_answer(error),
        result matches Ok(Some(claim)) ==> exists|identity: DiscordIdentity| #[trigger]
            is_claim_of(db.identities(), user_id@, identity) && claim == shown(identity),
        result matches Ok(None) ==> claims_nothing(db.identities(), user_id@),
{
    match db.fetch_discord_identity_by_user(user_id) {
        Ok(Some(identity)) => {
            assert(is_claim_of(db.identities(), user_id@, identity));
            Ok(Some(to_model(identity)))
        },
        Ok(None) => Ok(None),
        Err(error) => Err(error),
    }
}

/// The claims of others, and the confirmed ones, are as they were.
pub open spec fn spared(
    before: Map<Seq<char>, DiscordIdentity>,
    after: Map<Seq<char>, DiscordIdentity>,
    user_id: Seq<char>,
) -> bool {
    forall|id: Seq<char>| #[trigger]
        before.contains_key(id) && (before[id].user@ != user_id || confirmed(before[id]))
            ==> after.contains_pair(id, before[id])
}

/// Whether no user has two claims.
pub open spec fn one_each(identities: Map<Seq<char>, DiscordIdentity>) -> bool {
    forall|a: Seq<char>, b: Seq<char>|
        #![trigger identities.contains_key(a), identities.contains_key(b)]
        identities.contains_key(a) && identities.contains_key(b) && identities[a].user@
            == identities[b].user@ ==> a == b
}

/// Whether every claim that is confirmed now was confirmed before, and is as it was.
pub open spec fn confirms_nothing(
    before: Map<Seq<char>, DiscordIdentity>,
    after: Map<Seq<char>, DiscordIdentity>,
) -> bool {
    forall|id: Seq<char>| #[trigger]
        after.contains_key(id) && confirmed(after[id]) ==> before.contains_pair(id, after[id])
}

/// Record which Discord account a member says is theirs.
///
/// This is a claim, not a link: the row is written unconfirmed and does nothing on its own. The
/// id must be in the snapshot. Somebody else's claim is never overwritten, confirmed or not.
/// Claiming the same account again gives back the claim that is there. A member may change
/// their mind: their previous unconfirmed claim is released first; a confirmed one stays.
pub fn claim_discord_identity<D: AbstractDiscordIdentity>(
    db: &mut D,
    user_id: &str,
    data: &DataClaimDiscordIdentity,
) -> (result: Result<DiscordIdentityClaim>)
    requires
        old(db).valid(),
    ensures
        final(db).valid(),
        final(db).members() == old(db).members(),
        final(db).reliable() == old(db).reliable(),
        final(db).users() == old(db).users(),
        final(db).users_valid() == old(db).users_valid(),
        final(db).users_reliable() == old(db).users_reliable(),
        spared(old(db).identities(), final(db).identities(), user_id@),
        confirms_nothing(old(db).identities(), final(db).identities()),
        one_each(old(db).identities()) ==> one_each(final(db).identities()),
        ({
            let id = data.discord_id@;
            let known = old(db).members().contains_key(id);
            let member = old(db).members()[id];
            let before = old(db).identities();
            let after = final(db).identities();
            ||| !old(db).reliable() && (result matches Err(error) && D::may_answer(error))
            ||| if !known {
                result == Err::<DiscordIdentityClaim, Error>(Error::NotFound) && after == before
            } else if before.contains_key(id) {
                &&& after == before
                &&& if before[id].user@ == user_id@ {
                    result == Ok::<DiscordIdentityClaim, Error>(shown(before[id]))
                } else {
                    result matches Err(error) && is_failed_validation(error, TAKEN@)
                }
            } else if claims_nothing(before, user_id@) {
                &&& result matches Ok(claim) && claim == shown(after[id])
                &&& after == before.insert(id, after[id])
                &&& is_fresh_claim(after[id], user_id@, member)
            } else {
                exists|previous: DiscordIdentity| #[trigger]
                    is_claim_of(before, user_id@, previous) && if confirmed(previous) {
                        &&& after == before
                        &&& result matches Err(error) && is_failed_validation(error, CONFIRMED@)
                    } else {
                        &&& result matches Ok(claim) && claim == shown(after[id])
                        &&& after == before.remove(previous.id@).insert(id, after[id])
                        &&& is_fresh_claim(after[id], user_id@, member)
                    }
            }
        }),
{
    let member = match db.fetch_discord_member(data.discord_id.as_str()) {
        Ok(Some(member)) => member,
        Ok(None) => {
            return Err(Error::NotFound);
        },
        Err(error) => {
            return Err(error);
        },
    };
    match db.fetch_discord_identity(data.discord_id.as_str()) {
        Ok(Some(existing)) => {
            if !same(existing.user.as_str(), user_id) {
                return Err(failed_validation(TAKEN));
            }
            return Ok(to_model(existing));
        },
        Ok(None) => {},
        Err(error) => {
            return Err(error);
        },
    }
    let ghost before = db.identities();
    match db.fetch_discord_identity_by_user(user_id) {
        Ok(Some(previous)) => {
            assert(is_claim_of(before, user_id@, previous));
            if previous.is_confirmed() {
                return Err(failed_validation(CONFIRMED));
            }
            match db.delete_discord_identity(previous.id.as_str()) {
                Ok(()) => {},
                Err(error) => {
                    return Err(error);
                },
            }
        },
        Ok(None) => {},
        Err(error) => {
            return Err(error);
        },
    }
    let identity = fresh_claim(user_id, member, now_utc());
    match db.insert_discord_identity(&identity) {
        Ok(()) => Ok(to_model(identity)),
        Err(error) => Err(error),
    }
}

/// Release an unconfirmed claim, so that the member can pick a different name. A confirmed one
/// cannot be withdrawn here; one that does not exist is released already.
pub fn withdraw_discord_identity<D: AbstractDiscordIdentity>(db: &mut D, user_id: &str) -> (result:
    Result<()>)
    requires
        old(db).valid(),
    ensures
        final(db).valid(),
        final(db).members() == old(db).members(),
        final(db).reliable() == old(db).reliable(),
        final(db).users() == old(db).users(),
        final(db).users_valid() == old(db).users_valid(),
        final(db).users_reliable() == old(db).users_reliable(),
        spared(old(db).identities(), final(db).identities(), user_id@),
        confirms_nothing(old(db).identities(), final(db).identities()),
        one_each(old(db).identities()) ==> one_each(final(db).identities()),
        ({
            let before = old(db).identities();
            let after = final(db).identities();
            ||| !old(db).reliable() && (result matches Err(error) && D::may_answer(error))
            ||| if claims_nothing(before, user_id@) {
                result is Ok && after == before
            } else {
                exists|claim: DiscordIdentity| #[trigger]
                    is_claim_of(before, user_id@, claim) && if confirmed(claim) {
                        &&& after == before
                        &&& result matches Err(error) && is_failed_validation(error, CONFIRMED@)
                    } else {
                        result is Ok && after == before.remove(claim.id@)
                    }
            }
        }),
{
    let ghost before = db.identities();
    match db.fetch_discord_identity_by_user(user_id) {
        Ok(Some(identity)) => {
            assert(is_claim_of(before, user_id@, identity));
            if identity.is_confirmed() {
                return Err(failed_validation(CONFIRMED));
            }
            db.delete_discord_identity(identity.id.as_str())
        },
        Ok(None) => Ok(()),
        Err(error) => Err(error),
    }
}

/// How far into the results a request really goes.
pub open spec fn allowed_skip(skip: Option<u64>) -> int {
    match skip {
        Some(asked) => if asked <= MAX_SKIP {
            asked as int
        } else {
            MAX_SKIP as int
        },
        None => 0,
    }
}

/// How many results a request really gets.
pub open spec fn allowed_limit(limit: Option<i64>) -> int {
    match limit {
        Some(asked) => if asked < 1 {
            1
        } else if asked <= MAX_LIMIT {
            asked as int
        } else {
            MAX_LIMIT as int
        },
        None => DEFAULT_LIMIT as int,
    }
}

/// The text that a request searches for, nothing in particular if it does not say.
pub open spec fn term_of(query: Option<String>) -> Seq<char> {
    match query {
        Some(text) => text@,
        None => Seq::empty(),
    }
}

/// Whether suggestions are the members of a page, each with whether it is claimed.
pub open spec fn are_suggestions(
    items: Seq<DiscordMemberSuggestion>,
    page: Seq<DiscordMember>,
    identities: Map<Seq<char>, DiscordIdentity>,
) -> bool {
    &&& items.len() == page.len()
    &&& forall|i: int|
        0 <= i < items.len() ==> #[trigger] items[i] == (DiscordMemberSuggestion {
            id: page[i].id,
            username: page[i].username,
            display_name: page[i].display_name,
            nickname: page[i].nickname,
            claimed: identities.contains_key(page[i].id@),
        })
}

/// Whether an answer shows a page of what a search comes to.
pub open spec fn is_page_shown(
    members: Map<Seq<char>, DiscordMember>,
    identities: Map<Seq<char>, DiscordIdentity>,
    term: Seq<char>,
    skip: int,
    limit: int,
    search: DiscordMemberSearch,
) -> bool {
    exists|page: Seq<DiscordMember>| #[trigger]
        are_suggestions(search.items@, page, identities) && is_search_result(
            members,
            lowercase_of(term),
            skip,
            limit,
            page,
            search.total as int,
        )
}

/// Search the snapshot of the community's Discord membership, so that a member can pick out
/// their own name. Paged on this side, with a cap on the size of a page and on how far one may
/// page.
pub fn search_discord_members<D: AbstractDiscordIdentity>(
    db: &D,
    query: &Option<String>,
    skip: Option<u64>,
    limit: Option<i64>,
) -> (result: Result<DiscordMemberSearch>)
    requires
        db.valid(),
    ensures
        db.reliable() ==> result is Ok,
        result matches Err(error) ==> D::may_answer(error),
        result matches Ok(search) ==> is_page_shown(
            db.members(),
            db.identities(),
            term_of(*query),
            allowed_skip(skip),
            allowed_limit(limit),
            search,
        ),
{
    let term: String = match query {
        Some(text) => text.clone(),
        None => String::new(),
    };
    let start: u64 = match skip {
        Some(asked) => if asked <= MAX_SKIP {
            asked
        } else {
            MAX_SKIP
        },
        None => 0,
    };
    let room: i64 = match limit {
        Some(asked) => if asked < 1 {
            1
        } else if asked <= MAX_LIMIT {
            asked
        } else {
            MAX_LIMIT
        },
        None => DEFAULT_LIMIT,
    };
    let (members, total): (Vec<DiscordMember>, u64) = match db.search_discord_members(
        term.as_str(),
        start,
        room,
    ) {
        Ok(found) => found,
        Err(error) => {
            return Err(error);
        },
    };
    assert(term@ == term_of(*query));
    let mut ids: Vec<String> = Vec::new();
    for i in 0..members.len()
        invariant
            ids@.len() == i,
            forall|j: int| 0 <= j < i ==> #[trigger] ids@[j] == members@[j].id,
    {
        ids.push(members[i].id.clone());
    }
    let found = match db.fetch_discord_identities_by_ids(&ids) {
        Ok(found) => found,
        Err(error) => {
            return Err(error);
        },
    };
    let mut claimed: Vec<String> = Vec::new();
    for i in 0..found.len()
        invariant
            claimed@.len() == i,
            forall|j: int| 0 <= j < i ==> #[trigger] claimed@[j] == found@[j].id,
    {
        claimed.push(found[i].id.clone());
    }
    let ghost identities = db.identities();
    proof {
        assert forall|i: int| 0 <= i < members@.len() implies (identities.contains_key(
            (#[trigger] members@[i]).id@,
        ) <==> texts(claimed@).contains(members@[i].id@)) by {
            let id = members@[i].id@;
            if identities.contains_key(id) {
                assert(texts(ids@)[i] == id);
                assert(texts(ids@).contains(id));
                assert(found@.contains(identities[id]));
                let k = found@.index_of(identities[id]);
                assert(texts(claimed@)[k] == id);
            }
            if texts(claimed@).contains(id) {
                let k = texts(claimed@).index_of(id);
                assert(claimed@[k] == found@[k].id);
                assert(found@.contains(found@[k]));
            }
        }
    }
    let ghost page = members@;
    let mut items: Vec<DiscordMemberSuggestion> = Vec::new();
    for member in it: members
        invariant
            it.seq() == page,
            items@.len() == it.index(),
            forall|i: int|
                0 <= i < page.len() ==> (identities.contains_key((#[trigger] page[i]).id@)
                    <==> texts(claimed@).contains(page[i].id@)),
            forall|i: int|
                0 <= i < items@.len() ==> #[trigger] items@[i] == (DiscordMemberSuggestion {
                    id: page[i].id,
                    username: page[i].username,
                    display_name: page[i].display_name,
                    nickname: page[i].nickname,
                    claimed: identities.contains_key(page[i].id@),
                }),
    {
        assert(member == page[it.index()]);
        let taken = holds(&claimed, member.id.as_str());
        items.push(
            DiscordMemberSuggestion {
                claimed: taken,
                id: member.id,
                username: member.username,
                display_name: member.display_name,
                nickname: member.nickname,
            },
        );
    }
    let search = DiscordMemberSearch { items, total };
    assert(are_suggestions(search.items@, page, db.identities()));
    assert(is_search_result(
        db.members(),
        lowercase_of(term_of(*query)),
        allowed_skip(skip),
        allowed_limit(limit),
        page,
        search.total as int,
    ));
    assert(is_page_shown(
        db.members(),
        db.identities(),
        term_of(*query),
        allowed_skip(skip),
        allowed_limit(limit),
        search,
    ));
    Ok(search)
}

/// Whether an error says that a permission is missing.
pub open spec fn is_missing_permission(error: Error, permission: Seq<char>) -> bool {
    error matches Error::MissingPermission { permission: name } && name@ == permission
}

/// The refusal of a caller that lacks a permission.
pub fn missing_permission(permission: &str) -> (error: Error)
    ensures
        is_missing_permission(error, permission@),
{
    Error::MissingPermission { permission: permission.to_owned() }
}

/// Require the permission to restructure the server.
pub fn require_manage_server(permissions: ServerPermissions) -> (result: Result<()>)
    ensures
        result is Ok <==> permissions.manage_server,
        result matches Err(error) ==> is_missing_permission(error, "ManageServer"@),
{
    if permissions.manage_server {
        Ok(())
    } else {
        Err(missing_permission("ManageServer"))
    }
}

/// Whether a caller may see and handle claims.
pub open spec fn may_verify(permissions: ServerPermissions) -> bool {
    permissions.manage_server || permissions.verify_members
}

/// Require the permission to restructure the server, or the one to verify members.
pub fn require_verify_access(permissions: ServerPermissions) -> (result: Result<()>)
    ensures
        result is Ok <==> may_verify(permissions),
        result matches Err(error) ==> is_missing_permission(error, "VerifyMembers"@),
{
    if permissions.manage_server || permissions.verify_members {
        Ok(())
    } else {
        Err(missing_permission("VerifyMembers"))
    }
}

/// Every claim, newest first, confirmed and unconfirmed. Which member is which Discord account
/// is not published, so this is for those that may verify members.
pub fn fetch_discord_claims<D: AbstractDiscordIdentity>(
    db: &D,
    permissions: ServerPermissions,
) -> (result: Result<Vec<DiscordIdentityClaim>>)
    requires
        db.valid(),
    ensures
        !may_verify(permissions) ==> (result matches Err(error) && is_missing_permission(
            error,
            "VerifyMembers"@,
        )),
        may_verify(permissions) && db.reliable() ==> result is Ok,
        may_verify(permissions) ==> (result matches Err(error) ==> D::may_answer(error)),
        result matches Ok(claims) ==> exists|all: Seq<DiscordIdentity>|
            #![trigger is_sorted(all)]
            is_sorted(all) && lists_those(
                all,
                db.identities(),
                |identity: DiscordIdentity| true,
            ) && claims@ == all.map_values(|identity: DiscordIdentity| shown(identity)),
{
    match require_verify_access(permissions) {
        Ok(()) => {},
        Err(error) => {
            return Err(error);
        },
    }
    let identities = match db.fetch_discord_identities() {
        Ok(identities) => identities,
        Err(error) => {
            return Err(error);
        },
    };
    let ghost all = identities@;
    let mut claims: Vec<DiscordIdentityClaim> = Vec::new();
    for identity in it: identities
        invariant
            it.seq() == all,
            claims@.len() == it.index(),
            forall|i: int| 0 <= i < claims@.len() ==> #[trigger] claims@[i] == shown(all[i]),
    {
        assert(identity == all[it.index()]);
        claims.push(to_model(identity));
    }
    assert(claims@ =~= all.map_values(|identity: DiscordIdentity| shown(identity)));
    assert(is_sorted(all));
    Ok(claims)
}

/// Stamp a claim with who confirmed it and when, which is what turns it from an assertion into
/// something to act on.
///
/// Confirming a confirmed claim does nothing. Confirming one's own claim would hand oneself the
/// account's history, so it takes more than verifying members. A claim of an account that is
/// gone is not confirmed.
pub fn confirm_discord_claim<D: AbstractDiscordIdentity>(
    db: &mut D,
    user_id: &str,
    permissions: ServerPermissions,
    discord_id: &str,
) -> (result: Result<()>)
    requires
        old(db).valid(),
        old(db).users_valid(),
    ensures
        final(db).valid(),
        final(db).members() == old(db).members(),
        final(db).reliable() == old(db).reliable(),
        final(db).users() == old(db).users(),
        final(db).users_valid() == old(db).users_valid(),
        final(db).users_reliable() == old(db).users_reliable(),
        !may_verify(permissions) ==> (result matches Err(error) && is_missing_permission(
            error,
            "VerifyMembers"@,
        )) && final(db).identities() == old(db).identities(),
        ({
            let before = old(db).identities();
            let after = final(db).identities();
            let claim = before[discord_id@];
            ||| !may_verify(permissions)
            ||| !old(db).reliable() && (result matches Err(error) && D::may_answer(error))
            ||| !old(db).users_reliable() && before.contains_key(discord_id@) && !confirmed(claim)
                && (claim.user@ == user_id@ ==> permissions.manage_server) && after == before && (
            result matches Err(error) && is_failed_validation(error, GONE@))
            ||| if !before.contains_key(discord_id@) {
                result == Err::<(), Error>(Error::NotFound) && after == before
            } else if confirmed(claim) {
                result is Ok && after == before
            } else if claim.user@ == user_id@ && !permissions.manage_server {
                &&& result matches Err(error) && is_missing_permission(error, "ManageServer"@)
                &&& after == before
            } else if !old(db).users().contains_key(claim.user@) {
                &&& result matches Err(error) && is_failed_validation(error, GONE@)
                &&& after == before
            } else {
                result is Ok && is_confirmation(before, after, discord_id@, user_id@)
            }
        }),
        old(db).identities() == final(db).identities() || {
            let claim = old(db).identities()[discord_id@];
            &&& is_confirmation(
                old(db).identities(),
                final(db).identities(),
                discord_id@,
                user_id@,
            )
            &&& may_verify(permissions)
            &&& !confirmed(claim)
            &&& claim.user@ == user_id@ ==> permissions.manage_server
        },
{
    match require_verify_access(permissions) {
        Ok(()) => {},
        Err(error) => {
            return Err(error);
        },
    }
    let identity = match db.fetch_discord_identity(discord_id) {
        Ok(Some(identity)) => identity,
        Ok(None) => {
            return Err(Error::NotFound);
        },
        Err(error) => {
            return Err(error);
        },
    };
    if identity.is_confirmed() {
        return Ok(());
    }
    if same(identity.user.as_str(), user_id) {
        match require_manage_server(permissions) {
            Ok(()) => {},
            Err(error) => {
                return Err(error);
            },
        }
    }
    match db.fetch_user(identity.user.as_str()) {
        Ok(_) => {},
        Err(_) => {
            return Err(failed_validation(GONE));
        },
    }
    db.confirm_discord_identity(discord_id, user_id)
}

/// What is left to do about a claim that is rejected.
#[derive(Debug, Clone, Copy, PartialEq, Eq, Structural)]
pub enum Rejection {
    /// Nothing
    Over,
    /// The claim is to be deleted, confirmed as it is
    Delete,
}

/// What to do about a claim that is rejected, given whether the delete that spares a confirmed
/// claim has removed it. Where it has not, the claim is confirmed, it may be since a moment ago,
/// and undoing that takes the permission to manage the server.
pub fn rejection(removed: bool, permissions: ServerPermissions) -> (result: Result<Rejection>)
    ensures
        removed ==> result == Ok::<Rejection, Error>(Rejection::Over),
        !removed && permissions.manage_server ==> result == Ok::<Rejection, Error>(
            Rejection::Delete,
        ),
        !removed && !permissions.manage_server ==> (result matches Err(error)
            && is_missing_permission(error, "ManageServer"@)),
{
    if removed {
        return Ok(Rejection::Over);
    }
    match require_manage_server(permissions) {
        Ok(()) => Ok(Rejection::Delete),
        Err(error) => Err(error),
    }
}

/// Delete a claim, so that the Discord account is free for the right person to claim.
///
/// Who may verify members may reject a claim that is still unconfirmed. Undoing a confirmation
/// takes the permission to manage the server. Rejecting what is not there does nothing. The
/// gate comes first, so that nobody else learns which claims exist.
pub fn reject_discord_claim<D: AbstractDiscordIdentity>(
    db: &mut D,
    permissions: ServerPermissions,
    discord_id: &str,
) -> (result: Result<()>)
    requires
        old(db).valid(),
    ensures
        final(db).valid(),
        final(db).members() == old(db).members(),
        final(db).reliable() == old(db).reliable(),
        final(db).users() == old(db).users(),
        final(db).users_valid() == old(db).users_valid(),
        final(db).users_reliable() == old(db).users_reliable(),
        !may_verify(permissions) ==> (result matches Err(error) && is_missing_permission(
            error,
            "VerifyMembers"@,
        )) && final(db).identities() == old(db).identities(),
        ({
            let before = old(db).identities();
            let after = final(db).identities();
            ||| !may_verify(permissions)
            ||| !old(db).reliable() && (result matches Err(error) && D::may_answer(error))
            ||| if !before.contains_key(discord_id@) {
                result is Ok && after == before
            } else if !confirmed(before[discord_id@]) || permissions.manage_server {
                result is Ok && after == before.remove(discord_id@)
            } else {
                &&& result matches Err(error) && is_missing_permission(error, "ManageServer"@)
                &&& after == before
            }
        }),
        final(db).identities() == old(db).identities() || {
            &&& final(db).identities() == old(db).identities().remove(discord_id@)
            &&& permissions.manage_server || (permissions.verify_members && !confirmed(
                old(db).identities()[discord_id@],
            ))
        },
{
    match require_verify_access(permissions) {
        Ok(()) => {},
        Err(error) => {
            return Err(error);
        },
    }
    let identity = match db.fetch_discord_identity(discord_id) {
        Ok(Some(identity)) => identity,
        Ok(None) => {
            return Ok(());
        },
        Err(error) => {
            return Err(error);
        },
    };
    let removed = if identity.is_confirmed() {
        false
    } else {
        match db.delete_unconfirmed_discord_identity(discord_id) {
            Ok(removed) => removed,
            Err(error) => {
                return Err(error);
            },
        }
    };
    match rejection(removed, permissions) {
        Ok(Rejection::Over) => Ok(()),
        Ok(Rejection::Delete) => db.delete_discord_identity(discord_id),
        Err(error) => Err(error),
    }
}

/// However much is asked for, a page holds no more than the cap, and it begins no further in
/// than the cap on paging.
pub proof fn law_page_is_capped(
    members: Map<Seq<char>, DiscordMember>,
    identities: Map<Seq<char>, DiscordIdentity>,
    term: Seq<char>,
    skip: Option<u64>,
    limit: Option<i64>,
    search: DiscordMemberSearch,
)
    requires
        is_page_shown(
            members,
            identities,
            term,
            allowed_skip(skip),
            allowed_limit(limit),
            search,
        ),
    ensures
        search.items@.len() <= MAX_LIMIT,
        search.items@.len() <= search.total,
        allowed_skip(skip) <= MAX_SKIP,
{
}

/// A confirmation leaves the claim confirmed and with the user that made it, and every other
/// claim as it was.
pub proof fn law_confirmation_holds(
    before: Map<Seq<char>, DiscordIdentity>,
    after: Map<Seq<char>, DiscordIdentity>,
    discord_id: Seq<char>,
    admin_id: Seq<char>,
)
    requires
        before.contains_key(discord_id),
        is_confirmation(before, after, discord_id, admin_id),
    ensures
        after.contains_key(discord_id),
        confirmed(after[discord_id]),
        after[discord_id].user == before[discord_id].user,
        forall|id: Seq<char>| id != discord_id ==> (#[trigger] after.contains_key(id)
            <==> before.contains_key(id)) && (before.contains_key(id) ==> after[id] == before[id]),
{
}

/// A claim is shown with everything that it says.
pub proof fn law_claim_is_shown_in_full(identity: DiscordIdentity, claim: DiscordIdentityClaim)
    requires
        call_ensures(to_model, (identity,), claim),
    ensures
        claim.discord_id@ == identity.id@,
        claim.discord_username@ == identity.discord_username@,
        claim.discord_display_name == identity.discord_display_name,
        claim.user@ == identity.user@,
        claim.claimed_at == identity.claimed_at,
        claim.source@ == identity.source@,
        claim.confirmed_by == identity.confirmed_by,
        claim.confirmed_at == identity.confirmed_at,
{
}

/// A new claim is the user's own, on the account in question, under the nickname where there is
/// one and else the display name; it comes from signing up and carries no stamp.
pub proof fn law_new_claim_is_unconfirmed(
    user_id: &str,
    member: DiscordMember,
    now: Timestamp,
    identity: DiscordIdentity,
)
    requires
        call_ensures(fresh_claim, (user_id, member, now), identity),
    ensures
        identity.id@ == member.id@,
        identity.user@ == user_id@,
        identity.discord_username@ == member.username@,
        member.nickname is Some ==> identity.discord_display_name == member.nickname,
        member.nickname is None ==> identity.discord_display_name == member.display_name,
        identity.claimed_at == now,
        identity.source@ == "signup"@,
        identity.confirmed_by is None,
        identity.confirmed_at is None,
{
}

/// A member is shown a claim of their own, and none exactly if they have none.
pub proof fn law_members_see_their_own_claim<D: AbstractDiscordIdentity>(
    db: &D,
    user_id: &str,
    result: Result<Option<DiscordIdentityClaim>>,
    id: Seq<char>,
)
    requires
        db.valid(),
        call_ensures(fetch_my_discord_identity::<D>, (db, user_id), result),
    ensures
        db.reliable() ==> result is Ok,
        result is Ok && result->Ok_0 is Some ==> {
            let claim = result->Ok_0->0;
            let kept = db.identities()[claim.discord_id@];
            &&& claim.user@ == user_id@
            &&& db.identities().contains_key(claim.discord_id@)
            &&& kept.user@ == user_id@
            &&& claim.confirmed_by == kept.confirmed_by
            &&& claim.confirmed_at == kept.confirmed_at
            &&& claim.claimed_at == kept.claimed_at
        },
        result is Ok && result->Ok_0 is None && db.identities().contains_key(id)
            ==> db.identities()[id].user@ != user_id@,
{
}

/// Whoever claims an account, the claims of others and the confirmed ones stay as they are,
/// whatever the store does; and nothing is confirmed by it.
pub proof fn law_claiming_spares_others<D: AbstractDiscordIdentity>(
    db: &mut D,
    user_id: &str,
    data: &DataClaimDiscordIdentity,
    result: Result<DiscordIdentityClaim>,
    id: Seq<char>,
)
    requires
        old(db).valid(),
        call_ensures(claim_discord_identity::<D>, (db, user_id, data), result),
    ensures
        final(db).members() == old(db).members(),
        final(db).users() == old(db).users(),
        old(db).identities().contains_key(id) && (old(db).identities()[id].user@ != user_id@ || (
        old(db).identities()[id].confirmed_by is Some && old(db).identities()[id].confirmed_at is
            Some)) ==> final(db).identities().contains_key(id) && final(db).identities()[id]
            == old(db).identities()[id],
        final(db).identities().contains_key(id) && final(db).identities()[id].confirmed_by is Some
            && final(db).identities()[id].confirmed_at is Some ==> old(
            db).identities().contains_key(id) && old(db).identities()[id]
            == final(db).identities()[id],
{
}

/// An account that is not in the snapshot cannot be claimed, and neither can one that somebody
/// else has claimed; claiming one's own again answers with the claim that is there. None of these
/// changes anything.
pub proof fn law_taken_accounts_cannot_be_claimed<D: AbstractDiscordIdentity>(
    db: &mut D,
    user_id: &str,
    data: &DataClaimDiscordIdentity,
    result: Result<DiscordIdentityClaim>,
)
    requires
        old(db).valid(),
        old(db).reliable(),
        call_ensures(claim_discord_identity::<D>, (db, user_id, data), result),
        !old(db).members().contains_key(data.discord_id@) || old(db).identities().contains_key(
            data.discord_id@,
        ),
    ensures
        final(db).identities() == old(db).identities(),
        !old(db).members().contains_key(data.discord_id@) ==> result is Err && result->Err_0 is
            NotFound,
        old(db).members().contains_key(data.discord_id@) ==> {
            let there = old(db).identities()[data.discord_id@];
            &&& there.user@ != user_id@ ==> result is Err && result->Err_0 is FailedValidation
                && result->Err_0->error@
                == "that Discord account has already been claimed by another member; ask an admin"@
            &&& there.user@ == user_id@ ==> result is Ok && result->Ok_0.user@ == user_id@
                && result->Ok_0.discord_id@ == there.id@ && result->Ok_0.confirmed_by
                == there.confirmed_by && result->Ok_0.confirmed_at == there.confirmed_at
                && result->Ok_0.claimed_at == there.claimed_at
        },
{
}

/// A free account is claimed for the member, unconfirmed and under the name that the member goes
/// by. A claim that the member had before is released, unless it is confirmed: then nothing
/// changes, and the member is told to ask an admin.
pub proof fn law_free_accounts_can_be_claimed<D: AbstractDiscordIdentity>(
    db: &mut D,
    user_id: &str,
    data: &DataClaimDiscordIdentity,
    result: Result<DiscordIdentityClaim>,
    previous: Seq<char>,
    other: Seq<char>,
)
    requires
        old(db).valid(),
        old(db).reliable(),
        call_ensures(claim_discord_identity::<D>, (db, user_id, data), result),
        old(db).members().contains_key(data.discord_id@),
        !old(db).identities().contains_key(data.discord_id@),
        forall|id: Seq<char>| #[trigger]
            old(db).identities().contains_key(id) && old(db).identities()[id].user@ == user_id@
                ==> id == previous,
    ensures
        ({
            let before = old(db).identities();
            let after = final(db).identities();
            let id = data.discord_id@;
            let had = before.contains_key(previous) && before[previous].user@ == user_id@;
            let kept = before[previous].confirmed_by is Some && before[previous].confirmed_at is
                Some;
            let member = old(db).members()[id];
            &&& had && kept ==> {
                &&& after == before
                &&& result is Err
                &&& result->Err_0 is FailedValidation
                &&& result->Err_0->error@
                    == "your Discord account has already been confirmed; ask an admin to change it"@
            }
            &&& !(had && kept) ==> {
                &&& result is Ok
                &&& after.contains_key(id)
                &&& after[id].user@ == user_id@
                &&& after[id].discord_username@ == member.username@
                &&& after[id].discord_display_name == if member.nickname is Some {
                    member.nickname
                } else {
                    member.display_name
                }
                &&& after[id].source@ == "signup"@
                &&& after[id].confirmed_by is None
                &&& after[id].confirmed_at is None
                &&& result->Ok_0.user@ == user_id@
                &&& result->Ok_0.discord_id@ == after[id].id@
                &&& result->Ok_0.confirmed_by is None
                &&& had ==> !after.contains_key(previous)
                &&& other != id && !(had && other == previous) ==> (after.contains_key(other)
                    <==> before.contains_key(other)) && (before.contains_key(other) ==> after[other]
                    == before[other])
            }
        }),
{
}

/// A member withdraws a claim of theirs unless it is confirmed, and nothing but that claim goes;
/// without a claim nothing happens, and that is fine.
pub proof fn law_own_claim_can_be_withdrawn<D: AbstractDiscordIdentity>(
    db: &mut D,
    user_id: &str,
    result: Result<()>,
    own: Seq<char>,
    other: Seq<char>,
)
    requires
        old(db).valid(),
        old(db).reliable(),
        call_ensures(withdraw_discord_identity::<D>, (db, user_id), result),
        forall|id: Seq<char>| #[trigger]
            old(db).identities().contains_key(id) && old(db).identities()[id].user@ == user_id@
                ==> id == own,
    ensures
        final(db).members() == old(db).members(),
        final(db).users() == old(db).users(),
        ({
            let before = old(db).identities();
            let after = final(db).identities();
            let had = before.contains_key(own) && before[own].user@ == user_id@;
            let kept = before[own].confirmed_by is Some && before[own].confirmed_at is Some;
            &&& !had ==> result is Ok && after == before
            &&& had && kept ==> {
                &&& after == before
                &&& result is Err
                &&& result->Err_0 is FailedValidation
                &&& result->Err_0->error@
                    == "your Discord account has already been confirmed; ask an admin to change it"@
            }
            &&& had && !kept ==> {
                &&& result is Ok
                &&& !after.contains_key(own)
                &&& other != own ==> (after.contains_key(other) <==> before.contains_key(other))
                    && (before.contains_key(other) ==> after[other] == before[other])
            }
        }),
{
}

/// Whether members are those of a snapshot that a needle names, each once: the one synced last
/// first, then by name and by id.
pub open spec fn are_named_in_order(
    all: Seq<DiscordMember>,
    members: Map<Seq<char>, DiscordMember>,
    needle: Seq<char>,
) -> bool {
    &&& forall|i: int|
        0 <= i < all.len() ==> members.contains_pair((#[trigger] all[i]).id@, all[i]) && stands_in(
            all[i].search@,
            needle,
        )
    &&& forall|id: Seq<char>| #[trigger]
        members.contains_key(id) && stands_in(members[id].search@, needle) ==> all.contains(
            members[id],
        )
    &&& forall|i: int, j: int|
        #![trigger all[i], all[j]]
        0 <= i < j < all.len() ==> {
            ||| all[j].synced_at.seconds < all[i].synced_at.seconds
            ||| all[j].synced_at.seconds == all[i].synced_at.seconds
                && all[j].synced_at.nanoseconds < all[i].synced_at.nanoseconds
            ||| all[j].synced_at == all[i].synced_at && precedes(all[i].search@, all[j].search@)
            ||| all[j].synced_at == all[i].synced_at && all[i].search@ == all[j].search@
                && precedes(all[i].id@, all[j].id@)
        }
}

/// A search answers with how many members are named, and with a part of them in order: from the
/// place asked for, but no further in than five hundred, and as many as asked for, but at least
/// one and at most fifty; twenty-five from the beginning where nothing is asked for. Each is shown
/// with whether it is claimed.
pub proof fn law_search_shows_a_part_in_order<D: AbstractDiscordIdentity>(
    db: &D,
    query: &Option<String>,
    skip: Option<u64>,
    limit: Option<i64>,
    search: DiscordMemberSearch,
    all: Seq<DiscordMember>,
    i: int,
)
    requires
        db.valid(),
        call_ensures(search_discord_members::<D>, (db, query, skip, limit), Ok(search)),
        are_named_in_order(
            all,
            db.members(),
            lowercase_of(
                if *query is Some {
                    (*query)->0@
                } else {
                    Seq::empty()
                },
            ),
        ),
    ensures
        search.total == all.len(),
        ({
            let asked = if skip is Some {
                skip->0 as int
            } else {
                0
            };
            let start = if asked > 500 {
                500
            } else {
                asked
            };
            let room = if limit is None {
                25
            } else if limit->0 < 1 {
                1
            } else if limit->0 > 50 {
                50
            } else {
                limit->0 as int
            };
            let left = if start < all.len() {
                all.len() - start
            } else {
                0
            };
            &&& search.items@.len() == if left < room {
                left
            } else {
                room
            }
            &&& 0 <= i < search.items@.len() ==> {
                &&& search.items@[i].id@ == all[start + i].id@
                &&& search.items@[i].username@ == all[start + i].username@
                &&& search.items@[i].display_name == all[start + i].display_name
                &&& search.items@[i].nickname == all[start + i].nickname
                &&& search.items@[i].claimed <==> db.identities().contains_key(all[start + i].id@)
            }
        }),
{
    let term = term_of(*query);
    let needle = lowercase_of(term);
    let start = allowed_skip(skip);
    let room = allowed_limit(limit);
    let page = choose|page: Seq<DiscordMember>| #[trigger]
        are_suggestions(search.items@, page, db.identities()) && is_search_result(
            db.members(),
            needle,
            start,
            room,
            page,
            search.total as int,
        );
    let listed = choose|listed: Seq<DiscordMember>| #[trigger]
        lists_those(listed, db.members(), naming(needle)) && is_sorted(listed) && page == page_of(
            listed,
            start,
            room,
        ) && search.total == listed.len();
    assert forall|a: int, b: int|
        #![trigger all[a], all[b]]
        0 <= a < b < all.len() implies !all[b].precedes(&all[a]) && all[a].id() != all[b].id() by {
        lemma_precedes_total(all[a].search@, all[b].search@);
        lemma_precedes_total(all[a].id@, all[b].id@);
        assert(db.members().contains_pair(all[a].id@, all[a]));
        assert(db.members().contains_pair(all[b].id@, all[b]));
        if all[a].id@ == all[b].id@ {
            assert(all[a] == all[b]);
        }
    }
    assert(lists_those(all, db.members(), naming(needle)));
    lemma_one_order(db.members(), needle, all, listed);
    if 0 <= i < search.items@.len() {
        assert(page[i] == all[start + i]);
        assert(search.items@[i].id == page[i].id);
    }
}

/// Those that manage a server may restructure it; claims are also for those that verify members.
/// Everybody else is told which permission they lack.
pub proof fn law_access_takes_a_permission(
    permissions: ServerPermissions,
    managing: Result<()>,
    verifying: Result<()>,
)
    requires
        call_ensures(require_manage_server, (permissions,), managing),
        call_ensures(require_verify_access, (permissions,), verifying),
    ensures
        managing is Ok <==> permissions.manage_server,
        managing is Err ==> managing->Err_0 is MissingPermission && managing->Err_0->permission@
            == "ManageServer"@,
        verifying is Ok <==> permissions.manage_server || permissions.verify_members,
        verifying is Err ==> verifying->Err_0 is MissingPermission && verifying->Err_0->permission@
            == "VerifyMembers"@,
{
}

/// Those that may verify members see every claim, each once and the newest first; nobody else sees
/// any.
pub proof fn law_verifiers_see_every_claim<D: AbstractDiscordIdentity>(
    db: &D,
    permissions: ServerPermissions,
    result: Result<Vec<DiscordIdentityClaim>>,
    i: int,
    j: int,
)
    requires
        db.valid(),
        call_ensures(fetch_discord_claims::<D>, (db, permissions), result),
    ensures
        !permissions.manage_server && !permissions.verify_members ==> result is Err
            && result->Err_0 is MissingPermission && result->Err_0->permission@
            == "VerifyMembers"@,
        (permissions.manage_server || permissions.verify_members) && db.reliable() ==> result is Ok,
        result is Ok ==> permissions.manage_server || permissions.verify_members,
        result is Ok && 0 <= i < result->Ok_0@.len() ==> {
            let claim = result->Ok_0@[i];
            let kept = db.identities()[claim.discord_id@];
            &&& db.identities().contains_key(claim.discord_id@)
            &&& claim.user@ == kept.user@
            &&& claim.discord_username@ == kept.discord_username@
            &&& claim.claimed_at == kept.claimed_at
            &&& claim.source@ == kept.source@
            &&& claim.confirmed_by == kept.confirmed_by
            &&& claim.confirmed_at == kept.confirmed_at
        },
        result is Ok && 0 <= i < j < result->Ok_0@.len() ==> {
            let newer = result->Ok_0@[i];
            let older = result->Ok_0@[j];
            &&& newer.discord_id@ != older.discord_id@
            &&& older.claimed_at.seconds < newer.claimed_at.seconds || (older.claimed_at.seconds
                == newer.claimed_at.seconds && older.claimed_at.nanoseconds
                <= newer.claimed_at.nanoseconds)
        },
{
    if result is Ok {
        let claims = result->Ok_0@;
        let all = choose|all: Seq<DiscordIdentity>|
            #![trigger is_sorted(all)]
            is_sorted(all) && lists_those(all, db.identities(), |identity: DiscordIdentity| true)
                && claims == all.map_values(|identity: DiscordIdentity| shown(identity));
        if 0 <= i < claims.len() {
            assert(claims[i] == shown(all[i]));
            assert(db.identities().contains_pair(all[i].id(), all[i]));
        }
        if 0 <= i < j < claims.len() {
            assert(claims[j] == shown(all[j]));
            assert(!all[j].precedes(&all[i]));
            assert(all[i].id() != all[j].id());
        }
    }
}

/// No claim is left out of what those that may verify members see.
pub proof fn law_no_claim_is_hidden_from_verifiers<D: AbstractDiscordIdentity>(
    db: &D,
    permissions: ServerPermissions,
    claims: Vec<DiscordIdentityClaim>,
    id: Seq<char>,
)
    requires
        db.valid(),
        call_ensures(fetch_discord_claims::<D>, (db, permissions), Ok(claims)),
        db.identities().contains_key(id),
    ensures
        exists|i: int|
            0 <= i < claims@.len() && (#[trigger] claims@[i]).discord_id@
                == db.identities()[id].id@ && claims@[i].user@ == db.identities()[id].user@,
{
    let every = |identity: DiscordIdentity| true;
    let all = choose|all: Seq<DiscordIdentity>|
        #![trigger is_sorted(all)]
        is_sorted(all) && lists_those(all, db.identities(), |identity: DiscordIdentity| true)
            && claims@ == all.map_values(|identity: DiscordIdentity| shown(identity));
    assert(every(db.identities()[id]));
    assert(all.contains(db.identities()[id]));
    let i = all.index_of(db.identities()[id]);
    assert(claims@[i] == shown(all[i]));
}

/// A claim is confirmed exactly by those that may verify members, where it is there and its user
/// is, and by somebody else than its user unless they manage the server. Then it bears who
/// confirmed it and a time, and is otherwise as it was; confirming a confirmed one changes
/// nothing.
pub proof fn law_confirming_takes_somebody_else<D: AbstractDiscordIdentity>(
    db: &mut D,
    user_id: &str,
    permissions: ServerPermissions,
    discord_id: &str,
    result: Result<()>,
)
    requires
        old(db).valid(),
        old(db).users_valid(),
        old(db).reliable(),
        old(db).users_reliable(),
        call_ensures(
            confirm_discord_claim::<D>,
            (db, user_id, permissions, discord_id),
            result,
        ),
    ensures
        final(db).members() == old(db).members(),
        final(db).users() == old(db).users(),
        ({
            let before = old(db).identities();
            let after = final(db).identities();
            let id = discord_id@;
            let claim = before[id];
            let admitted = permissions.manage_server || permissions.verify_members;
            let there = before.contains_key(id);
            let done = claim.confirmed_by is Some && claim.confirmed_at is Some;
            let own = claim.user@ == user_id@ && !permissions.manage_server;
            let known = old(db).users().contains_key(claim.user@);
            &&& !admitted ==> result is Err && result->Err_0 is MissingPermission
                && result->Err_0->permission@ == "VerifyMembers"@
            &&& admitted && !there ==> result is Err && result->Err_0 is NotFound
            &&& admitted && there && done ==> result is Ok
            &&& admitted && there && !done && own ==> result is Err && result->Err_0 is
                MissingPermission && result->Err_0->permission@ == "ManageServer"@
            &&& admitted && there && !done && !own && !known ==> result is Err && result->Err_0 is
                FailedValidation && result->Err_0->error@
                == "that claim points at a NAC account that no longer exists"@
            &&& !(admitted && there && !done && !own && known) ==> after == before
            &&& admitted && there && !done && !own && known ==> {
                &&& result is Ok
                &&& after.contains_key(id)
                &&& after[id].confirmed_by is Some
                &&& after[id].confirmed_by->0@ == user_id@
                &&& after[id].confirmed_at is Some
                &&& after[id].id@ == claim.id@
                &&& after[id].user@ == claim.user@
                &&& after[id].claimed_at == claim.claimed_at
                &&& after[id].source@ == claim.source@
                &&& after[id].discord_username@ == claim.discord_username@
                &&& after[id].discord_display_name == claim.discord_display_name
            }
        }),
{
}

/// Whatever the store does, confirming a claim leaves the others alone, and it changes a claim
/// only for those that may confirm it.
pub proof fn law_confirming_spares_others<D: AbstractDiscordIdentity>(
    db: &mut D,
    user_id: &str,
    permissions: ServerPermissions,
    discord_id: &str,
    result: Result<()>,
    other: Seq<char>,
)
    requires
        old(db).valid(),
        old(db).users_valid(),
        call_ensures(
            confirm_discord_claim::<D>,
            (db, user_id, permissions, discord_id),
            result,
        ),
    ensures
        other != discord_id@ ==> (final(db).identities().contains_key(other) <==> old(
            db).identities().contains_key(other)) && (old(db).identities().contains_key(other)
            ==> final(db).identities()[other] == old(db).identities()[other]),
        final(db).identities() != old(db).identities() ==> (permissions.manage_server
            || permissions.verify_members) && (old(db).identities()[discord_id@].user@ == user_id@
            ==> permissions.manage_server),
{
}

/// What is left to do about a rejected claim: nothing where it is gone; where it is there still,
/// those that manage the server delete it, and nobody else.
pub proof fn law_confirmation_is_undone_by_managers(
    removed: bool,
    permissions: ServerPermissions,
    result: Result<Rejection>,
)
    requires
        call_ensures(rejection, (removed, permissions), result),
    ensures
        removed ==> result is Ok && result->Ok_0 is Over,
        !removed && permissions.manage_server ==> result is Ok && result->Ok_0 is Delete,
        !removed && !permissions.manage_server ==> result is Err && result->Err_0 is
            MissingPermission && result->Err_0->permission@ == "ManageServer"@,
{
}

/// A claim is rejected by those that may verify members while it is unconfirmed, and by those that
/// manage the server in any case. Then it is gone and the others are not; rejecting what is not
/// there is fine.
pub proof fn law_rejected_claim_is_gone<D: AbstractDiscordIdentity>(
    db: &mut D,
    permissions: ServerPermissions,
    discord_id: &str,
    result: Result<()>,
    other: Seq<char>,
)
    requires
        old(db).valid(),
        old(db).reliable(),
        call_ensures(reject_discord_claim::<D>, (db, permissions, discord_id), result),
    ensures
        final(db).members() == old(db).members(),
        final(db).users() == old(db).users(),
        ({
            let before = old(db).identities();
            let after = final(db).identities();
            let id = discord_id@;
            let admitted = permissions.manage_server || permissions.verify_members;
            let there = before.contains_key(id);
            let done = before[id].confirmed_by is Some && before[id].confirmed_at is Some;
            &&& !admitted ==> result is Err && result->Err_0 is MissingPermission
                && result->Err_0->permission@ == "VerifyMembers"@ && after == before
            &&& admitted && !there ==> result is Ok && after == before
            &&& admitted && there && done && !permissions.manage_server ==> result is Err
                && result->Err_0 is MissingPermission && result->Err_0->permission@
                == "ManageServer"@ && after == before
            &&& admitted && there && (!done || permissions.manage_server) ==> result is Ok
                && !after.contains_key(id)
            &&& other != id ==> (after.contains_key(other) <==> before.contains_key(other)) && (
            before.contains_key(other) ==> after[other] == before[other])
        }),
{
}

/// Who lacks a permission is told which.
pub proof fn law_missing_permission_is_named(permission: &str, error: Error)
    requires
        call_ensures(missing_permission, (permission,), error),
    ensures
        error is MissingPermission,
        error->permission@ == permission@,
{
}

} // verus!
