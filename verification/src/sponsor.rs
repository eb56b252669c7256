use vstd::prelude::*;

use crate::error::{Error, Result};
use crate::text::{holds, same, texts};

verus! {

/// Raw value of the shared-secret header, if present.
#[derive(Debug, PartialEq, Eq)]
pub struct SponsorSecretHeader(pub Option<String>);

/// Which role to give to or take from which member.
#[derive(Debug, PartialEq, Eq)]
pub struct DataSponsorRole {
    /// Server the member belongs to
    pub server_id: String,
    /// User to grant the role to or revoke it from
    pub user_id: String,
    /// Role id to add to or remove from the member's role list
    pub role_id: String,
}

/// The roles that a member has now.
#[derive(Debug, PartialEq, Eq)]
pub struct SponsorRoleResponse {
    pub roles: Vec<String>,
}

/// How far a grant or a revocation has come, and what it takes next.
#[derive(Debug, PartialEq, Eq)]
pub enum SponsorStage {
    /// The server is to be found
    FetchingServer { server_id: String },
    /// The member of it is to be found
    FetchingMember { server_id: String, user_id: String },
    /// The member's roles are to be written, and the field dropped if none are left
    Updating { roles: Vec<String>, remove_field: bool },
    /// The roles that the member has now, or why nothing was done
    Finished { outcome: Result<SponsorRoleResponse> },
}

/// What came of what a stage asked for.
#[derive(Debug, PartialEq, Eq)]
pub enum SponsorReply {
    /// It could not be done
    Refused { error: Error },
    /// The server, and the roles that there are on it
    Server { id: String, roles: Vec<String> },
    /// The roles that the member has
    Member { roles: Vec<String> },
    /// It is done
    Done,
}

/// The grant or the revocation of a role.
#[derive(Debug, PartialEq, Eq)]
pub struct RoleChange {
    /// Whether the role is given rather than taken
    pub granting: bool,
    pub data: DataSponsorRole,
    pub stage: SponsorStage,
}

/// Whether a secret was configured and is the one provided.
pub open spec fn is_secret(header: SponsorSecretHeader, configured: Option<String>) -> bool {
    configured matches Some(expected) && header.0 matches Some(provided) && expected@.len() != 0
        && expected@ == provided@
}

/// Whether a call carries the configured secret. Nothing does where none is configured.
pub fn check_secret(header: &SponsorSecretHeader, configured: &Option<String>) -> (result: Result<
    (),
>)
    ensures
        result is Ok <==> is_secret(*header, *configured),
        result matches Err(error) ==> error == Error::InvalidCredentials,
{
    match (configured, &header.0) {
        (Some(expected), Some(provided)) => if !expected.as_str().is_empty() && same(
            expected.as_str(),
            provided.as_str(),
        ) {
            Ok(())
        } else {
            Err(Error::InvalidCredentials)
        },
        _ => Err(Error::InvalidCredentials),
    }
}

/// Whether a change has ended with an error.
pub open spec fn refused(stage: SponsorStage, error: Error) -> bool {
    stage matches SponsorStage::Finished { outcome } && outcome == Err::<
        SponsorRoleResponse,
        Error,
    >(error)
}

/// Whether a change has ended with the roles that a member has.
pub open spec fn settled(stage: SponsorStage, roles: Seq<Seq<char>>) -> bool {
    stage matches SponsorStage::Finished { outcome } && outcome matches Ok(response) && texts(
        response.roles@,
    ) == roles
}

/// Whether a member's roles are to be written.
pub open spec fn writes(stage: SponsorStage, roles: Seq<Seq<char>>) -> bool {
    stage matches SponsorStage::Updating { roles: written, remove_field } && texts(written@)
        == roles && remove_field == (roles.len() == 0)
}

/// Whether one stage follows another on a reply. A role is granted only if it is one of the
/// server's; revoking one does not ask. A member that has the role, or lacks it, as it is to be
/// is left alone.
pub open spec fn role_follows(change: RoleChange, reply: SponsorReply, next: SponsorStage) -> bool {
    let role = change.data.role_id@;
    match change.stage {
        SponsorStage::FetchingServer { .. } => match reply {
            SponsorReply::Server { id, roles } => if change.granting && !texts(roles@).contains(
                role,
            ) {
                refused(next, Error::InvalidRole)
            } else {
                next == (SponsorStage::FetchingMember {
                    server_id: id,
                    user_id: change.data.user_id,
                })
            },
            SponsorReply::Refused { error } => refused(next, error),
            _ => refused(next, Error::InternalError),
        },
        SponsorStage::FetchingMember { .. } => match reply {
            SponsorReply::Member { roles } => {
                let held = texts(roles@);
                if change.granting == held.contains(role) {
                    settled(next, held)
                } else if change.granting {
                    writes(next, granted(held, role))
                } else {
                    writes(next, revoked(held, role))
                }
            },
            SponsorReply::Refused { error } => refused(next, error),
            _ => refused(next, Error::InternalError),
        },
        SponsorStage::Updating { roles, .. } => match reply {
            SponsorReply::Done => settled(next, texts(roles@)),
            SponsorReply::Refused { error } => refused(next, error),
            _ => refused(next, Error::InternalError),
        },
        SponsorStage::Finished { .. } => next == change.stage,
    }
}

/// Roles with one more; as they are if it is among them.
pub open spec fn granted(roles: Seq<Seq<char>>, role: Seq<char>) -> Seq<Seq<char>> {
    if roles.contains(role) {
        roles
    } else {
        roles.push(role)
    }
}

/// Roles without one.
pub open spec fn revoked(roles: Seq<Seq<char>>, role: Seq<char>) -> Seq<Seq<char>> {
    roles.filter(other_than(role))
}

/// The roles but for one.
pub open spec fn other_than(role: Seq<char>) -> spec_fn(Seq<char>) -> bool {
    |held: Seq<char>| held != role
}

fn fail(error: Error) -> (stage: SponsorStage)
    ensures
        refused(stage, error),
{
    SponsorStage::Finished { outcome: Err(error) }
}

fn settle(roles: Vec<String>) -> (stage: SponsorStage)
    ensures
        settled(stage, texts(roles@)),
{
    SponsorStage::Finished { outcome: Ok(SponsorRoleResponse { roles }) }
}

fn begin(
    granting: bool,
    secret: &SponsorSecretHeader,
    configured: &Option<String>,
    data: DataSponsorRole,
) -> (change: RoleChange)
    ensures
        change.granting == granting,
        change.data == data,
        is_secret(*secret, *configured) ==> change.stage == (SponsorStage::FetchingServer {
            server_id: data.server_id,
        }),
        !is_secret(*secret, *configured) ==> refused(change.stage, Error::InvalidCredentials),
{
    let stage = match check_secret(secret, configured) {
        Ok(()) => SponsorStage::FetchingServer { server_id: data.server_id.clone() },
        Err(error) => fail(error),
    };
    RoleChange { granting, data, stage }
}

/// Add a role to a member. The secret comes before anything else.
pub fn grant(
    secret: &SponsorSecretHeader,
    configured: &Option<String>,
    data: DataSponsorRole,
) -> (change: RoleChange)
    ensures
        change.granting,
        change.data == data,
        is_secret(*secret, *configured) ==> change.stage == (SponsorStage::FetchingServer {
            server_id: data.server_id,
        }),
        !is_secret(*secret, *configured) ==> refused(change.stage, Error::InvalidCredentials),
{
    begin(true, secret, configured, data)
}

/// Remove a role from a member. The secret comes before anything else.
pub fn revoke(
    secret: &SponsorSecretHeader,
    configured: &Option<String>,
    data: DataSponsorRole,
) -> (change: RoleChange)
    ensures
        !change.granting,
        change.data == data,
        is_secret(*secret, *configured) ==> change.stage == (SponsorStage::FetchingServer {
            server_id: data.server_id,
        }),
        !is_secret(*secret, *configured) ==> refused(change.stage, Error::InvalidCredentials),
{
    begin(false, secret, configured, data)
}

fn without(member_roles: &Vec<String>, role_id: &str) -> (roles: Vec<String>)
    ensures
        texts(roles@) == revoked(texts(member_roles@), role_id@),
{
    let ghost held = texts(member_roles@);
    let ghost kept = other_than(role_id@);
    let mut roles: Vec<String> = Vec::new();
    assert(held.take(0).filter(kept) =~= Seq::empty()) by {
        reveal(Seq::filter);
    }
    assert(texts(roles@) =~= Seq::empty());
    for i in 0..member_roles.len()
        invariant
            held == texts(member_roles@),
            kept == other_than(role_id@),
            texts(roles@) == held.take(i as int).filter(kept),
    {
        let ghost part = held.take(i + 1);
        assert(part.drop_last() =~= held.take(i as int));
        assert(part.last() == member_roles@[i as int]@);
        proof {
            reveal(Seq::filter);
        }
        if !same(member_roles[i].as_str(), role_id) {
            let ghost earlier = roles@;
            roles.push(member_roles[i].clone());
            assert(texts(roles@) =~= texts(earlier).push(member_roles@[i as int]@));
        }
    }
    assert(held.take(held.len() as int) =~= held);
    roles
}

impl RoleChange {
    /// Take up what came of what the stage asked for.
    pub fn advance(self, reply: SponsorReply) -> (next: RoleChange)
        ensures
            next.granting == self.granting,
            next.data == self.data,
            role_follows(self, reply, next.stage),
    {
        let RoleChange { granting, data, stage } = self;
        let next = match stage {
            SponsorStage::FetchingServer { .. } => match reply {
                SponsorReply::Server { id, roles } => if granting && !holds(
                    &roles,
                    data.role_id.as_str(),
                ) {
                    fail(Error::InvalidRole)
                } else {
                    SponsorStage::FetchingMember { server_id: id, user_id: data.user_id.clone() }
                },
                SponsorReply::Refused { error } => fail(error),
                _ => fail(Error::InternalError),
            },
            SponsorStage::FetchingMember { .. } => match reply {
                SponsorReply::Member { roles } => {
                    let ghost held = texts(roles@);
                    if granting == holds(&roles, data.role_id.as_str()) {
                        settle(roles)
                    } else if granting {
                        let mut more = roles;
                        more.push(data.role_id.clone());
                        assert(texts(more@) =~= held.push(data.role_id@));
                        SponsorStage::Updating { roles: more, remove_field: false }
                    } else {
                        let fewer = without(&roles, data.role_id.as_str());
                        let remove_field = fewer.len() == 0;
                        assert(texts(fewer@).len() == fewer@.len());
                        SponsorStage::Updating { roles: fewer, remove_field }
                    }
                },
                SponsorReply::Refused { error } => fail(error),
                _ => fail(Error::InternalError),
            },
            SponsorStage::Updating { roles, .. } => match reply {
                SponsorReply::Done => settle(roles),
                SponsorReply::Refused { error } => fail(error),
                _ => fail(Error::InternalError),
            },
            SponsorStage::Finished { outcome } => SponsorStage::Finished { outcome },
        };
        RoleChange { granting, data, stage: next }
    }
}

/// A change that succeeds leaves the member with the role if it was granted and without it if
/// it was revoked; nothing is written for a member that is as it is to be already.
pub proof fn law_role_change_takes_effect(
    change: RoleChange,
    held: Vec<String>,
    next: SponsorStage,
)
    requires
        change.stage is FetchingMember,
        role_follows(change, SponsorReply::Member { roles: held }, next),
    ensures
        texts(held@).contains(change.data.role_id@) == change.granting ==> settled(
            next,
            texts(held@),
        ),
        next matches SponsorStage::Updating { roles, .. } ==> texts(roles@).contains(
            change.data.role_id@,
        ) == change.granting,
{
    law_grant(texts(held@), change.data.role_id@);
    law_revoke(texts(held@), change.data.role_id@);
}

/// Granting a role gives it and leaves the others as they are; granting it again changes
/// nothing.
pub proof fn law_grant(roles: Seq<Seq<char>>, role: Seq<char>)
    ensures
        granted(roles, role).contains(role),
        granted(granted(roles, role), role) == granted(roles, role),
        forall|other: Seq<char>|
            other != role ==> (#[trigger] granted(roles, role).contains(other) <==> roles.contains(
                other,
            )),
{
    let result = granted(roles, role);
    if !roles.contains(role) {
        assert(result[roles.len() as int] == role);
    }
    assert forall|other: Seq<char>| other != role implies (#[trigger] result.contains(other)
        <==> roles.contains(other)) by {
        if roles.contains(other) {
            let i = roles.index_of(other);
            assert(result[i] == other);
        }
    }
}

/// Revoking a role takes it and leaves the others as they are; revoking it again changes
/// nothing, and revoking one that was just granted gives back what was there.
pub proof fn law_revoke(roles: Seq<Seq<char>>, role: Seq<char>)
    ensures
        !revoked(roles, role).contains(role),
        forall|other: Seq<char>|
            other != role ==> (#[trigger] revoked(roles, role).contains(other) <==> roles.contains(
                other,
            )),
        revoked(revoked(roles, role), role) == revoked(roles, role),
        !roles.contains(role) ==> revoked(roles, role) == roles && revoked(
            granted(roles, role),
            role,
        ) == roles,
{
    broadcast use vstd::seq_lib::group_filter_ensures;

    let kept = other_than(role);
    let result = revoked(roles, role);
    assert forall|other: Seq<char>| other != role implies (#[trigger] result.contains(other)
        <==> roles.contains(other)) by {
        if roles.contains(other) {
            roles.lemma_filter_contains_rev(kept, other);
        }
        if result.contains(other) {
            lemma_filter_source(roles, kept, other);
        }
    }
    if result.contains(role) {
        let i = result.index_of(role);
        assert(kept(roles.filter(kept)[i]));
    }
    lemma_filter_idle(result, role);
    if !roles.contains(role) {
        lemma_filter_idle(roles, role);
        let more = roles.push(role);
        assert(more.drop_last() =~= roles);
        reveal(Seq::filter);
    }
}

proof fn lemma_filter_source(
    list: Seq<Seq<char>>,
    pred: spec_fn(Seq<char>) -> bool,
    item: Seq<char>,
)
    requires
        list.filter(pred).contains(item),
    ensures
        list.contains(item),
    decreases list.len(),
{
    reveal(Seq::filter);
    if list.len() != 0 {
        let rest = list.drop_last();
        if rest.filter(pred).contains(item) {
            lemma_filter_source(rest, pred, item);
            let i = rest.index_of(item);
            assert(list[i] == item);
        } else {
            assert(list[list.len() - 1] == item);
        }
    }
}

proof fn lemma_filter_idle(list: Seq<Seq<char>>, role: Seq<char>)
    requires
        !list.contains(role),
    ensures
        revoked(list, role) == list,
    decreases list.len(),
{
    reveal(Seq::filter);
    if list.len() != 0 {
        let rest = list.drop_last();
        assert(!rest.contains(role)) by {
            if rest.contains(role) {
                let i = rest.index_of(role);
                assert(list[i] == role);
            }
        }
        lemma_filter_idle(rest, role);
        assert(list[list.len() - 1] != role);
        assert(list =~= rest.push(list.last()));
    } else {
        assert(revoked(list, role) =~= list);
    }
}

/// A call is let through exactly if a secret is configured that is not empty, and the call carries
/// it, character for character.
pub proof fn law_secret_has_to_match(
    header: &SponsorSecretHeader,
    configured: &Option<String>,
    result: Result<()>,
)
    requires
        call_ensures(check_secret, (header, configured), result),
    ensures
        result is Ok <==> *configured is Some && header.0 is Some && (*configured)->0@.len() > 0
            && (*configured)->0@ == header.0->0@,
        result is Err ==> result->Err_0 is InvalidCredentials,
{
}

/// A grant or a revocation without the secret ends there; with it, it starts by asking for the
/// server.
pub proof fn law_secret_comes_first(
    secret: &SponsorSecretHeader,
    configured: &Option<String>,
    data: DataSponsorRole,
    given: RoleChange,
    taken: RoleChange,
)
    requires
        call_ensures(grant, (secret, configured, data), given),
        call_ensures(revoke, (secret, configured, data), taken),
    ensures
        given.granting,
        !taken.granting,
        given.data == data,
        taken.data == data,
        ({
            let known = *configured is Some && secret.0 is Some && (*configured)->0@.len() > 0 && (
            *configured)->0@ == secret.0->0@;
            &&& known ==> given.stage is FetchingServer
                && given.stage->FetchingServer_server_id@ == data.server_id@
            &&& known ==> taken.stage is FetchingServer
                && taken.stage->FetchingServer_server_id@ == data.server_id@
            &&& !known ==> given.stage is Finished && given.stage->outcome is Err
                && given.stage->outcome->Err_0 is InvalidCredentials
            &&& !known ==> taken.stage is Finished && taken.stage->outcome is Err
                && taken.stage->outcome->Err_0 is InvalidCredentials
        }),
{
}

/// Only a role that the server has can be granted; any can be revoked. Then the member is asked
/// for, by the user named.
pub proof fn law_only_roles_of_the_server_are_granted(
    change: RoleChange,
    reply: SponsorReply,
    next: RoleChange,
)
    requires
        call_ensures(RoleChange::advance, (change, reply), next),
        change.stage is FetchingServer,
    ensures
        ({
            let there = exists|i: int|
                0 <= i < reply->Server_roles@.len() && (#[trigger] reply->Server_roles@[i])@
                    == change.data.role_id@;
            &&& reply is Server && change.granting && !there ==> next.stage is Finished
                && next.stage->outcome is Err && next.stage->outcome->Err_0 is InvalidRole
            &&& reply is Server && (!change.granting || there) ==> {
                &&& next.stage is FetchingMember
                &&& next.stage->FetchingMember_server_id@ == reply->id@
                &&& next.stage->user_id@ == change.data.user_id@
            }
        }),
        !(reply is Server) ==> next.stage is Finished && next.stage->outcome is Err,
        reply is Refused ==> next.stage->outcome->Err_0 == reply->error,
{
    let list = texts(reply->Server_roles@);
    let role = change.data.role_id@;
    if list.contains(role) {
        let i = list.index_of(role);
        assert(reply->Server_roles@[i]@ == role);
    }
    if exists|i: int|
        0 <= i < reply->Server_roles@.len() && (#[trigger] reply->Server_roles@[i])@ == role {
        let i = choose|i: int|
            0 <= i < reply->Server_roles@.len() && (#[trigger] reply->Server_roles@[i])@ == role;
        assert(list[i] == role);
    }
}

/// A role that is granted is put behind those that the member has, and nothing is written for a
/// member that has it.
pub proof fn law_granted_role_comes_last(
    change: RoleChange,
    reply: SponsorReply,
    next: RoleChange,
)
    requires
        call_ensures(RoleChange::advance, (change, reply), next),
        change.stage is FetchingMember,
        change.granting,
        reply is Member,
    ensures
        ({
            let held = texts(reply->Member_roles@);
            &&& held.contains(change.data.role_id@) ==> next.stage is Finished
                && next.stage->outcome is Ok && texts(next.stage->outcome->Ok_0.roles@) == held
            &&& !held.contains(change.data.role_id@) ==> next.stage is Updating
                && !next.stage->remove_field && texts(next.stage->roles@) == held.push(
                change.data.role_id@,
            )
        }),
{
    if next.stage is Updating {
        assert(texts(next.stage->roles@).len() > 0);
    }
}

/// A role that is revoked is taken wherever it stands, and the others keep their order: a member
/// with one more role has it written behind the rest, unless it is the role in question.
pub proof fn law_revoked_role_is_taken(
    change: RoleChange,
    held: Vec<String>,
    one: String,
    more: Vec<String>,
    next: RoleChange,
    more_next: RoleChange,
)
    requires
        call_ensures(RoleChange::advance, (change, SponsorReply::Member { roles: held }), next),
        call_ensures(
            RoleChange::advance,
            (change, SponsorReply::Member { roles: more }),
            more_next,
        ),
        change.stage is FetchingMember,
        !change.granting,
        more@ == held@.push(one),
    ensures
        ({
            let role = change.data.role_id@;
            let found = texts(held@).contains(role);
            &&& !found ==> next.stage is Finished && next.stage->outcome is Ok && texts(
                next.stage->outcome->Ok_0.roles@,
            ) == texts(held@)
            &&& found ==> next.stage is Updating && (next.stage->remove_field <==> texts(
                next.stage->roles@,
            ).len() == 0)
            &&& !found && one@ == role ==> more_next.stage is Updating && texts(
                more_next.stage->roles@,
            ) == texts(held@)
            &&& found && one@ == role ==> texts(more_next.stage->roles@) == texts(next.stage->roles@)
            &&& found && one@ != role ==> texts(more_next.stage->roles@) == texts(
                next.stage->roles@,
            ).push(one@)
        }),
{
    reveal(Seq::filter);
    let role = change.data.role_id@;
    let list = texts(held@);
    let longer = texts(more@);
    assert(longer.drop_last() =~= list);
    assert(longer.last() == one@);
    if list.contains(role) {
        let i = list.index_of(role);
        assert(longer[i] == role);
        assert(longer.contains(role));
    } else {
        lemma_filter_idle(list, role);
        if one@ == role {
            assert(longer[list.len() as int] == role);
            assert(longer.contains(role));
        }
    }
}

/// The roles that were written are those that the member has then. A refusal ends the change with
/// its reason, and what has ended stays as it is.
pub proof fn law_written_roles_are_answered(
    change: RoleChange,
    reply: SponsorReply,
    next: RoleChange,
)
    requires
        call_ensures(RoleChange::advance, (change, reply), next),
    ensures
        next.granting == change.granting,
        next.data == change.data,
        change.stage is Updating && reply is Done ==> next.stage is Finished
            && next.stage->outcome is Ok && texts(next.stage->outcome->Ok_0.roles@) == texts(
            change.stage->roles@,
        ),
        change.stage is Updating && !(reply is Done) ==> next.stage is Finished
            && next.stage->outcome is Err,
        change.stage is FetchingMember && !(reply is Member) ==> next.stage is Finished
            && next.stage->outcome is Err,
        !(change.stage is Finished) && reply is Refused ==> next.stage is Finished
            && next.stage->outcome is Err && next.stage->outcome->Err_0 == reply->error,
        change.stage is Finished ==> next.stage == change.stage,
{
}

} // verus!
