use vstd::prelude::*;

use crate::claims::{is_missing_permission, missing_permission};
use crate::error::{Error, Result};
use crate::users::User;

verus! {

/// What a caller may do in a channel, as far as these routes go.
#[derive(Debug, Clone, Copy, PartialEq, Eq, Structural)]
pub struct ChannelPermissions {
    pub invite_others: bool,
    pub read_message_history: bool,
}

/// An invite, and where it leads. What else it says is handed out as it is.
#[derive(Debug, PartialEq, Eq)]
pub enum Invite<I> {
    /// Into a server
    Server { code: String, rest: I },
    /// Into a group
    Group { code: String, rest: I },
}

/// An invite as the registration of accounts knows it.
#[derive(Debug, PartialEq, Eq)]
pub struct AuthInvite {
    pub id: String,
    pub used: bool,
    pub claimed_by: Option<String>,
}

/// How far the creation of an invite has come, and what it takes next.
#[derive(Debug, PartialEq, Eq)]
pub enum InviteStage<I> {
    /// The channel is to be found, and what the caller may do in it
    Resolving,
    /// The invite is to be created
    Creating,
    /// The invite is to be known to the registration of accounts, too
    Registering { invite: Invite<I>, registration: AuthInvite },
    /// The invite, or why there is none
    Finished { outcome: Result<Invite<I>> },
}

/// What came of what a stage asked for.
#[derive(Debug, PartialEq, Eq)]
pub enum InviteReply<I> {
    /// It could not be done
    Refused { error: Error },
    /// The channel was found
    Channel { permissions: ChannelPermissions },
    /// The invite was created
    Created { invite: Invite<I> },
    /// The registration knows it
    Done,
}

/// Whether the creation of an invite has ended with an error.
pub open spec fn uninvited<I>(stage: InviteStage<I>, error: Error) -> bool {
    stage matches InviteStage::Finished { outcome } && outcome == Err::<Invite<I>, Error>(error)
}

/// Whether one stage follows another on a reply.
///
/// Where registration takes an invite, one to a server has to be known there, or a new user could
/// open the link and not create an account; if it cannot be, the invite is not handed out. A
/// group is not the community, so its invites authorise no registration.
pub open spec fn invite_follows<I>(
    stage: InviteStage<I>,
    reply: InviteReply<I>,
    next: InviteStage<I>,
) -> bool {
    match stage {
        InviteStage::Resolving => match reply {
            InviteReply::Channel { permissions } => if permissions.invite_others {
                next == InviteStage::<I>::Creating
            } else {
                next matches InviteStage::Finished { outcome } && outcome matches Err(error)
                    && is_missing_permission(error, "InviteOthers"@)
            },
            InviteReply::Refused { error } => uninvited(next, error),
            _ => uninvited(next, Error::InternalError),
        },
        InviteStage::Creating => match reply {
            InviteReply::Created { invite } => match invite {
                Invite::Server { code, .. } => next == (InviteStage::Registering {
                    invite,
                    registration: AuthInvite { id: code, used: false, claimed_by: None },
                }),
                Invite::Group { .. } => next == (InviteStage::Finished {
                    outcome: Ok::<Invite<I>, Error>(invite),
                }),
            },
            InviteReply::Refused { error } => uninvited(next, error),
            _ => uninvited(next, Error::InternalError),
        },
        InviteStage::Registering { invite, .. } => match reply {
            InviteReply::Done => next == (InviteStage::Finished {
                outcome: Ok::<Invite<I>, Error>(invite),
            }),
            _ => uninvited(next, Error::InternalError),
        },
        InviteStage::Finished { .. } => next == stage,
    }
}

fn fail<I>(error: Error) -> (stage: InviteStage<I>)
    ensures
        uninvited(stage, error),
{
    InviteStage::Finished { outcome: Err(error) }
}

/// Create an invite to a channel. Bots cannot.
pub fn create_invite<I>(user: &User) -> (stage: InviteStage<I>)
    ensures
        user.bot ==> uninvited(stage, Error::IsBot),
        !user.bot ==> stage == InviteStage::<I>::Resolving,
{
    if user.bot {
        fail(Error::IsBot)
    } else {
        InviteStage::Resolving
    }
}

impl<I> InviteStage<I> {
    /// Take up what came of what the stage asked for.
    pub fn advance(self, reply: InviteReply<I>) -> (next: InviteStage<I>)
        ensures
            invite_follows(self, reply, next),
    {
        match self {
            InviteStage::Resolving => match reply {
                InviteReply::Channel { permissions } => if permissions.invite_others {
                    InviteStage::Creating
                } else {
                    fail(missing_permission("InviteOthers"))
                },
                InviteReply::Refused { error } => fail(error),
                _ => fail(Error::InternalError),
            },
            InviteStage::Creating => match reply {
                InviteReply::Created { invite } => match invite {
                    Invite::Server { code, rest } => {
                        let registration = AuthInvite {
                            id: code.clone(),
                            used: false,
                            claimed_by: None,
                        };
                        InviteStage::Registering {
                            invite: Invite::Server { code, rest },
                            registration,
                        }
                    },
                    Invite::Group { code, rest } => InviteStage::Finished {
                        outcome: Ok(Invite::Group { code, rest }),
                    },
                },
                InviteReply::Refused { error } => fail(error),
                _ => fail(Error::InternalError),
            },
            InviteStage::Registering { invite, .. } => match reply {
                InviteReply::Done => InviteStage::Finished { outcome: Ok(invite) },
                _ => fail(Error::InternalError),
            },
            InviteStage::Finished { outcome } => InviteStage::Finished { outcome },
        }
    }
}

/// An invite to a server is handed out only once the registration of accounts knows it.
pub proof fn law_server_invites_can_register<I>(
    stage: InviteStage<I>,
    reply: InviteReply<I>,
    next: InviteStage<I>,
)
    requires
        invite_follows(stage, reply, next),
        !(stage is Finished),
    ensures
        next matches InviteStage::Finished { outcome } && outcome matches Ok(invite) && invite is
            Server ==> stage is Registering && reply is Done,
{
}

/// Whether the replies to the posts of a forum may be counted for a caller.
pub fn forum_reply_counts(permissions: ChannelPermissions) -> (result: Result<()>)
    ensures
        result is Ok <==> permissions.read_message_history,
        result matches Err(error) ==> is_missing_permission(error, "ReadMessageHistory"@),
{
    if permissions.read_message_history {
        Ok(())
    } else {
        Err(missing_permission("ReadMessageHistory"))
    }
}

/// Bots cannot invite; everybody else gets to the first stage.
pub proof fn law_bots_cannot_invite<I>(user: &User, stage: InviteStage<I>)
    requires
        call_ensures(create_invite::<I>, (user,), stage),
    ensures
        user.bot ==> stage is Finished && stage->outcome is Err && stage->outcome->Err_0 is IsBot,
        !user.bot ==> stage is Resolving,
{
}

/// An invite is created exactly for those that may invite others to the channel; the others are
/// told which permission they lack, or why the channel was not found.
pub proof fn law_inviting_takes_a_permission<I>(
    stage: InviteStage<I>,
    reply: InviteReply<I>,
    next: InviteStage<I>,
)
    requires
        call_ensures(InviteStage::<I>::advance, (stage, reply), next),
        stage is Resolving,
    ensures
        next is Creating <==> reply is Channel && reply->permissions.invite_others,
        !(next is Creating) ==> next is Finished && next->outcome is Err,
        reply is Channel && !reply->permissions.invite_others ==> next->outcome->Err_0 is
            MissingPermission && next->outcome->Err_0->permission@ == "InviteOthers"@,
        reply is Refused ==> next->outcome->Err_0 == reply->error,
{
}

/// An invite to a server is made known to the registration of accounts, unused and under its own
/// code; one to a group is handed out at once.
pub proof fn law_invite_to_a_server_is_registered<I>(
    stage: InviteStage<I>,
    reply: InviteReply<I>,
    next: InviteStage<I>,
)
    requires
        call_ensures(InviteStage::<I>::advance, (stage, reply), next),
        stage is Creating,
    ensures
        reply is Created && reply->invite is Server ==> {
            &&& next is Registering
            &&& next->invite == reply->invite
            &&& next->registration.id@ == reply->invite->Server_code@
            &&& !next->registration.used
            &&& next->registration.claimed_by is None
        },
        reply is Created && reply->invite is Group ==> next is Finished && next->outcome == Ok::<
            Invite<I>,
            Error,
        >(reply->invite),
        !(reply is Created) ==> next is Finished && next->outcome is Err,
        reply is Refused ==> next->outcome->Err_0 == reply->error,
{
}

/// An invite that was made known is handed out as it was created; one that could not be is not.
/// What has ended stays as it is.
pub proof fn law_registered_invite_is_handed_out<I>(
    stage: InviteStage<I>,
    reply: InviteReply<I>,
    next: InviteStage<I>,
)
    requires
        call_ensures(InviteStage::<I>::advance, (stage, reply), next),
        stage is Registering || stage is Finished,
    ensures
        stage is Registering && reply is Done ==> next is Finished && next->outcome == Ok::<
            Invite<I>,
            Error,
        >(stage->invite),
        stage is Registering && !(reply is Done) ==> next is Finished && next->outcome == Err::<
            Invite<I>,
            Error,
        >(Error::InternalError),
        stage is Finished ==> next == stage,
{
}

/// Replies are counted exactly for those that may read the history of the channel.
pub proof fn law_counting_takes_a_permission(permissions: ChannelPermissions, result: Result<()>)
    requires
        call_ensures(forum_reply_counts, (permissions,), result),
    ensures
        result is Ok <==> permissions.read_message_history,
        result is Err ==> result->Err_0 is MissingPermission && result->Err_0->permission@
            == "ReadMessageHistory"@,
{
}

} // verus!
