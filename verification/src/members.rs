use vstd::prelude::*;

use crate::claims::{is_missing_permission, require_manage_server, ServerPermissions};
use crate::error::Result;

verus! {

/// A member of a server, as far as where they came from goes.
#[derive(Debug, PartialEq, Eq)]
pub struct MemberOrigin {
    pub user: String,
    pub invited_by: Option<String>,
    pub invite_code: Option<String>,
}

/// How a member came to be in the server: who invited them, and with which code.
#[derive(Debug, PartialEq, Eq)]
pub struct MemberAttribution {
    pub user: String,
    pub invited_by: Option<String>,
    pub invite_code: Option<String>,
}

/// How an origin is shown.
pub open spec fn attributed(member: MemberOrigin) -> MemberAttribution {
    MemberAttribution {
        user: member.user,
        invited_by: member.invited_by,
        invite_code: member.invite_code,
    }
}

/// How each member came to be in the server. Who vouched for whom is for those that manage it.
pub fn attribution(permissions: ServerPermissions, members: Vec<MemberOrigin>) -> (result: Result<
    Vec<MemberAttribution>,
>)
    ensures
        result is Ok <==> permissions.manage_server,
        result matches Err(error) ==> is_missing_permission(error, "ManageServer"@),
        result matches Ok(list) ==> list@ == members@.map_values(
            |member: MemberOrigin| attributed(member),
        ),
{
    match require_manage_server(permissions) {
        Ok(()) => {},
        Err(error) => {
            return Err(error);
        },
    }
    let ghost all = members@;
    let mut list: Vec<MemberAttribution> = Vec::new();
    for member in it: members
        invariant
            it.seq() == all,
            list@.len() == it.index(),
            forall|i: int| 0 <= i < list@.len() ==> #[trigger] list@[i] == attributed(all[i]),
    {
        assert(member == all[it.index()]);
        list.push(
            MemberAttribution {
                user: member.user,
                invited_by: member.invited_by,
                invite_code: member.invite_code,
            },
        );
    }
    assert(list@ =~= all.map_values(|member: MemberOrigin| attributed(member)));
    Ok(list)
}

/// Those that manage a server, and nobody else, are shown every member with who invited them and
/// with which code, in order.
pub proof fn law_managers_see_who_invited_whom(
    permissions: ServerPermissions,
    members: Vec<MemberOrigin>,
    result: Result<Vec<MemberAttribution>>,
    i: int,
)
    requires
        call_ensures(attribution, (permissions, members), result),
    ensures
        result is Ok <==> permissions.manage_server,
        result is Err ==> result->Err_0 is MissingPermission && result->Err_0->permission@
            == "ManageServer"@,
        result is Ok ==> result->Ok_0@.len() == members@.len(),
        result is Ok && 0 <= i < members@.len() ==> result->Ok_0@[i].user@ == members@[i].user@
            && result->Ok_0@[i].invited_by == members@[i].invited_by && result->Ok_0@[i].invite_code
            == members@[i].invite_code,
{
}

} // verus!
