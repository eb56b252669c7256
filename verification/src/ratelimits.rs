use vstd::prelude::*;

use crate::text::{same, texts};

verus! {

/// How a request asks.
#[derive(Debug, Clone, Copy, PartialEq, Eq, Structural)]
pub enum Method {
    Get,
    Put,
    Post,
    Delete,
    Options,
    Head,
    Trace,
    Connect,
    Patch,
}

/// A request, as far as its rate limit goes.
#[derive(Debug, PartialEq, Eq)]
pub struct RoutedRequest {
    /// The segments of the path behind the mount point
    pub segments: Vec<String>,
    pub method: Method,
}

impl RoutedRequest {
    /// The segment at a place.
    pub fn routed_segment(&self, n: usize) -> (segment: Option<&str>)
        ensures
            match segment {
                Some(text) => segment_of(texts(self.segments@), n as int) == Some(text@),
                None => segment_of(texts(self.segments@), n as int) is None,
            },
    {
        if n < self.segments.len() {
            Some(self.segments[n].as_str())
        } else {
            None
        }
    }
}

/// The segment at a place of a path.
pub open spec fn segment_of(path: Seq<Seq<char>>, n: int) -> Option<Seq<char>> {
    if 0 <= n < path.len() {
        Some(path[n])
    } else {
        None
    }
}

/// A path without the version that it may begin with.
pub open spec fn unversioned(path: Seq<Seq<char>>) -> Seq<Seq<char>> {
    if path.len() > 0 && path[0] == "0.8"@ {
        path.drop_first()
    } else {
        path
    }
}

/// The bucket that requests for a path count against: its name, and what it is kept for, one
/// bucket each.
pub open spec fn bucket_of(path: Seq<Seq<char>>, method: Method) -> (
    Seq<char>,
    Option<Seq<char>>,
) {
    let route = unversioned(path);
    let resource = segment_of(route, 1);
    let extra = segment_of(route, 2);
    match segment_of(route, 0) {
        None => ("any"@, None),
        Some(segment) => if segment == "users"@ {
            if method == Method::Patch {
                ("user_edit"@, resource)
            } else if extra == Some("default_avatar"@) {
                ("default_avatar"@, None)
            } else {
                ("users"@, None)
            }
        } else if segment == "bots"@ {
            ("bots"@, None)
        } else if segment == "channels"@ && resource is Some {
            if method == Method::Post && extra == Some("messages"@) {
                ("messaging"@, resource)
            } else {
                ("channels"@, resource)
            }
        } else if segment == "servers"@ && resource is Some {
            if extra == Some("discord-claims"@) {
                ("discord_claims"@, resource)
            } else if extra == Some("members"@) {
                ("server_members"@, resource)
            } else {
                ("servers"@, resource)
            }
        } else if segment == "auth"@ {
            if method == Method::Delete {
                ("auth_delete"@, None)
            } else {
                ("auth"@, None)
            }
        } else if segment == "policy"@ && resource == Some("discord"@) {
            ("discord_identity"@, None)
        } else if segment == "swagger"@ {
            ("swagger"@, None)
        } else if segment == "safety"@ {
            if resource == Some("report"@) {
                ("safety_report"@, Some("report"@))
            } else {
                ("safety"@, None)
            }
        } else {
            ("any"@, None)
        },
    }
}

/// How many requests a bucket takes in the time that it is emptied in.
pub open spec fn limit_of(bucket: Seq<char>) -> u32 {
    if bucket == "user_edit"@ {
        2
    } else if bucket == "users"@ {
        20
    } else if bucket == "bots"@ {
        10
    } else if bucket == "messaging"@ {
        10
    } else if bucket == "channels"@ {
        15
    } else if bucket == "servers"@ {
        5
    } else if bucket == "auth"@ {
        15
    } else if bucket == "auth_delete"@ {
        255
    } else if bucket == "default_avatar"@ {
        255
    } else if bucket == "discord_identity"@ {
        30
    } else if bucket == "discord_claims"@ {
        60
    } else if bucket == "server_members"@ {
        60
    } else if bucket == "swagger"@ {
        100
    } else if bucket == "safety"@ {
        15
    } else if bucket == "safety_report"@ {
        3
    } else {
        20
    }
}

fn is(segment: Option<&str>, text: &str) -> (result: bool)
    ensures
        result == (segment matches Some(found) && found@ == text@),
{
    match segment {
        Some(found) => same(found, text),
        None => false,
    }
}

/// What a bucket is kept for.
pub open spec fn kept_for(resource: Option<&str>) -> Option<Seq<char>> {
    match resource {
        Some(text) => Some(text@),
        None => None,
    }
}

/// The rate limits of the API.
pub struct DeltaRatelimits;

impl DeltaRatelimits {
    /// The bucket that a request counts against.
    pub fn resolve_bucket<'r>(&self, request: &'r RoutedRequest) -> (result: (
        &'r str,
        Option<&'r str>,
    ))
        ensures
            (result.0@, kept_for(result.1)) == bucket_of(
                texts(request.segments@),
                request.method,
            ),
    {
        let ghost path = texts(request.segments@);
        let versioned = is(request.routed_segment(0), "0.8");
        let (segment, resource, extra): (Option<&'r str>, Option<&'r str>, Option<&'r str>) =
            if versioned {
            (
                request.routed_segment(1),
                request.routed_segment(2),
                request.routed_segment(3),
            )
        } else {
            (
                request.routed_segment(0),
                request.routed_segment(1),
                request.routed_segment(2),
            )
        };
        assert(kept_for(segment) == segment_of(unversioned(path), 0));
        assert(kept_for(resource) == segment_of(unversioned(path), 1));
        assert(kept_for(extra) == segment_of(unversioned(path), 2));
        let method = request.method;
        match segment {
            None => ("any", None),
            Some(name) => if same(name, "users") {
                // Editing is counted for each user alone.
                if method == Method::Patch {
                    ("user_edit", resource)
                } else if is(extra, "default_avatar") {
                    ("default_avatar", None)
                } else {
                    ("users", None)
                }
            } else if same(name, "bots") {
                ("bots", None)
            } else if same(name, "channels") && resource.is_some() {
                if method == Method::Post && is(extra, "messages") {
                    ("messaging", resource)
                } else {
                    ("channels", resource)
                }
            } else if same(name, "servers") && resource.is_some() {
                // Confirming claims and managing members are many small calls in a row, so they
                // do not share the few calls that a server allows.
                if is(extra, "discord-claims") {
                    ("discord_claims", resource)
                } else if is(extra, "members") {
                    ("server_members", resource)
                } else {
                    ("servers", resource)
                }
            } else if same(name, "auth") {
                if method == Method::Delete {
                    ("auth_delete", None)
                } else {
                    ("auth", None)
                }
            } else if same(name, "policy") && is(resource, "discord") {
                // Search as you type.
                ("discord_identity", None)
            } else if same(name, "swagger") {
                ("swagger", None)
            } else if same(name, "safety") {
                if is(resource, "report") {
                    ("safety_report", Some("report"))
                } else {
                    ("safety", None)
                }
            } else {
                ("any", None)
            },
        }
    }

    /// How many requests a bucket takes.
    pub fn resolve_bucket_limit(&self, bucket: &str) -> (limit: u32)
        ensures
            limit == limit_of(bucket@),
    {
        if same(bucket, "user_edit") {
            2
        } else if same(bucket, "users") {
            20
        } else if same(bucket, "bots") {
            10
        } else if same(bucket, "messaging") {
            10
        } else if same(bucket, "channels") {
            15
        } else if same(bucket, "servers") {
            5
        } else if same(bucket, "auth") {
            15
        } else if same(bucket, "auth_delete") {
            255
        } else if same(bucket, "default_avatar") {
            255
        } else if same(bucket, "discord_identity") {
            30
        } else if same(bucket, "discord_claims") {
            60
        } else if same(bucket, "server_members") {
            60
        } else if same(bucket, "swagger") {
            100
        } else if same(bucket, "safety") {
            15
        } else if same(bucket, "safety_report") {
            3
        } else {
            20
        }
    }
}

/// A path under the version prefix counts against the same bucket as without it.
pub proof fn law_version_makes_no_difference(path: Seq<Seq<char>>, method: Method)
    requires
        path.len() == 0 || path[0] != "0.8"@,
    ensures
        bucket_of(seq!["0.8"@] + path, method) == bucket_of(path, method),
{
    assert((seq!["0.8"@] + path).drop_first() =~= path);
}

/// Claims and members of a server are counted apart from its other calls, whatever the method,
/// and each server apart from every other.
pub proof fn law_member_work_is_counted_apart(
    server: Seq<char>,
    other: Seq<char>,
    rest: Seq<Seq<char>>,
    tail: Seq<Seq<char>>,
    method: Method,
    other_method: Method,
)
    requires
        rest.len() == 0 || (rest[0] != "discord-claims"@ && rest[0] != "members"@),
    ensures
        ({
            let plain = bucket_of(seq!["servers"@, server] + rest, method);
            let claims = bucket_of(
                seq!["servers"@, server, "discord-claims"@] + tail,
                other_method,
            );
            let members = bucket_of(seq!["servers"@, server, "members"@] + tail, other_method);
            &&& plain == ("servers"@, Some(server))
            &&& claims == ("discord_claims"@, Some(server))
            &&& members == ("server_members"@, Some(server))
            &&& plain.0 != claims.0
            &&& plain.0 != members.0
            &&& claims.0 != members.0
            &&& server != other ==> bucket_of(seq!["servers"@, other] + rest, method) != plain
        }),
{
    reveal_strlit("servers");
    reveal_strlit("0.8");
    reveal_strlit("users");
    reveal_strlit("bots");
    reveal_strlit("channels");
    reveal_strlit("members");
    reveal_strlit("discord-claims");
    reveal_strlit("discord_claims");
    reveal_strlit("server_members");
    assert("servers"@.len() == 7);
    assert("0.8"@.len() == 3);
    assert("users"@.len() == 5);
    assert("bots"@.len() == 4);
    assert("channels"@.len() == 8);
    assert("members"@.len() == 7 && "members"@[0] == 'm');
    assert("discord-claims"@.len() == 14);
    assert("discord_claims"@.len() == 14 && "discord_claims"@[0] == 'd');
    assert("server_members"@.len() == 14 && "server_members"@[0] == 's');
}

/// The words that routes begin with are different ones.
proof fn lemma_routes_differ()
    ensures
        "0.8"@ != "users"@,
        "0.8"@ != "bots"@,
        "0.8"@ != "channels"@,
        "0.8"@ != "servers"@,
        "0.8"@ != "auth"@,
        "0.8"@ != "policy"@,
        "0.8"@ != "swagger"@,
        "0.8"@ != "safety"@,
        "users"@ != "bots"@,
        "users"@ != "channels"@,
        "users"@ != "servers"@,
        "users"@ != "auth"@,
        "users"@ != "policy"@,
        "users"@ != "swagger"@,
        "users"@ != "safety"@,
        "bots"@ != "channels"@,
        "bots"@ != "servers"@,
        "bots"@ != "auth"@,
        "bots"@ != "policy"@,
        "bots"@ != "swagger"@,
        "bots"@ != "safety"@,
        "channels"@ != "servers"@,
        "channels"@ != "auth"@,
        "channels"@ != "policy"@,
        "channels"@ != "swagger"@,
        "channels"@ != "safety"@,
        "servers"@ != "auth"@,
        "servers"@ != "policy"@,
        "servers"@ != "swagger"@,
        "servers"@ != "safety"@,
        "auth"@ != "policy"@,
        "auth"@ != "swagger"@,
        "auth"@ != "safety"@,
        "policy"@ != "swagger"@,
        "policy"@ != "safety"@,
        "swagger"@ != "safety"@,
        "discord-claims"@ != "members"@,
{
    reveal_strlit("0.8");
    reveal_strlit("users");
    reveal_strlit("bots");
    reveal_strlit("channels");
    reveal_strlit("servers");
    reveal_strlit("auth");
    reveal_strlit("policy");
    reveal_strlit("swagger");
    reveal_strlit("safety");
    reveal_strlit("discord-claims");
    reveal_strlit("members");
    assert("0.8"@.len() == 3);
    assert("users"@.len() == 5);
    assert("bots"@.len() == 4);
    assert("channels"@.len() == 8);
    assert("servers"@.len() == 7);
    assert("auth"@.len() == 4);
    assert("policy"@.len() == 6);
    assert("swagger"@.len() == 7);
    assert("safety"@.len() == 6);
    assert("discord-claims"@.len() == 14);
    assert("members"@.len() == 7);
    assert("bots"@[0] == 'b');
    assert("auth"@[0] == 'a');
    assert("servers"@[1] == 'e');
    assert("swagger"@[1] == 'w');
    assert("servers"@[0] == 's');
    assert("members"@[0] == 'm');
    assert("policy"@[0] == 'p');
    assert("safety"@[0] == 's');
    assert("swagger"@[0] == 's');
}

/// Requests on a channel count for that channel alone. To post a message is counted apart, and
/// nothing else is: not what is done to a message, and not what is read.
pub proof fn law_channels_are_counted_each<'r>(
    request: &'r RoutedRequest,
    result: (&'r str, Option<&'r str>),
)
    requires
        call_ensures(DeltaRatelimits::resolve_bucket, (&DeltaRatelimits, request), result),
        request.segments@.len() >= 1,
        request.segments@[0]@ == "channels"@,
    ensures
        request.segments@.len() == 1 ==> result.0@ == "any"@ && result.1 is None,
        request.segments@.len() >= 2 ==> {
            &&& result.1 matches Some(id) && id@ == request.segments@[1]@
            &&& result.0@ == if request.method == Method::Post && request.segments@.len() >= 3
                && request.segments@[2]@ == "messages"@ {
                "messaging"@
            } else {
                "channels"@
            }
        },
{
    lemma_routes_differ();
    let path = texts(request.segments@);
    assert(path.len() == request.segments@.len());
    assert forall|i: int| 0 <= i < path.len() implies #[trigger] path[i]
        == request.segments@[i]@ by {}
}

/// Requests on a server count for that server alone; its claims and its members are counted
/// apart, whatever is done to them.
pub proof fn law_servers_are_counted_each<'r>(
    request: &'r RoutedRequest,
    result: (&'r str, Option<&'r str>),
)
    requires
        call_ensures(DeltaRatelimits::resolve_bucket, (&DeltaRatelimits, request), result),
        request.segments@.len() >= 1,
        request.segments@[0]@ == "servers"@,
    ensures
        request.segments@.len() == 1 ==> result.0@ == "any"@ && result.1 is None,
        request.segments@.len() >= 2 ==> {
            &&& result.1 matches Some(id) && id@ == request.segments@[1]@
            &&& request.segments@.len() == 2 ==> result.0@ == "servers"@
            &&& request.segments@.len() >= 3 ==> {
                let what = request.segments@[2]@;
                &&& what == "discord-claims"@ ==> result.0@ == "discord_claims"@
                &&& what == "members"@ ==> result.0@ == "server_members"@
                &&& what != "discord-claims"@ && what != "members"@ ==> result.0@ == "servers"@
            }
        },
{
    lemma_routes_differ();
    let path = texts(request.segments@);
    assert(path.len() == request.segments@.len());
    assert forall|i: int| 0 <= i < path.len() implies #[trigger] path[i]
        == request.segments@[i]@ by {}
}

/// To edit a user counts for that user alone, whatever part of them; other requests on users count
/// together, but for the avatars that are made up for them.
pub proof fn law_user_edits_are_counted_each<'r>(
    request: &'r RoutedRequest,
    result: (&'r str, Option<&'r str>),
)
    requires
        call_ensures(DeltaRatelimits::resolve_bucket, (&DeltaRatelimits, request), result),
        request.segments@.len() >= 1,
        request.segments@[0]@ == "users"@,
    ensures
        request.method == Method::Patch ==> {
            &&& result.0@ == "user_edit"@
            &&& request.segments@.len() == 1 ==> result.1 is None
            &&& request.segments@.len() >= 2 ==> (result.1 matches Some(id) && id@
                == request.segments@[1]@)
        },
        request.method != Method::Patch ==> {
            &&& result.1 is None
            &&& result.0@ == if request.segments@.len() >= 3 && request.segments@[2]@
                == "default_avatar"@ {
                "default_avatar"@
            } else {
                "users"@
            }
        },
{
    lemma_routes_differ();
    let path = texts(request.segments@);
    assert(path.len() == request.segments@.len());
    assert forall|i: int| 0 <= i < path.len() implies #[trigger] path[i]
        == request.segments@[i]@ by {}
}

/// Logging out is counted apart from logging in; neither is kept for anything in particular.
pub proof fn law_logging_out_is_counted_apart<'r>(
    request: &'r RoutedRequest,
    result: (&'r str, Option<&'r str>),
)
    requires
        call_ensures(DeltaRatelimits::resolve_bucket, (&DeltaRatelimits, request), result),
        request.segments@.len() >= 1,
        request.segments@[0]@ == "auth"@,
    ensures
        result.1 is None,
        request.method == Method::Delete ==> result.0@ == "auth_delete"@,
        request.method != Method::Delete ==> result.0@ == "auth"@,
{
    lemma_routes_differ();
    let path = texts(request.segments@);
    assert(path.len() == request.segments@.len());
    assert forall|i: int| 0 <= i < path.len() implies #[trigger] path[i]
        == request.segments@[i]@ by {}
}

/// A report is counted apart from the rest of what is done for safety.
pub proof fn law_reports_are_counted_apart<'r>(
    request: &'r RoutedRequest,
    result: (&'r str, Option<&'r str>),
)
    requires
        call_ensures(DeltaRatelimits::resolve_bucket, (&DeltaRatelimits, request), result),
        request.segments@.len() >= 1,
        request.segments@[0]@ == "safety"@,
    ensures
        request.segments@.len() >= 2 && request.segments@[1]@ == "report"@ ==> result.0@
            == "safety_report"@ && (result.1 matches Some(kept) && kept@ == "report"@),
        request.segments@.len() == 1 || request.segments@[1]@ != "report"@ ==> result.0@
            == "safety"@ && result.1 is None,
{
    lemma_routes_differ();
    let path = texts(request.segments@);
    assert(path.len() == request.segments@.len());
    assert forall|i: int| 0 <= i < path.len() implies #[trigger] path[i]
        == request.segments@[i]@ by {}
}

/// Finding one's Discord account is counted apart from the rest of what is done about policies,
/// which is counted with everything else; bots and the documentation have buckets of their own.
pub proof fn law_other_routes_are_counted_together<'r>(
    request: &'r RoutedRequest,
    result: (&'r str, Option<&'r str>),
)
    requires
        call_ensures(DeltaRatelimits::resolve_bucket, (&DeltaRatelimits, request), result),
        request.segments@.len() >= 1 ==> {
            let word = request.segments@[0]@;
            &&& word != "0.8"@
            &&& word != "users"@
            &&& word != "channels"@
            &&& word != "servers"@
            &&& word != "auth"@
            &&& word != "safety"@
        },
    ensures
        result.1 is None,
        result.0@ == if request.segments@.len() == 0 {
            "any"@
        } else if request.segments@[0]@ == "bots"@ {
            "bots"@
        } else if request.segments@[0]@ == "swagger"@ {
            "swagger"@
        } else if request.segments@[0]@ == "policy"@ && request.segments@.len() >= 2
            && request.segments@[1]@ == "discord"@ {
            "discord_identity"@
        } else {
            "any"@
        },
{
    lemma_routes_differ();
    let path = texts(request.segments@);
    assert(path.len() == request.segments@.len());
    assert forall|i: int| 0 <= i < path.len() implies #[trigger] path[i]
        == request.segments@[i]@ by {}
}

/// A request counts against the same bucket with the version before its path and without it.
pub proof fn law_versioned_request_counts_the_same<'r>(
    request: &'r RoutedRequest,
    result: (&'r str, Option<&'r str>),
    versioned: &'r RoutedRequest,
    versioned_result: (&'r str, Option<&'r str>),
)
    requires
        call_ensures(DeltaRatelimits::resolve_bucket, (&DeltaRatelimits, request), result),
        call_ensures(
            DeltaRatelimits::resolve_bucket,
            (&DeltaRatelimits, versioned),
            versioned_result,
        ),
        versioned.method == request.method,
        versioned.segments@.len() == request.segments@.len() + 1,
        versioned.segments@[0]@ == "0.8"@,
        forall|i: int|
            0 <= i < request.segments@.len() ==> versioned.segments@[i + 1]@ == (
            #[trigger] request.segments@[i])@,
        request.segments@.len() == 0 || request.segments@[0]@ != "0.8"@,
    ensures
        versioned_result.0@ == result.0@,
        versioned_result.1 is Some == result.1 is Some,
        result.1 matches Some(kept) ==> versioned_result.1->0@ == kept@,
{
    let path = texts(request.segments@);
    let long = texts(versioned.segments@);
    assert forall|i: int| 0 <= i < path.len() implies long[i + 1] == #[trigger] path[i] by {
        assert(path[i] == request.segments@[i]@);
        assert(long[i + 1] == versioned.segments@[i + 1]@);
    }
    assert(long.drop_first() =~= path);
    assert(long[0] == "0.8"@);
    assert(path.len() > 0 ==> path[0] == request.segments@[0]@);
    assert(unversioned(long) == path && unversioned(path) == path);
}

/// How many requests each bucket takes; a bucket of any other name takes twenty.
pub proof fn law_buckets_take_so_many(bucket: &str, limit: u32)
    requires
        call_ensures(DeltaRatelimits::resolve_bucket_limit, (&DeltaRatelimits, bucket), limit),
    ensures
        bucket@ == "user_edit"@ ==> limit == 2,
        bucket@ == "users"@ ==> limit == 20,
        bucket@ == "bots"@ ==> limit == 10,
        bucket@ == "messaging"@ ==> limit == 10,
        bucket@ == "channels"@ ==> limit == 15,
        bucket@ == "servers"@ ==> limit == 5,
        bucket@ == "auth"@ ==> limit == 15,
        bucket@ == "auth_delete"@ ==> limit == 255,
        bucket@ == "default_avatar"@ ==> limit == 255,
        bucket@ == "discord_identity"@ ==> limit == 30,
        bucket@ == "discord_claims"@ ==> limit == 60,
        bucket@ == "server_members"@ ==> limit == 60,
        bucket@ == "swagger"@ ==> limit == 100,
        bucket@ == "safety"@ ==> limit == 15,
        bucket@ == "safety_report"@ ==> limit == 3,
        bucket@ != "user_edit"@ && bucket@ != "users"@ && bucket@ != "bots"@
            && bucket@ != "messaging"@ && bucket@ != "channels"@ && bucket@ != "servers"@
            && bucket@ != "auth"@ && bucket@ != "auth_delete"@ && bucket@ != "default_avatar"@
            && bucket@ != "discord_identity"@ && bucket@ != "discord_claims"@
            && bucket@ != "server_members"@ && bucket@ != "swagger"@ && bucket@ != "safety"@
            && bucket@ != "safety_report"@ ==> limit == 20,
{
    reveal_strlit("user_edit");
    reveal_strlit("users");
    reveal_strlit("bots");
    reveal_strlit("messaging");
    reveal_strlit("channels");
    reveal_strlit("servers");
    reveal_strlit("auth");
    reveal_strlit("auth_delete");
    reveal_strlit("default_avatar");
    reveal_strlit("discord_identity");
    reveal_strlit("discord_claims");
    reveal_strlit("server_members");
    reveal_strlit("swagger");
    reveal_strlit("safety");
    reveal_strlit("safety_report");
    assert("user_edit"@.len() == 9);
    assert("users"@.len() == 5);
    assert("bots"@.len() == 4);
    assert("messaging"@.len() == 9);
    assert("channels"@.len() == 8);
    assert("servers"@.len() == 7);
    assert("auth"@.len() == 4);
    assert("auth_delete"@.len() == 11);
    assert("default_avatar"@.len() == 14);
    assert("discord_identity"@.len() == 16);
    assert("discord_claims"@.len() == 14);
    assert("server_members"@.len() == 14);
    assert("swagger"@.len() == 7);
    assert("safety"@.len() == 6);
    assert("safety_report"@.len() == 13);
    assert("user_edit"@[0] == 'u');
    assert("messaging"@[0] == 'm');
    assert("bots"@[0] == 'b');
    assert("auth"@[0] == 'a');
    assert("servers"@[1] == 'e');
    assert("swagger"@[1] == 'w');
    assert("default_avatar"@[1] == 'e');
    assert("discord_claims"@[1] == 'i');
    assert("default_avatar"@[0] == 'd');
    assert("server_members"@[0] == 's');
    assert("discord_claims"@[0] == 'd');
}

/// The segment at a place is the one there, and there is none behind the last.
pub proof fn law_segment_is_at_its_place<'a>(
    request: &'a RoutedRequest,
    n: usize,
    segment: Option<&'a str>,
)
    requires
        call_ensures(RoutedRequest::routed_segment, (request, n), segment),
    ensures
        segment is Some <==> n < request.segments@.len(),
        segment is Some ==> segment->0@ == request.segments@[n as int]@,
{
    let path = texts(request.segments@);
    assert(path.len() == request.segments@.len());
    if n < path.len() {
        assert(path[n as int] == request.segments@[n as int]@);
    }
}

} // verus!
