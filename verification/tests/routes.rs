use stoat_policy::channels::{
    create_invite, forum_reply_counts, AuthInvite, ChannelPermissions, Invite, InviteReply,
    InviteStage,
};
use stoat_policy::claims::ServerPermissions;
use stoat_policy::crond::{
    read_call, report_lines, DeletionStage, Request, Sweep, SweepAction, CONFIRMATION,
};
use stoat_policy::erasure::ErasureReport;
use stoat_policy::error::Error;
use stoat_policy::members::{attribution, MemberAttribution, MemberOrigin};
use stoat_policy::ratelimits::{DeltaRatelimits, Method, RoutedRequest};
use stoat_policy::reports::{
    announce_report, report_content, AnnounceReply, AnnounceStage, DataReportContent, Filing,
    Report, ReportCommand, ReportReply, ReportStage, ReportStatus, ReportedContent, SafetyConfig,
};
use stoat_policy::sponsor::{
    check_secret, grant, revoke, DataSponsorRole, RoleChange, SponsorReply, SponsorSecretHeader,
    SponsorStage,
};
use stoat_policy::users::{AbstractUsers, User};
use stoat_policy::reference::ReferenceDb;

fn text(value: &str) -> String {
    value.to_string()
}

fn strings(list: &[&str]) -> Vec<String> {
    list.iter().map(|item| item.to_string()).collect()
}

fn bucket(method: Method, path: &str) -> (String, Option<String>) {
    let segments = path.split('/').filter(|part| !part.is_empty()).map(text).collect();
    let request = RoutedRequest { segments, method };
    let (name, resource) = DeltaRatelimits.resolve_bucket(&request);
    (name.to_string(), resource.map(text))
}

fn expect(method: Method, path: &str, name: &str, resource: Option<&str>) {
    assert_eq!(bucket(method, path), (text(name), resource.map(text)), "{path}");
    assert_eq!(bucket(method, &format!("/0.8{path}")), (text(name), resource.map(text)));
}

#[test]
fn requests_count_against_their_buckets() {
    expect(Method::Patch, "/users/u", "user_edit", Some("u"));
    expect(Method::Patch, "/users", "user_edit", None);
    expect(Method::Get, "/users/u/default_avatar", "default_avatar", None);
    expect(Method::Get, "/users/u", "users", None);
    expect(Method::Post, "/bots/create", "bots", None);
    expect(Method::Post, "/channels/c/messages", "messaging", Some("c"));
    expect(Method::Get, "/channels/c/messages", "channels", Some("c"));
    expect(Method::Get, "/channels", "any", None);
    expect(Method::Put, "/servers/s/discord-claims/1", "discord_claims", Some("s"));
    expect(Method::Patch, "/servers/s/members/u", "server_members", Some("s"));
    expect(Method::Get, "/servers/s", "servers", Some("s"));
    expect(Method::Get, "/servers", "any", None);
    expect(Method::Delete, "/auth/session", "auth_delete", None);
    expect(Method::Post, "/auth/session", "auth", None);
    expect(Method::Get, "/policy/discord/search", "discord_identity", None);
    expect(Method::Get, "/policy/consent", "any", None);
    expect(Method::Get, "/swagger/x", "swagger", None);
    expect(Method::Post, "/safety/report", "safety_report", Some("report"));
    expect(Method::Get, "/safety/strikes", "safety", None);
    expect(Method::Get, "/sync/settings", "any", None);
    expect(Method::Get, "", "any", None);
}

#[test]
fn buckets_have_their_limits() {
    let limits = [
        ("user_edit", 2),
        ("users", 20),
        ("bots", 10),
        ("messaging", 10),
        ("channels", 15),
        ("servers", 5),
        ("auth", 15),
        ("auth_delete", 255),
        ("default_avatar", 255),
        ("discord_identity", 30),
        ("discord_claims", 60),
        ("server_members", 60),
        ("swagger", 100),
        ("safety", 15),
        ("safety_report", 3),
        ("any", 20),
        ("unheard of", 20),
    ];
    for (name, limit) in limits {
        assert_eq!(DeltaRatelimits.resolve_bucket_limit(name), limit, "{name}");
    }
}

fn role() -> DataSponsorRole {
    DataSponsorRole { server_id: text("server"), user_id: text("user"), role_id: text("role") }
}

fn secret(value: Option<&str>) -> SponsorSecretHeader {
    SponsorSecretHeader(value.map(text))
}

#[test]
fn the_secret_has_to_be_configured_and_right() {
    let configured = Some(text("s"));
    assert_eq!(check_secret(&secret(Some("s")), &configured), Ok(()));
    for (header, configured) in [
        (secret(Some("t")), Some(text("s"))),
        (secret(None), Some(text("s"))),
        (secret(Some("s")), None),
        (secret(Some("")), Some(text(""))),
        (secret(None), None),
    ] {
        assert_eq!(check_secret(&header, &configured), Err(Error::InvalidCredentials));
    }
}

fn on_member(change: RoleChange, roles: &[&str]) -> RoleChange {
    let server = SponsorReply::Server { id: text("server"), roles: strings(&["role", "a"]) };
    let change = change.advance(server);
    assert_eq!(
        change.stage,
        SponsorStage::FetchingMember { server_id: text("server"), user_id: text("user") }
    );
    change.advance(SponsorReply::Member { roles: strings(roles) })
}

fn answered(change: RoleChange) -> Vec<String> {
    match change.stage {
        SponsorStage::Finished { outcome } => outcome.unwrap().roles,
        stage => panic!("not answered: {stage:?}"),
    }
}

#[test]
fn a_sponsor_role_is_granted_once() {
    let configured = Some(text("s"));
    let begin = || grant(&secret(Some("s")), &configured, role());
    let change = on_member(begin(), &["a"]);
    assert_eq!(
        change.stage,
        SponsorStage::Updating { roles: strings(&["a", "role"]), remove_field: false }
    );
    assert_eq!(answered(change.advance(SponsorReply::Done)), strings(&["a", "role"]));
    assert_eq!(answered(on_member(begin(), &["role", "a"])), strings(&["role", "a"]));
}

#[test]
fn a_role_that_the_server_lacks_is_not_granted() {
    let configured = Some(text("s"));
    let unknown = || SponsorReply::Server { id: text("server"), roles: strings(&["a"]) };
    let change = grant(&secret(Some("s")), &configured, role()).advance(unknown());
    assert_eq!(change.stage, SponsorStage::Finished { outcome: Err(Error::InvalidRole) });
    let change = revoke(&secret(Some("s")), &configured, role()).advance(unknown());
    assert!(matches!(change.stage, SponsorStage::FetchingMember { .. }));
    let change = grant(&secret(Some("x")), &configured, role());
    assert_eq!(change.stage, SponsorStage::Finished { outcome: Err(Error::InvalidCredentials) });
}

#[test]
fn a_sponsor_role_is_revoked() {
    let configured = Some(text("s"));
    let begin = || revoke(&secret(Some("s")), &configured, role());
    let change = on_member(begin(), &["role", "a", "role"]);
    assert_eq!(
        change.stage,
        SponsorStage::Updating { roles: strings(&["a"]), remove_field: false }
    );
    let change = on_member(begin(), &["role"]);
    assert_eq!(change.stage, SponsorStage::Updating { roles: Vec::new(), remove_field: true });
    assert!(answered(change.advance(SponsorReply::Done)).is_empty());
    assert_eq!(answered(on_member(begin(), &["a"])), strings(&["a"]));
}

#[test]
fn a_lookup_that_fails_ends_a_role_change() {
    let configured = Some(text("s"));
    let change = grant(&secret(Some("s")), &configured, role());
    let change = change.advance(SponsorReply::Refused { error: Error::NotFound });
    assert_eq!(change.stage, SponsorStage::Finished { outcome: Err(Error::NotFound) });
}

fn person(id: &str) -> User {
    User { id: text(id), bot: false }
}

#[test]
fn invites_to_servers_can_be_registered_with() {
    let allowed = ChannelPermissions { invite_others: true, read_message_history: false };
    let stage = create_invite(&person("u")).advance(InviteReply::Channel { permissions: allowed });
    assert_eq!(stage, InviteStage::Creating);
    let invite = Invite::Server { code: text("code"), rest: "server, creator, channel" };
    let stage = stage.advance(InviteReply::Created { invite });
    let registration = AuthInvite { id: text("code"), used: false, claimed_by: None };
    let invite = Invite::Server { code: text("code"), rest: "server, creator, channel" };
    assert_eq!(stage, InviteStage::Registering { invite, registration });
    let stage = stage.advance(InviteReply::Done);
    let expected = Ok(Invite::Server { code: text("code"), rest: "server, creator, channel" });
    assert_eq!(stage, InviteStage::Finished { outcome: expected });
}

#[test]
fn invites_that_do_not_work_are_not_handed_out() {
    let bot = User { id: text("b"), bot: true };
    assert_eq!(create_invite::<()>(&bot), InviteStage::Finished { outcome: Err(Error::IsBot) });
    let denied = ChannelPermissions { invite_others: false, read_message_history: true };
    let stage =
        create_invite::<()>(&person("u")).advance(InviteReply::Channel { permissions: denied });
    let missing = Error::MissingPermission { permission: text("InviteOthers") };
    assert_eq!(stage, InviteStage::Finished { outcome: Err(missing) });
    let registering = InviteStage::Creating
        .advance(InviteReply::Created { invite: Invite::Server { code: text("c"), rest: () } });
    let failed = registering.advance(InviteReply::Refused { error: Error::NotFound });
    assert_eq!(failed, InviteStage::Finished { outcome: Err(Error::InternalError) });
    let group = InviteStage::Creating
        .advance(InviteReply::Created { invite: Invite::Group { code: text("g"), rest: "creator, channel" } });
    let expected = Ok(Invite::Group { code: text("g"), rest: "creator, channel" });
    assert_eq!(group, InviteStage::Finished { outcome: expected });
}

#[test]
fn replies_are_counted_for_readers() {
    let reader = ChannelPermissions { invite_others: false, read_message_history: true };
    let stranger = ChannelPermissions { invite_others: true, read_message_history: false };
    assert_eq!(forum_reply_counts(reader), Ok(()));
    let missing = Error::MissingPermission { permission: text("ReadMessageHistory") };
    assert_eq!(forum_reply_counts(stranger), Err(missing));
}

#[test]
fn who_invited_whom_is_for_managers() {
    let members = || {
        vec![MemberOrigin {
            user: text("u"),
            invited_by: Some(text("v")),
            invite_code: Some(text("code")),
        }]
    };
    let verifier = ServerPermissions { manage_server: false, verify_members: true };
    let missing = Error::MissingPermission { permission: text("ManageServer") };
    assert_eq!(attribution(verifier, members()), Err(missing));
    let manager = ServerPermissions { manage_server: true, verify_members: false };
    let expected = MemberAttribution {
        user: text("u"),
        invited_by: Some(text("v")),
        invite_code: Some(text("code")),
    };
    assert_eq!(attribution(manager, members()), Ok(vec![expected]));
}

/// What else is said of what is reported.
type Reason = &'static str;

fn complaint(content: ReportedContent<Reason>, context: &str) -> DataReportContent<Reason> {
    DataReportContent { content, additional_context: text(context) }
}

fn found(owner: &str) -> ReportReply<&'static str> {
    ReportReply::Found { owner_id: text(owner) }
}

#[test]
fn a_report_is_kept_before_anybody_is_told() {
    let content =
        ReportedContent::User { id: text("bad"), message_id: Some(text("m")), rest: "spam" };
    let filing: Filing<&str, Reason> = report_content(person("u"), complaint(content, "why"));
    assert_eq!(filing.stage, ReportStage::Finding);
    let filing = filing.advance(found("bad"));
    assert_eq!(filing.stage, ReportStage::FindingContext { message_id: text("m") });
    let filing = filing.advance(found("bad"));
    assert_eq!(filing.stage, ReportStage::Securing { with_context: true });
    let secured = ReportReply::Secured { snapshot: "user", files: strings(&["f1"]) };
    let filing = filing.advance(secured);
    let secured = ReportReply::Secured { snapshot: "message", files: strings(&["f2"]) };
    let mut filing = filing.advance(secured);
    let ReportStage::Filing { commands } = &filing.stage else { panic!("to be filed") };
    assert_eq!(commands.len(), 7);
    assert_eq!(commands[0], ReportCommand::MarkReported { file: text("f1") });
    assert_eq!(commands[1], ReportCommand::MarkReported { file: text("f2") });
    assert_eq!(commands[4], ReportCommand::InsertReport);
    let report = &filing.report;
    assert_eq!(
        report.content,
        ReportedContent::User { id: text("bad"), message_id: Some(text("m")), rest: "spam" }
    );
    assert_eq!(report.id.len(), 26);
    assert_eq!(report.author_id, "u");
    assert_eq!(report.additional_context, "why");
    assert_eq!(report.status, ReportStatus::Created);
    assert_eq!(report.notes, "");
    for (place, content) in [(2, "user"), (3, "message")] {
        let ReportCommand::InsertSnapshot { snapshot } = &commands[place] else {
            panic!("a snapshot")
        };
        assert_eq!(snapshot.report_id, report.id);
        assert_eq!(snapshot.content, content);
        assert_ne!(snapshot.id, report.id);
        assert_eq!(snapshot.id.len(), 26);
    }
    assert_eq!(commands[5], ReportCommand::Announce);
    assert_eq!(commands[6], ReportCommand::PublishEvent);
    for _ in 0..5 {
        filing = filing.advance(ReportReply::Done);
    }
    // What cannot be announced is reported all the same.
    filing = filing.advance(ReportReply::Refused { error: Error::NotFound });
    filing = filing.advance(ReportReply::Done);
    assert_eq!(filing.stage, ReportStage::Finished { outcome: Ok(()) });
}

#[test]
fn a_message_that_is_gone_is_left_out() {
    let content =
        ReportedContent::User { id: text("bad"), message_id: Some(text("m")), rest: "spam" };
    let filing: Filing<&str, Reason> = report_content(person("u"), complaint(content, ""));
    let filing = filing
        .advance(found("bad"))
        .advance(ReportReply::Refused { error: Error::NotFound });
    assert_eq!(filing.stage, ReportStage::Securing { with_context: false });
    let filing = filing.advance(ReportReply::Secured { snapshot: "user", files: Vec::new() });
    assert!(matches!(&filing.stage, ReportStage::Filing { commands } if commands.len() == 4));
}

fn dismissal(filing: Filing<&str, Reason>) -> Error {
    match filing.stage {
        ReportStage::Finished { outcome } => outcome.unwrap_err(),
        stage => panic!("not dismissed: {stage:?}"),
    }
}

#[test]
fn some_reports_are_refused() {
    let message = || ReportedContent::Message { id: text("m"), rest: "" };
    let long = "ä".repeat(1001);
    let refused = dismissal(report_content(person("u"), complaint(message(), &long)));
    let Error::FailedValidation { error } = refused else { panic!("too long") };
    assert!(error.contains("additional_context"));
    assert!(error.contains("1000"));
    let fits = report_content::<&str, Reason>(person("u"), complaint(message(), &"ä".repeat(1000)));
    assert_eq!(fits.stage, ReportStage::Finding);

    let bot = User { id: text("b"), bot: true };
    assert_eq!(dismissal(report_content(bot, complaint(message(), ""))), Error::IsBot);
    let own = report_content(person("u"), complaint(message(), "")).advance(found("u"));
    assert_eq!(dismissal(own), Error::CannotReportYourself);
    let server = ReportedContent::Server { id: text("s"), rest: "" };
    let own = report_content(person("u"), complaint(server, "")).advance(found("u"));
    assert_eq!(dismissal(own), Error::CannotReportYourself);
    let gone = report_content(person("u"), complaint(message(), ""))
        .advance(ReportReply::Refused { error: Error::NotFound });
    assert_eq!(dismissal(gone), Error::NotFound);
    let unkept = report_content(person("u"), complaint(message(), ""))
        .advance(found("x"))
        .advance(ReportReply::Secured { snapshot: "s", files: strings(&["f"]) })
        .advance(ReportReply::Refused { error: Error::InternalError });
    assert_eq!(dismissal(unkept), Error::InternalError);
}

fn report(content: ReportedContent<Reason>, context: &str) -> Report<Reason> {
    Report {
        id: text("R"),
        author_id: text("u"),
        content,
        additional_context: text(context),
        status: ReportStatus::Created,
        notes: String::new(),
    }
}

fn safety(channel: &str, roles: &[&str]) -> SafetyConfig {
    SafetyConfig { reports_channel: text(channel), reports_mention_roles: strings(roles) }
}

#[test]
fn moderators_are_told_but_not_the_reporter() {
    let kept = report(ReportedContent::Message { id: text("M"), rest: "" }, "it is bad");
    let announcing = announce_report(safety("C", &["mods"]), &kept, person("u"));
    assert_eq!(announcing.stage, AnnounceStage::FetchingChannel { channel_id: text("C") });
    let announcing = announcing.advance(AnnounceReply::Channel { server_id: Some(text("S")) });
    assert_eq!(announcing.stage, AnnounceStage::FetchingMembers { server_id: text("S") });
    let ids = strings(&["a", "u", "b"]);
    let announcing = announcing.advance(AnnounceReply::Members { ids });
    let AnnounceStage::Sending { announcement } = &announcing.stage else { panic!("to be sent") };
    assert_eq!(
        announcement.content,
        "🚩 New message report\n\nReported by: <@u>\nTarget message id: `M`\nReport id: `R`\n\n\
         Context: it is bad"
    );
    assert_eq!(announcement.mentions, Some(strings(&["a", "b"])));
    assert_eq!(announcement.role_mentions, Some(strings(&["mods"])));
    assert_eq!(announcing.advance(AnnounceReply::Failed).stage, AnnounceStage::Finished);
}

#[test]
fn announcements_do_without_what_is_missing() {
    let kept = report(ReportedContent::Server { id: text("S1"), rest: "" }, "");
    let off = announce_report(safety("", &["mods"]), &kept, person("u"));
    assert_eq!(off.stage, AnnounceStage::Finished);
    let lost = announce_report(safety("C", &[]), &kept, person("u"));
    assert_eq!(lost.advance(AnnounceReply::Failed).stage, AnnounceStage::Finished);

    let plain = announce_report(safety("C", &[]), &kept, person("u"))
        .advance(AnnounceReply::Channel { server_id: Some(text("S")) });
    let AnnounceStage::Sending { announcement } = plain.stage else { panic!("to be sent") };
    assert_eq!(
        announcement.content,
        "🚩 New server report\n\nReported by: <@u>\nTarget server id: `S1`\nReport id: `R`"
    );
    assert_eq!(announcement.mentions, None);
    assert_eq!(announcement.role_mentions, None);

    let user = report(ReportedContent::User { id: text("bad"), message_id: None, rest: "" }, "");
    let unpinged = announce_report(safety("C", &["mods"]), &user, person("u"))
        .advance(AnnounceReply::Channel { server_id: Some(text("S")) })
        .advance(AnnounceReply::Failed);
    let AnnounceStage::Sending { announcement } = unpinged.stage else { panic!("to be sent") };
    assert!(announcement.content.starts_with("🚩 New user report"));
    assert_eq!(announcement.mentions, None);
    assert_eq!(announcement.role_mentions, Some(strings(&["mods"])));
}

#[test]
fn one_bad_account_does_not_stall_the_others() {
    let mut sweep = Sweep::listed(Some(vec!["a", "b"]));
    assert_eq!(sweep.task(), SweepAction::Erase { account: "a" });
    assert_eq!(sweep.task(), SweepAction::Erase { account: "b" });
    assert_eq!(sweep.task(), SweepAction::Sleep { seconds: 300 });
    let mut unlisted: Sweep<&str> = Sweep::listed(None);
    assert_eq!(unlisted.task(), SweepAction::Sleep { seconds: 300 });
}

#[test]
fn accounts_are_marked_after_their_users() {
    let mut stage = DeletionStage::Listing;
    let mut seen = Vec::new();
    for _ in 0..7 {
        stage = stage.task(true, 2);
        seen.push(stage);
    }
    assert_eq!(
        seen,
        vec![
            DeletionStage::FetchingUser { at: 0 },
            DeletionStage::DeletingUser { at: 0 },
            DeletionStage::Marking { at: 0 },
            DeletionStage::FetchingUser { at: 1 },
            DeletionStage::DeletingUser { at: 1 },
            DeletionStage::Marking { at: 1 },
            DeletionStage::Sleeping,
        ]
    );
    assert_eq!(stage.task(true, 0), DeletionStage::Listing);
    assert_eq!(DeletionStage::Listing.task(true, 0), DeletionStage::Sleeping);
    let failed = DeletionStage::DeletingUser { at: 1 }.task(false, 2);
    assert_eq!(failed, DeletionStage::Aborted);
}

#[test]
fn erasing_by_hand_takes_a_confirmation() {
    let usage = strings(&[
        "usage: erase-account <account-id> --i-understand-this-is-irreversible",
    ]);
    assert_eq!(read_call(&strings(&["erase-account"])), Request::Refused { lines: usage });
    let lines = strings(&[
        "Refusing to erase U without --i-understand-this-is-irreversible",
        "This permanently removes their messages, their uploads and their account.",
    ]);
    assert_eq!(
        read_call(&strings(&["erase-account", "U", "--yes"])),
        Request::Refused { lines }
    );
    assert_eq!(
        read_call(&strings(&["erase-account", "U", CONFIRMATION])),
        Request::Erase { account_id: text("U") }
    );
}

#[test]
fn the_operator_is_told_what_was_erased() {
    let mut report = ErasureReport::default();
    report.user_id = text("U");
    report.policy_version = text("1");
    report.messages_deleted = 120;
    let lines = report_lines(&report);
    assert_eq!(lines.len(), 16);
    assert_eq!(lines[0], "Erased account U");
    assert_eq!(lines[1], "  policy version           1");
    assert_eq!(lines[3], "  messages deleted         120");
    assert_eq!(lines[4], "  channels deleted         0");
    report.attachments_withheld_reported = 2;
    let lines = report_lines(&report);
    assert_eq!(lines.len(), 19);
    assert_eq!(lines[12], "  withheld (reported)      2");
    assert_eq!(
        lines[17],
        "WARNING: 2 attachment(s) were withheld because they are flagged for a"
    );
}

#[test]
fn users_are_found_by_their_ids() {
    let mut db = ReferenceDb::new();
    db.users.put(person("u"));
    assert_eq!(db.fetch_user("u"), Ok(person("u")));
    assert_eq!(db.fetch_user("v"), Err(Error::NotFound));
}
