use vstd::prelude::*;

use crate::erasure::{
    about_a_user, about_user, advanced, authored, command_of, erasable_attachments, fits, first,
    owned_attachments, private_to, withheld_attachments, PassView, ReplyView, ReportView, Stage,
    ERASURE_POLICY_VERSION, SYSTEM_USER_ID,
};
use crate::model::{
    altered, answers, apart_from, changed, deletion_mark, executed, lists_ids, meets, meets_all,
    picked, picks, replaced, shows, shows_one_of, values, with_changed, without, without_one,
    Cleanup, Collection, Database, Document,
};
use crate::query::{
    meeting, reads, reads_one_of, ChangeView, ConditionView, FilterView, TestView, ValueView,
};

verus! {

/// How many stages lie before a stage when none is skipped.
pub open spec fn rank(stage: Stage) -> nat {
    match stage {
        Stage::ListMessages => 0,
        Stage::CountWithheld => 1,
        Stage::CountMarked => 2,
        Stage::MarkAttachments => 3,
        Stage::DeleteAuthored => 4,
        Stage::DeleteAbout => 5,
        Stage::ScrubBy => 6,
        Stage::ScrubFrom => 7,
        Stage::ScrubTo => 8,
        Stage::ListPrivate => 9,
        Stage::DeletePrivateMessages => 10,
        Stage::DeletePrivateObjects => 11,
        Stage::DeletePrivate => 12,
        Stage::LeaveGroups => 13,
        Stage::DeleteMemberships => 14,
        Stage::DeleteUnreads => 15,
        Stage::DeleteInvites => 16,
        Stage::ReleaseInvites => 17,
        Stage::ListBots => 18,
        Stage::DeleteBotUsers => 19,
        Stage::DeleteBotSessions => 20,
        Stage::DeleteBots => 21,
        Stage::PullRelations => 22,
        Stage::DeleteSessions => 23,
        Stage::DeleteUser => 24,
        Stage::Finished => 25,
    }
}

/// The database and the pass after some replies were taken up, each being the answer to the
/// command that the pass asked for.
pub open spec fn ran(
    database: Database,
    pass: PassView,
    replies: Seq<ReplyView>,
    cleanup: Cleanup,
) -> (Database, PassView)
    decreases replies.len(),
{
    if replies.len() == 0 || command_of(pass) is None {
        (database, pass)
    } else {
        ran(
            executed(database, command_of(pass)->0, cleanup),
            advanced(pass, replies[0]),
            replies.drop_first(),
            cleanup,
        )
    }
}

/// Whether each of some replies tells the truth about the command that it answers.
pub open spec fn truthful(
    database: Database,
    pass: PassView,
    replies: Seq<ReplyView>,
    cleanup: Cleanup,
) -> bool
    decreases replies.len(),
{
    replies.len() == 0 || command_of(pass) is None || {
        &&& answers(database, command_of(pass)->0, replies[0])
        &&& fits(pass, replies[0])
        &&& truthful(
            executed(database, command_of(pass)->0, cleanup),
            advanced(pass, replies[0]),
            replies.drop_first(),
            cleanup,
        )
    }
}

/// Whether the deletion of channel objects only removes documents, and only invites, unread
/// markers and webhooks.
pub open spec fn spares(cleanup: Cleanup) -> bool {
    &&& forall|channels: Seq<Seq<char>>, name: Seq<char>, collection: Collection|
        (#[trigger] cleanup(channels, name, collection)).submap_of(collection)
    &&& forall|channels: Seq<Seq<char>>, name: Seq<char>, collection: Collection|
        name != "channel_invites"@ && name != "channel_unreads"@ && name != "webhooks"@
            ==> #[trigger] cleanup(channels, name, collection) == collection
}

/// Whether every document of the collections whose ids a pass lists has an id, and no two
/// users share one, nor two channels.
pub open spec fn identified(database: Database) -> bool {
    &&& forall|key: int| #[trigger]
        database("bots"@).contains_key(key) ==> has_some_id(database("bots"@)[key])
    &&& forall|key: int| #[trigger]
        database("channels"@).contains_key(key) ==> has_some_id(database("channels"@)[key])
    &&& forall|a: int, b: int, id: Seq<char>|
        #![trigger shows(database("users"@)[a], "_id"@, id), shows(database("users"@)[b], "_id"@, id)]
        database("users"@).contains_key(a) && database("users"@).contains_key(b) && shows(
            database("users"@)[a],
            "_id"@,
            id,
        ) && shows(database("users"@)[b], "_id"@, id) ==> a == b
    &&& forall|a: int, b: int, id: Seq<char>|
        #![trigger shows(database("channels"@)[a], "_id"@, id), shows(database("channels"@)[b], "_id"@, id)]
        database("channels"@).contains_key(a) && database("channels"@).contains_key(b) && shows(
            database("channels"@)[a],
            "_id"@,
            id,
        ) && shows(database("channels"@)[b], "_id"@, id) ==> a == b
}

pub open spec fn has_some_id(document: Document) -> bool {
    exists|id: Seq<char>| shows(document, "_id"@, id)
}

/// A message with the user replaced by the system sentinel in one field.
pub open spec fn scrubbed_in(message: Document, field: Seq<char>, user_id: Seq<char>) -> Document {
    if shows(message, field, user_id) {
        changed(
            message,
            ChangeView::Write { path: field, value: ValueView::Text(SYSTEM_USER_ID@) },
        )
    } else {
        message
    }
}

/// A message with the user replaced by the system sentinel wherever it names them as the actor.
pub open spec fn scrubbed(message: Document, user_id: Seq<char>) -> Document {
    scrubbed_in(
        scrubbed_in(scrubbed_in(message, "system.by"@, user_id), "system.from"@, user_id),
        "system.to"@,
        user_id,
    )
}

/// What a collection of messages holds at a stage of a pass.
pub open spec fn messages_at(collection: Collection, pass: PassView) -> Collection {
    let n = rank(pass.stage);
    let u = pass.user_id;
    Map::new(
        |key: int|
            collection.contains_key(key) && !(n > 4 && shows(collection[key], "author"@, u)) && !(n
                > 5 && picks(about_user(u), collection[key])) && !(n > 10 && shows_one_of(
                collection[key],
                "channel"@,
                pass.private_channels,
            )),
        |key: int|
            {
                let d0 = collection[key];
                let d1 = if n > 6 {
                    scrubbed_in(d0, "system.by"@, u)
                } else {
                    d0
                };
                let d2 = if n > 7 {
                    scrubbed_in(d1, "system.from"@, u)
                } else {
                    d1
                };
                if n > 8 {
                    scrubbed_in(d2, "system.to"@, u)
                } else {
                    d2
                }
            },
    )
}

/// Attachments that belong to the user.
pub open spec fn owned(pass: PassView) -> FilterView {
    FilterView { all: Seq::empty(), any: owned_attachments(pass.user_id, pass.message_ids) }
}

pub open spec fn attachments_at(collection: Collection, pass: PassView) -> Collection {
    if rank(pass.stage) > 3 {
        with_changed(collection, owned(pass), deletion_mark())
    } else {
        collection
    }
}

/// Whether a channel is a group with the user in it.
pub open spec fn group_with(channel: Document, user_id: Seq<char>) -> bool {
    shows(channel, "channel_type"@, "Group"@) && shows(channel, "recipients"@, user_id)
}

/// A group after the user has left it.
pub open spec fn departed(channel: Document, user_id: Seq<char>) -> Document {
    if group_with(channel, user_id) {
        changed(channel, ChangeView::Pull { path: "recipients"@, item: user_id })
    } else {
        channel
    }
}

pub open spec fn channels_at(collection: Collection, pass: PassView) -> Collection {
    let n = rank(pass.stage);
    Map::new(
        |key: int|
            collection.contains_key(key) && !(n > 12 && shows_one_of(
                collection[key],
                "_id"@,
                pass.private_channels,
            )),
        |key: int|
            if n > 13 {
                departed(collection[key], pass.user_id)
            } else {
                collection[key]
            },
    )
}

/// A collection from which the documents that read the user at a path are gone once `done`.
pub open spec fn dropped_at(
    collection: Collection,
    path: Seq<char>,
    user_id: Seq<char>,
    done: bool,
) -> Collection {
    if done {
        without(collection, meeting(seq![reads(path, user_id)]))
    } else {
        collection
    }
}

/// A collection after the objects of private channels were deleted from it.
pub open spec fn cleaned_at(
    collection: Collection,
    name: Seq<char>,
    pass: PassView,
    cleanup: Cleanup,
) -> Collection {
    if rank(pass.stage) > 11 && pass.private_channels.len() > 0 {
        cleanup(pass.private_channels, name, collection)
    } else {
        collection
    }
}

pub open spec fn invites_at(collection: Collection, pass: PassView) -> Collection {
    if rank(pass.stage) > 17 {
        with_changed(
            collection,
            meeting(seq![reads("claimed_by"@, pass.user_id)]),
            ChangeView::Remove { path: "claimed_by"@ },
        )
    } else {
        collection
    }
}

/// Whether a user lists another among their relations.
pub open spec fn relates_to(user: Document, user_id: Seq<char>) -> bool {
    &&& user.lists.contains_key("relations"@)
    &&& exists|i: int|
        0 <= i < user.lists["relations"@].len() && (
        #[trigger] user.lists["relations"@][i]).contains_pair("_id"@, user_id)
}

/// A user who no longer lists another among their relations.
pub open spec fn unrelated(user: Document, user_id: Seq<char>) -> Document {
    if relates_to(user, user_id) {
        changed(user, ChangeView::PullElement { path: "relations"@, id: user_id })
    } else {
        user
    }
}

pub open spec fn users_at(collection: Collection, pass: PassView) -> Collection {
    let n = rank(pass.stage);
    Map::new(
        |key: int|
            collection.contains_key(key) && !(n > 19 && shows_one_of(
                collection[key],
                "_id"@,
                pass.bot_ids,
            )) && !(n > 24 && shows(collection[key], "_id"@, pass.user_id)),
        |key: int|
            if n > 22 {
                unrelated(collection[key], pass.user_id)
            } else {
                collection[key]
            },
    )
}

pub open spec fn sessions_at(collection: Collection, pass: PassView) -> Collection {
    let n = rank(pass.stage);
    Map::new(
        |key: int|
            collection.contains_key(key) && !(n > 20 && shows_one_of(
                collection[key],
                "user_id"@,
                pass.bot_ids,
            )) && !(n > 23 && shows(collection[key], "user_id"@, pass.user_id)),
        |key: int| collection[key],
    )
}

/// The database that a pass has made of a database when it has come to its stage.
pub open spec fn reached(database: Database, pass: PassView, cleanup: Cleanup) -> Database {
    let n = rank(pass.stage);
    let u = pass.user_id;
    |name: Seq<char>|
        if name == "messages"@ {
            messages_at(database(name), pass)
        } else if name == "attachments"@ {
            attachments_at(database(name), pass)
        } else if name == "channels"@ {
            channels_at(database(name), pass)
        } else if name == "server_members"@ {
            dropped_at(database(name), "_id.user"@, u, n > 14)
        } else if name == "channel_unreads"@ {
            dropped_at(cleaned_at(database(name), name, pass, cleanup), "_id.user"@, u, n > 15)
        } else if name == "channel_invites"@ {
            dropped_at(cleaned_at(database(name), name, pass, cleanup), "creator"@, u, n > 16)
        } else if name == "invites"@ {
            invites_at(database(name), pass)
        } else if name == "bots"@ {
            dropped_at(database(name), "owner"@, u, n > 21)
        } else if name == "users"@ {
            users_at(database(name), pass)
        } else if name == "sessions"@ {
            sessions_at(database(name), pass)
        } else {
            cleaned_at(database(name), name, pass, cleanup)
        }
}

/// The collections that a pass names are different ones.
proof fn lemma_names_differ()
    ensures
        "messages"@ != "attachments"@,
        "messages"@ != "channels"@,
        "messages"@ != "server_members"@,
        "messages"@ != "channel_unreads"@,
        "messages"@ != "channel_invites"@,
        "messages"@ != "invites"@,
        "messages"@ != "bots"@,
        "messages"@ != "users"@,
        "messages"@ != "sessions"@,
        "messages"@ != "webhooks"@,
        "attachments"@ != "channels"@,
        "attachments"@ != "server_members"@,
        "attachments"@ != "channel_unreads"@,
        "attachments"@ != "channel_invites"@,
        "attachments"@ != "invites"@,
        "attachments"@ != "bots"@,
        "attachments"@ != "users"@,
        "attachments"@ != "sessions"@,
        "attachments"@ != "webhooks"@,
        "channels"@ != "server_members"@,
        "channels"@ != "channel_unreads"@,
        "channels"@ != "channel_invites"@,
        "channels"@ != "invites"@,
        "channels"@ != "bots"@,
        "channels"@ != "users"@,
        "channels"@ != "sessions"@,
        "channels"@ != "webhooks"@,
        "server_members"@ != "channel_unreads"@,
        "server_members"@ != "channel_invites"@,
        "server_members"@ != "invites"@,
        "server_members"@ != "bots"@,
        "server_members"@ != "users"@,
        "server_members"@ != "sessions"@,
        "server_members"@ != "webhooks"@,
        "channel_unreads"@ != "channel_invites"@,
        "channel_unreads"@ != "invites"@,
        "channel_unreads"@ != "bots"@,
        "channel_unreads"@ != "users"@,
        "channel_unreads"@ != "sessions"@,
        "channel_invites"@ != "invites"@,
        "channel_invites"@ != "bots"@,
        "channel_invites"@ != "users"@,
        "channel_invites"@ != "sessions"@,
        "invites"@ != "bots"@,
        "invites"@ != "users"@,
        "invites"@ != "sessions"@,
        "invites"@ != "webhooks"@,
        "bots"@ != "users"@,
        "bots"@ != "sessions"@,
        "bots"@ != "webhooks"@,
        "users"@ != "sessions"@,
        "users"@ != "webhooks"@,
        "sessions"@ != "webhooks"@,
{
    reveal_strlit("messages");
    reveal_strlit("attachments");
    reveal_strlit("channels");
    reveal_strlit("server_members");
    reveal_strlit("channel_unreads");
    reveal_strlit("channel_invites");
    reveal_strlit("invites");
    reveal_strlit("bots");
    reveal_strlit("users");
    reveal_strlit("sessions");
    reveal_strlit("webhooks");
    assert("messages"@.len() == 8);
    assert("attachments"@.len() == 11);
    assert("channels"@.len() == 8);
    assert("server_members"@.len() == 14);
    assert("channel_unreads"@.len() == 15);
    assert("channel_invites"@.len() == 15);
    assert("invites"@.len() == 7);
    assert("bots"@.len() == 4);
    assert("users"@.len() == 5);
    assert("sessions"@.len() == 8);
    assert("webhooks"@.len() == 8);
    assert("messages"@[0] == 'm');
    assert("channels"@[0] == 'c');
    assert("sessions"@[0] == 's');
    assert("webhooks"@[0] == 'w');
    assert("channel_unreads"@[8] == 'u');
    assert("channel_invites"@[8] == 'i');
}

/// The paths that a pass reads or writes in one collection are different ones.
proof fn lemma_paths_differ()
    ensures
        "system.by"@ != "system.from"@,
        "system.by"@ != "system.to"@,
        "system.from"@ != "system.to"@,
        "channel"@ != "system.by"@,
        "channel"@ != "system.from"@,
        "channel"@ != "system.to"@,
        "author"@ != "system.by"@,
        "author"@ != "system.from"@,
        "author"@ != "system.to"@,
        "system.type"@ != "system.by"@,
        "system.type"@ != "system.from"@,
        "system.type"@ != "system.to"@,
        "system.id"@ != "system.by"@,
        "system.id"@ != "system.from"@,
        "system.id"@ != "system.to"@,
        "_id"@ != "system.by"@,
        "_id"@ != "system.from"@,
        "_id"@ != "system.to"@,
        "_id"@ != "recipients"@,
        "channel_type"@ != "recipients"@,
        "user"@ != "recipients"@,
{
    reveal_strlit("system.by");
    reveal_strlit("system.from");
    reveal_strlit("system.to");
    reveal_strlit("system.type");
    reveal_strlit("system.id");
    reveal_strlit("channel");
    reveal_strlit("author");
    reveal_strlit("_id");
    reveal_strlit("user");
    reveal_strlit("recipients");
    reveal_strlit("channel_type");
    assert("system.by"@.len() == 9);
    assert("system.from"@.len() == 11);
    assert("system.to"@.len() == 9);
    assert("system.type"@.len() == 11);
    assert("system.id"@.len() == 9);
    assert("channel"@.len() == 7);
    assert("author"@.len() == 6);
    assert("_id"@.len() == 3);
    assert("user"@.len() == 4);
    assert("recipients"@.len() == 10);
    assert("channel_type"@.len() == 12);
    assert("system.by"@[7] == 'b');
    assert("system.to"@[7] == 't');
    assert("system.id"@[7] == 'i');
    assert("system.from"@[7] == 'f');
    assert("system.type"@[7] == 't');
}

/// What the filters of a pass pick.
pub proof fn lemma_picks_one(path: Seq<char>, text: Seq<char>)
    ensures
        forall|d: Document|
            #![trigger picks(meeting(seq![reads(path, text)]), d)]
            picks(meeting(seq![reads(path, text)]), d) == shows(d, path, text),
{
    assert forall|d: Document|
        #![trigger picks(meeting(seq![reads(path, text)]), d)]
        picks(meeting(seq![reads(path, text)]), d) == shows(d, path, text) by {
        let list = seq![reads(path, text)];
        assert(list[0] == reads(path, text));
        assert(meets(d, list[0]) == shows(d, path, text));
    }
}

proof fn lemma_picks_one_of(path: Seq<char>, list: Seq<Seq<char>>)
    ensures
        forall|d: Document|
            #![trigger picks(meeting(seq![reads_one_of(path, list)]), d)]
            picks(meeting(seq![reads_one_of(path, list)]), d) == shows_one_of(d, path, list),
{
    assert forall|d: Document|
        #![trigger picks(meeting(seq![reads_one_of(path, list)]), d)]
        picks(meeting(seq![reads_one_of(path, list)]), d) == shows_one_of(d, path, list) by {
        let all = seq![reads_one_of(path, list)];
        assert(all[0] == reads_one_of(path, list));
        assert(meets(d, all[0]) == shows_one_of(d, path, list));
    }
}

/// Whether two databases agree outside one collection.
spec fn agree_but(a: Database, b: Database, name: Seq<char>) -> bool {
    forall|other: Seq<char>| other != name ==> #[trigger] a(other) == b(other)
}

proof fn lemma_replaced(a: Database, b: Database, name: Seq<char>, collection: Collection)
    requires
        agree_but(a, b, name),
        collection == b(name),
    ensures
        replaced(a, name, collection) == b,
{
    assert forall|other: Seq<char>| #[trigger] replaced(a, name, collection)(other) == b(other) by {
        assert(other != name ==> a(other) == b(other));
    }
    assert(replaced(a, name, collection) =~= b);
}

proof fn lemma_scrub_keeps(message: Document, user_id: Seq<char>, path: Seq<char>)
    requires
        path != "system.by"@,
        path != "system.from"@,
        path != "system.to"@,
    ensures
        values(scrubbed(message, user_id), path) == values(message, path),
{
}

proof fn lemma_picks_relation(user: Document, user_id: Seq<char>)
    ensures
        picks(
            meeting(
                seq![
                    ConditionView {
                        path: "relations"@,
                        test: TestView::HasElement(seq![("_id"@, user_id)]),
                    },
                ],
            ),
            user,
        ) == relates_to(user, user_id),
{
    let fields = seq![("_id"@, user_id)];
    let condition = ConditionView { path: "relations"@, test: TestView::HasElement(fields) };
    let all = seq![condition];
    assert(all[0] == condition);
    assert(fields[0] == ("_id"@, user_id));
    assert forall|element: Map<Seq<char>, Seq<char>>| #[trigger]
        crate::model::element_reads(element, fields) == element.contains_pair("_id"@, user_id) by {
        if element.contains_pair("_id"@, user_id) {
            assert forall|i: int| 0 <= i < fields.len() implies element.contains_pair(
                (#[trigger] fields[i]).0,
                fields[i].1,
            ) by {}
        } else {
            assert(!element.contains_pair(fields[0].0, fields[0].1));
        }
    }
    assert(meets(user, condition) == relates_to(user, user_id));
}

proof fn lemma_step_scrub(before: Database, goal: Database, field: Seq<char>, user_id: Seq<char>)
    requires
        agree_but(before, goal, "messages"@),
        goal("messages"@) =~= Map::new(
            |key: int| before("messages"@).contains_key(key),
            |key: int| scrubbed_in(before("messages"@)[key], field, user_id),
        ),
    ensures
        replaced(
            before,
            "messages"@,
            with_changed(
                before("messages"@),
                meeting(seq![reads(field, user_id)]),
                ChangeView::Write { path: field, value: ValueView::Text(SYSTEM_USER_ID@) },
            ),
        ) == goal,
{
    lemma_picks_one(field, user_id);
    let c = with_changed(
        before("messages"@),
        meeting(seq![reads(field, user_id)]),
        ChangeView::Write { path: field, value: ValueView::Text(SYSTEM_USER_ID@) },
    );
    assert(c =~= goal("messages"@));
    lemma_replaced(before, goal, "messages"@, c);
}

/// Whether a pass is dealing with private channels only if there are any.
pub open spec fn coherent(pass: PassView) -> bool {
    10 <= rank(pass.stage) <= 12 ==> pass.private_channels.len() > 0
}

/// One step of a pass takes the database that it has reached to the one that it reaches next.
proof fn lemma_step(
    database: Database,
    pass: PassView,
    reply: ReplyView,
    cleanup: Cleanup,
)
    requires
        pass.stage != Stage::Finished,
        coherent(pass),
        spares(cleanup),
        identified(database),
        answers(reached(database, pass, cleanup), command_of(pass)->0, reply),
    ensures
        executed(reached(database, pass, cleanup), command_of(pass)->0, cleanup) == reached(
            database,
            advanced(pass, reply),
            cleanup,
        ),
{
    lemma_names_differ();
    let before = reached(database, pass, cleanup);
    let next = advanced(pass, reply);
    let goal = reached(database, next, cleanup);
    let u = pass.user_id;
    match pass.stage {
        Stage::ListMessages => {
            assert(before =~= goal);
        },
        Stage::CountWithheld | Stage::CountMarked => {
            assert(before =~= goal);
        },
        Stage::MarkAttachments => {
            lemma_replaced(
                before,
                goal,
                "attachments"@,
                with_changed(before("attachments"@), owned(pass), deletion_mark()),
            );
        },
        Stage::DeleteAuthored => {
            lemma_picks_one("author"@, u);
            let c = without(before("messages"@), authored(u));
            assert(c =~= goal("messages"@));
            lemma_replaced(before, goal, "messages"@, c);
        },
        Stage::DeleteAbout => {
            let c = without(before("messages"@), about_user(u));
            assert(c =~= goal("messages"@));
            lemma_replaced(before, goal, "messages"@, c);
        },
        Stage::ScrubBy => {
            lemma_step_scrub(before, goal, "system.by"@, u);
        },
        Stage::ScrubFrom => {
            lemma_step_scrub(before, goal, "system.from"@, u);
        },
        Stage::ScrubTo => {
            lemma_step_scrub(before, goal, "system.to"@, u);
        },
        Stage::ListPrivate => {
            let same = before("messages"@);
            if reply->Ids_0.len() == 0 {
                assert forall|d: Document, path: Seq<char>| !#[trigger] shows_one_of(
                    d,
                    path,
                    reply->Ids_0,
                ) by {}
            }
            assert(before("messages"@) =~= goal("messages"@));
            assert(before("channels"@) =~= goal("channels"@));
            assert(agree_but(before, goal, "messages"@));
            assert(before =~= goal);
        },
        Stage::DeletePrivateMessages => {
            lemma_picks_one_of("channel"@, pass.private_channels);
            lemma_paths_differ();
            let c = without(
                before("messages"@),
                meeting(seq![reads_one_of("channel"@, pass.private_channels)]),
            );
            assert forall|d: Document| #[trigger]
                shows_one_of(scrubbed(d, u), "channel"@, pass.private_channels) == shows_one_of(
                    d,
                    "channel"@,
                    pass.private_channels,
                ) by {
                lemma_scrub_keeps(d, u, "channel"@);
            }
            assert(c =~= goal("messages"@));
            lemma_replaced(before, goal, "messages"@, c);
        },
        Stage::DeletePrivate => {
            lemma_picks_one_of("_id"@, pass.private_channels);
            let c = without(
                before("channels"@),
                meeting(seq![reads_one_of("_id"@, pass.private_channels)]),
            );
            assert(c =~= goal("channels"@));
            lemma_replaced(before, goal, "channels"@, c);
        },
        Stage::DeletePrivateObjects => {
            let after = executed(before, command_of(pass)->0, cleanup);
            assert forall|name: Seq<char>| #[trigger] after(name) == goal(name) by {}
            assert(after =~= goal);
        },
        Stage::LeaveGroups => {
            let filter = meeting(
                seq![reads("channel_type"@, "Group"@), reads("recipients"@, u)],
            );
            let change = ChangeView::Pull { path: "recipients"@, item: u };
            assert forall|d: Document| #[trigger] picks(filter, d) == group_with(d, u) by {
                assert(filter.all[0] == reads("channel_type"@, "Group"@));
                assert(filter.all[1] == reads("recipients"@, u));
                assert(meets(d, filter.all[0]) == shows(d, "channel_type"@, "Group"@));
                assert(meets(d, filter.all[1]) == shows(d, "recipients"@, u));
            }
            let c = with_changed(before("channels"@), filter, change);
            assert(c =~= goal("channels"@));
            lemma_replaced(before, goal, "channels"@, c);
        },
        Stage::DeleteMemberships => {
            lemma_replaced(
                before,
                goal,
                "server_members"@,
                without(before("server_members"@), meeting(seq![reads("_id.user"@, u)])),
            );
        },
        Stage::DeleteUnreads => {
            lemma_replaced(
                before,
                goal,
                "channel_unreads"@,
                without(before("channel_unreads"@), meeting(seq![reads("_id.user"@, u)])),
            );
        },
        Stage::DeleteInvites => {
            lemma_replaced(
                before,
                goal,
                "channel_invites"@,
                without(before("channel_invites"@), meeting(seq![reads("creator"@, u)])),
            );
        },
        Stage::ReleaseInvites => {
            lemma_replaced(
                before,
                goal,
                "invites"@,
                with_changed(
                    before("invites"@),
                    meeting(seq![reads("claimed_by"@, u)]),
                    ChangeView::Remove { path: "claimed_by"@ },
                ),
            );
        },
        Stage::ListBots => {
            if reply->Ids_0.len() == 0 {
                assert forall|d: Document, path: Seq<char>| !#[trigger] shows_one_of(
                    d,
                    path,
                    reply->Ids_0,
                ) by {}
                let bots = database("bots"@);
                let filter = meeting(seq![reads("owner"@, u)]);
                assert forall|key: int| #[trigger] bots.contains_key(key) implies !picks(
                    filter,
                    bots[key],
                ) by {
                    if picks(filter, bots[key]) {
                        let id = choose|id: Seq<char>| shows(bots[key], "_id"@, id);
                        assert(picked(bots, filter).contains(key));
                        assert(reply->Ids_0.contains(id));
                    }
                }
                assert(without(bots, filter) =~= bots);
            }
            assert(before("bots"@) =~= goal("bots"@));
            assert(before("users"@) =~= goal("users"@));
            assert(before("sessions"@) =~= goal("sessions"@));
            assert(before =~= goal);
        },
        Stage::DeleteBots => {
            lemma_replaced(
                before,
                goal,
                "bots"@,
                without(before("bots"@), meeting(seq![reads("owner"@, u)])),
            );
        },
        Stage::DeleteBotUsers => {
            lemma_picks_one_of("_id"@, pass.bot_ids);
            let c = without(before("users"@), meeting(seq![reads_one_of("_id"@, pass.bot_ids)]));
            assert(c =~= goal("users"@));
            lemma_replaced(before, goal, "users"@, c);
        },
        Stage::DeleteBotSessions => {
            lemma_picks_one_of("user_id"@, pass.bot_ids);
            let c = without(
                before("sessions"@),
                meeting(seq![reads_one_of("user_id"@, pass.bot_ids)]),
            );
            assert(c =~= goal("sessions"@));
            lemma_replaced(before, goal, "sessions"@, c);
        },
        Stage::PullRelations => {
            let condition = ConditionView {
                path: "relations"@,
                test: TestView::HasElement(seq![("_id"@, u)]),
            };
            let filter = meeting(seq![condition]);
            let change = ChangeView::PullElement { path: "relations"@, id: u };
            assert forall|d: Document| #[trigger] picks(filter, d) == relates_to(d, u) by {
                lemma_picks_relation(d, u);
            }
            let c = with_changed(before("users"@), filter, change);
            assert(c =~= goal("users"@));
            lemma_replaced(before, goal, "users"@, c);
        },
        Stage::DeleteSessions => {
            lemma_picks_one("user_id"@, u);
            let c = without(before("sessions"@), meeting(seq![reads("user_id"@, u)]));
            assert(c =~= goal("sessions"@));
            lemma_replaced(before, goal, "sessions"@, c);
        },
        Stage::DeleteUser => {
            lemma_picks_one("_id"@, u);
            let filter = meeting(seq![reads("_id"@, u)]);
            let users = before("users"@);
            let c = without_one(users, filter);
            assert forall|key: int| #[trigger] users.contains_key(key) implies shows(
                users[key],
                "_id"@,
                u,
            ) == shows(database("users"@)[key], "_id"@, u) by {}
            if exists|key: int| picked(users, filter).contains(key) {
                let one = choose|key: int| picked(users, filter).contains(key);
                assert forall|key: int| #[trigger]
                    users.contains_key(key) && shows(users[key], "_id"@, u) implies key == one by {
                    assert(shows(database("users"@)[key], "_id"@, u));
                    assert(shows(database("users"@)[one], "_id"@, u));
                }
            } else {
                assert forall|key: int| #[trigger] users.contains_key(key) implies !shows(
                    users[key],
                    "_id"@,
                    u,
                ) by {
                    assert(!picked(users, filter).contains(key));
                }
            }
            assert(c =~= goal("users"@));
            lemma_replaced(before, goal, "users"@, c);
        },
        Stage::Finished => {},
    }
}

/// The messages that are left once those that the user wrote and those about them are gone.
pub open spec fn messages_left(database: Database, user_id: Seq<char>) -> Collection {
    without(without(database("messages"@), authored(user_id)), about_user(user_id))
}

/// Of the messages left, those that go with a channel that is private to the user.
pub open spec fn private_messages(database: Database, user_id: Seq<char>) -> Set<int> {
    let left = messages_left(database, user_id);
    Set::new(
        |key: int| left.contains_key(key) && in_private_channel(database, left[key], user_id),
    )
}

/// Of the messages left, those that name the user as the actor in a field, and not the system
/// sentinel alone already.
pub open spec fn actor_messages(
    database: Database,
    user_id: Seq<char>,
    field: Seq<char>,
) -> Set<int> {
    let left = messages_left(database, user_id);
    Set::new(
        |key: int|
            left.contains_key(key) && shows(left[key], field, user_id) && values(left[key], field)
                != seq![ValueView::Text(SYSTEM_USER_ID@)],
    )
}

/// The groups with the user in them, but for channels that are private to the user.
pub open spec fn groups_with(database: Database, user_id: Seq<char>) -> Set<int> {
    let channels = database("channels"@);
    Set::new(
        |key: int|
            channels.contains_key(key) && group_with(channels[key], user_id) && !picks(
                private_to(user_id),
                channels[key],
            ),
    )
}

/// The users that list the user among their relations, but for the user's bots.
pub open spec fn users_relating_to(database: Database, user_id: Seq<char>) -> Set<int> {
    let users = database("users"@);
    Set::new(
        |key: int|
            users.contains_key(key) && relates_to(users[key], user_id) && !bot_of(
                database,
                users[key],
                user_id,
            ),
    )
}

/// Whether a session is one of a bot that a user owns.
pub open spec fn session_of_bot(
    database: Database,
    session: Document,
    user_id: Seq<char>,
) -> bool {
    exists|key: int, id: Seq<char>|
        #![trigger database("bots"@).contains_key(key), shows(session, "user_id"@, id)]
        database("bots"@).contains_key(key) && shows(database("bots"@)[key], "owner"@, user_id)
            && shows(database("bots"@)[key], "_id"@, id) && shows(session, "user_id"@, id)
}

/// The sessions of the user's bots.
pub open spec fn bot_sessions(database: Database, user_id: Seq<char>) -> Set<int> {
    let sessions = database("sessions"@);
    Set::new(
        |key: int|
            sessions.contains_key(key) && session_of_bot(database, sessions[key], user_id),
    )
}

/// The sessions of the user, but for those of their bots.
pub open spec fn own_sessions(database: Database, user_id: Seq<char>) -> Set<int> {
    let sessions = database("sessions"@);
    Set::new(
        |key: int|
            sessions.contains_key(key) && shows(sessions[key], "user_id"@, user_id)
                && !session_of_bot(database, sessions[key], user_id),
    )
}

/// What a collection holds once the objects of private channels are deleted from it.
pub open spec fn cleared(
    database: Database,
    name: Seq<char>,
    channels: Seq<Seq<char>>,
    cleanup: Cleanup,
) -> Collection {
    if channels.len() > 0 {
        cleanup(channels, name, database(name))
    } else {
        database(name)
    }
}

/// What a pass reports of a database, given the ids that it has listed.
pub open spec fn report_of(database: Database, pass: PassView, cleanup: Cleanup) -> ReportView {
    let u = pass.user_id;
    let channels = pass.private_channels;
    ReportView {
        user_id: u,
        policy_version: ERASURE_POLICY_VERSION@,
        attachments_marked: picked(
            database("attachments"@),
            erasable_attachments(u, pass.message_ids),
        ).len() as int,
        messages_deleted: (picked(database("messages"@), authored(u)).len() + picked(
            without(database("messages"@), authored(u)),
            about_user(u),
        ).len() + private_messages(database, u).len()) as int,
        channels_deleted: picked(database("channels"@), private_to(u)).len() as int,
        groups_departed: groups_with(database, u).len() as int,
        memberships_deleted: picked(
            database("server_members"@),
            meeting(seq![reads("_id.user"@, u)]),
        ).len() as int,
        unreads_deleted: picked(
            cleared(database, "channel_unreads"@, channels, cleanup),
            meeting(seq![reads("_id.user"@, u)]),
        ).len() as int,
        invites_deleted: picked(
            cleared(database, "channel_invites"@, channels, cleanup),
            meeting(seq![reads("creator"@, u)]),
        ).len() as int,
        bots_deleted: picked(database("bots"@), meeting(seq![reads("owner"@, u)])).len() as int,
        relations_pulled: users_relating_to(database, u).len() as int,
        sessions_deleted: (bot_sessions(database, u).len() + own_sessions(
            database,
            u,
        ).len()) as int,
        system_references_scrubbed: (actor_messages(database, u, "system.by"@).len()
            + actor_messages(database, u, "system.from"@).len() + actor_messages(
            database,
            u,
            "system.to"@,
        ).len()) as int,
        attachments_withheld_reported: picked(
            database("attachments"@),
            withheld_attachments(u, pass.message_ids),
        ).len() as int,
    }
}

/// Whether the lists that a pass has fetched hold exactly the ids that they should, and what it
/// has counted so far is what the whole report says.
pub open spec fn informed(database: Database, pass: PassView, cleanup: Cleanup) -> bool {
    let n = rank(pass.stage);
    let u = pass.user_id;
    let messages = database("messages"@);
    let report = pass.report;
    let whole = report_of(database, pass, cleanup);
    &&& report.user_id == whole.user_id
    &&& report.policy_version == whole.policy_version
    &&& n > 0 ==> lists_ids(messages, authored(u), pass.message_ids)
    &&& n > 1 ==> report.attachments_withheld_reported == whole.attachments_withheld_reported
    &&& n > 2 ==> report.attachments_marked == whole.attachments_marked
    &&& n == 5 ==> report.messages_deleted == picked(messages, authored(u)).len()
    &&& 5 < n <= 10 ==> report.messages_deleted == picked(messages, authored(u)).len() + picked(
        without(messages, authored(u)),
        about_user(u),
    ).len()
    &&& n > 10 ==> report.messages_deleted == whole.messages_deleted
    &&& n <= 6 ==> report.system_references_scrubbed == 0
    &&& n == 7 ==> report.system_references_scrubbed == actor_messages(
        database,
        u,
        "system.by"@,
    ).len()
    &&& n == 8 ==> report.system_references_scrubbed == actor_messages(
        database,
        u,
        "system.by"@,
    ).len() + actor_messages(database, u, "system.from"@).len()
    &&& n > 8 ==> report.system_references_scrubbed == whole.system_references_scrubbed
    &&& n > 9 ==> lists_ids(database("channels"@), private_to(u), pass.private_channels)
    &&& n <= 12 ==> report.channels_deleted == 0
    &&& n > 12 ==> report.channels_deleted == whole.channels_deleted
    &&& n > 13 ==> report.groups_departed == whole.groups_departed
    &&& n > 14 ==> report.memberships_deleted == whole.memberships_deleted
    &&& n > 15 ==> report.unreads_deleted == whole.unreads_deleted
    &&& n > 16 ==> report.invites_deleted == whole.invites_deleted
    &&& n > 18 ==> lists_ids(
        database("bots"@),
        meeting(seq![reads("owner"@, u)]),
        pass.bot_ids,
    )
    &&& n <= 21 ==> report.bots_deleted == 0
    &&& n > 21 ==> report.bots_deleted == whole.bots_deleted
    &&& n > 22 ==> report.relations_pulled == whole.relations_pulled
    &&& n <= 20 ==> report.sessions_deleted == 0
    &&& 20 < n <= 23 ==> report.sessions_deleted == bot_sessions(database, u).len()
    &&& n > 23 ==> report.sessions_deleted == whole.sessions_deleted
}

/// A document that names a channel whose id was listed is one in a private channel.
proof fn lemma_in_listed_channel(database: Database, user_id: Seq<char>, ids: Seq<Seq<char>>)
    requires
        lists_ids(database("channels"@), private_to(user_id), ids),
    ensures
        forall|d: Document| #[trigger]
            shows_one_of(d, "channel"@, ids) == in_private_channel(database, d, user_id),
{
    let channels = database("channels"@);
    let private = picked(channels, private_to(user_id));
    assert forall|d: Document| #[trigger]
        shows_one_of(d, "channel"@, ids) == in_private_channel(database, d, user_id) by {
        if shows_one_of(d, "channel"@, ids) {
            let id = choose|id: Seq<char>| #[trigger]
                ids.contains(id) && shows(d, "channel"@, id);
            let key = choose|key: int| #[trigger]
                private.contains(key) && shows(channels[key], "_id"@, id);
            assert(private.contains(key) && shows(d, "channel"@, id));
        }
        if in_private_channel(database, d, user_id) {
            let (key, id) = choose|key: int, id: Seq<char>|
                #![trigger private.contains(key), shows(d, "channel"@, id)]
                private.contains(key) && shows(channels[key], "_id"@, id) && shows(
                    d,
                    "channel"@,
                    id,
                );
            assert(private.contains(key));
            assert(ids.contains(id));
        }
    }
}

/// The channels whose ids were listed are the private ones.
proof fn lemma_listed_channels(database: Database, user_id: Seq<char>, ids: Seq<Seq<char>>)
    requires
        identified(database),
        lists_ids(database("channels"@), private_to(user_id), ids),
    ensures
        forall|key: int| #[trigger]
            database("channels"@).contains_key(key) ==> shows_one_of(
                database("channels"@)[key],
                "_id"@,
                ids,
            ) == picks(private_to(user_id), database("channels"@)[key]),
{
    let channels = database("channels"@);
    let private = picked(channels, private_to(user_id));
    assert forall|key: int| #[trigger] channels.contains_key(key) implies shows_one_of(
        channels[key],
        "_id"@,
        ids,
    ) == picks(private_to(user_id), channels[key]) by {
        if shows_one_of(channels[key], "_id"@, ids) {
            let id = choose|id: Seq<char>| #[trigger]
                ids.contains(id) && shows(channels[key], "_id"@, id);
            let other = choose|other: int| #[trigger]
                private.contains(other) && shows(channels[other], "_id"@, id);
            assert(shows(channels[key], "_id"@, id) && shows(channels[other], "_id"@, id));
            assert(other == key);
        }
        if picks(private_to(user_id), channels[key]) {
            assert(private.contains(key));
            let id = choose|id: Seq<char>| shows(channels[key], "_id"@, id);
            assert(ids.contains(id));
        }
    }
}

/// A document that reads a bot id that was listed reads the id of one of the user's bots.
proof fn lemma_of_listed_bot(database: Database, user_id: Seq<char>, ids: Seq<Seq<char>>)
    requires
        lists_ids(database("bots"@), meeting(seq![reads("owner"@, user_id)]), ids),
    ensures
        forall|d: Document| #[trigger]
            shows_one_of(d, "_id"@, ids) == bot_of(database, d, user_id),
        forall|d: Document| #[trigger]
            shows_one_of(d, "user_id"@, ids) == session_of_bot(database, d, user_id),
{
    let bots = database("bots"@);
    let filter = meeting(seq![reads("owner"@, user_id)]);
    lemma_picks_one("owner"@, user_id);
    assert forall|id: Seq<char>| #[trigger] ids.contains(id) <==> exists|key: int|
        #![trigger bots.contains_key(key)]
        bots.contains_key(key) && shows(bots[key], "owner"@, user_id) && shows(
            bots[key],
            "_id"@,
            id,
        ) by {
        if ids.contains(id) {
            let key = choose|key: int| #[trigger]
                picked(bots, filter).contains(key) && shows(bots[key], "_id"@, id);
            assert(picks(filter, bots[key]));
            assert(bots.contains_key(key));
        }
        if exists|key: int|
            #![trigger bots.contains_key(key)]
            bots.contains_key(key) && shows(bots[key], "owner"@, user_id) && shows(
                bots[key],
                "_id"@,
                id,
            ) {
            let key = choose|key: int|
                #![trigger bots.contains_key(key)]
                bots.contains_key(key) && shows(bots[key], "owner"@, user_id) && shows(
                    bots[key],
                    "_id"@,
                    id,
                );
            assert(picks(filter, bots[key]));
            assert(picked(bots, filter).contains(key));
        }
    }
    assert forall|d: Document| #[trigger]
        shows_one_of(d, "_id"@, ids) == bot_of(database, d, user_id) by {
        if bot_of(database, d, user_id) {
            let (key, id) = choose|key: int, id: Seq<char>|
                #![trigger bots.contains_key(key), shows(d, "_id"@, id)]
                bots.contains_key(key) && shows(bots[key], "owner"@, user_id) && shows(
                    bots[key],
                    "_id"@,
                    id,
                ) && shows(d, "_id"@, id);
            assert(ids.contains(id));
        }
    }
    assert forall|d: Document| #[trigger]
        shows_one_of(d, "user_id"@, ids) == session_of_bot(database, d, user_id) by {
        if session_of_bot(database, d, user_id) {
            let (key, id) = choose|key: int, id: Seq<char>|
                #![trigger bots.contains_key(key), shows(d, "user_id"@, id)]
                bots.contains_key(key) && shows(bots[key], "owner"@, user_id) && shows(
                    bots[key],
                    "_id"@,
                    id,
                ) && shows(d, "user_id"@, id);
            assert(ids.contains(id));
        }
    }
}

/// What a pass has of messages when it comes to scrub a field: those left, which read at that
/// field what they read at first.
proof fn lemma_scrub_count(
    database: Database,
    pass: PassView,
    cleanup: Cleanup,
    field: Seq<char>,
)
    requires
        pass.stage == Stage::ScrubBy && field == "system.by"@ || pass.stage == Stage::ScrubFrom
            && field == "system.from"@ || pass.stage == Stage::ScrubTo && field == "system.to"@,
    ensures
        altered(
            reached(database, pass, cleanup)("messages"@),
            meeting(seq![reads(field, pass.user_id)]),
            ChangeView::Write { path: field, value: ValueView::Text(SYSTEM_USER_ID@) },
        ) == actor_messages(database, pass.user_id, field),
{
    let u = pass.user_id;
    lemma_names_differ();
    lemma_paths_differ();
    lemma_picks_one("author"@, u);
    lemma_picks_one(field, u);
    let filter = meeting(seq![reads(field, u)]);
    let system = ValueView::Text(SYSTEM_USER_ID@);
    let change = ChangeView::Write { path: field, value: system };
    let before = reached(database, pass, cleanup)("messages"@);
    let left = messages_left(database, u);
    assert forall|key: int| before.contains_key(key) == #[trigger] left.contains_key(key) by {}
    assert forall|key: int| #[trigger] left.contains_key(key) implies values(before[key], field)
        == values(left[key], field) by {}
    assert forall|key: int|
        altered(before, filter, change).contains(key) == #[trigger] actor_messages(
            database,
            u,
            field,
        ).contains(key) by {
        if left.contains_key(key) && shows(before[key], field, u) {
            let d = before[key];
            assert(d.fields.contains_key(field));
            if d.fields[field] == seq![system] {
                assert(changed(d, change).fields =~= d.fields);
            } else {
                assert(changed(d, change).fields[field] == seq![system]);
            }
        }
    }
    assert(altered(before, filter, change) =~= actor_messages(database, u, field));
}

proof fn lemma_nothing_listed(collection: Collection, filter: FilterView)
    requires
        lists_ids(collection, filter, Seq::empty()),
        forall|key: int| #[trigger]
            collection.contains_key(key) ==> has_some_id(collection[key]),
    ensures
        forall|key: int| #[trigger]
            collection.contains_key(key) ==> !picks(filter, collection[key]),
        picked(collection, filter).len() == 0,
{
    let none = Seq::<Seq<char>>::empty();
    assert forall|key: int| #[trigger] collection.contains_key(key) implies !picks(
        filter,
        collection[key],
    ) by {
        if picks(filter, collection[key]) {
            let id = choose|id: Seq<char>| shows(collection[key], "_id"@, id);
            assert(picked(collection, filter).contains(key));
            assert(none.contains(id));
        }
    }
    assert(picked(collection, filter) =~= Set::empty());
}

proof fn lemma_informed_private(
    database: Database,
    pass: PassView,
    reply: ReplyView,
    cleanup: Cleanup,
)
    requires
        pass.stage == Stage::ListPrivate || pass.stage == Stage::DeletePrivateMessages || pass.stage
            == Stage::DeletePrivate || pass.stage == Stage::LeaveGroups,
        identified(database),
        informed(database, pass, cleanup),
        answers(reached(database, pass, cleanup), command_of(pass)->0, reply),
    ensures
        informed(database, advanced(pass, reply), cleanup),
{
    lemma_names_differ();
    lemma_paths_differ();
    let before = reached(database, pass, cleanup);
    let next = advanced(pass, reply);
    let u = pass.user_id;
    let channels = database("channels"@);
    lemma_picks_one("author"@, u);
    match pass.stage {
        Stage::ListPrivate => {
            assert(before("channels"@) =~= channels);
            if reply->Ids_0.len() == 0 {
                assert(reply->Ids_0 =~= Seq::empty());
                lemma_nothing_listed(channels, private_to(u));
                assert(private_messages(database, u) =~= Set::empty()) by {
                    lemma_in_listed_channel(database, u, reply->Ids_0);
                    let left = messages_left(database, u);
                    assert forall|key: int| !private_messages(database, u).contains(key) by {
                        if private_messages(database, u).contains(key) {
                            assert(shows_one_of(left[key], "channel"@, reply->Ids_0));
                        }
                    }
                }
            }
        },
        Stage::DeletePrivateMessages => {
            let ids = pass.private_channels;
            let filter = meeting(seq![reads_one_of("channel"@, ids)]);
            lemma_picks_one_of("channel"@, ids);
            lemma_in_listed_channel(database, u, ids);
            let left = messages_left(database, u);
            let m = before("messages"@);
            assert forall|key: int| m.contains_key(key) == #[trigger] left.contains_key(key) by {}
            assert forall|key: int|
                picked(m, filter).contains(key) == #[trigger] private_messages(
                    database,
                    u,
                ).contains(key) by {
                if left.contains_key(key) {
                    assert(m[key] == scrubbed(left[key], u));
                    lemma_scrub_keeps(left[key], u, "channel"@);
                    assert(shows_one_of(m[key], "channel"@, ids) == shows_one_of(
                        left[key],
                        "channel"@,
                        ids,
                    ));
                    assert(picks(filter, m[key]) == shows_one_of(m[key], "channel"@, ids));
                }
            }
            assert(picked(m, filter) =~= private_messages(database, u));
        },
        Stage::DeletePrivate => {
            let ids = pass.private_channels;
            let filter = meeting(seq![reads_one_of("_id"@, ids)]);
            lemma_picks_one_of("_id"@, ids);
            lemma_listed_channels(database, u, ids);
            assert(before("channels"@) =~= channels);
            assert(picked(channels, filter) =~= picked(channels, private_to(u)));
        },
        _ => {
            let ids = pass.private_channels;
            lemma_listed_channels(database, u, ids);
            let filter = meeting(
                seq![reads("channel_type"@, "Group"@), reads("recipients"@, u)],
            );
            let change = ChangeView::Pull { path: "recipients"@, item: u };
            let c = before("channels"@);
            assert forall|key: int|
                altered(c, filter, change).contains(key) == #[trigger] groups_with(
                    database,
                    u,
                ).contains(key) by {
                if c.contains_key(key) {
                    assert(c[key] == channels[key]);
                    lemma_departed(c[key], u);
                    lemma_picks_group(c[key], u);
                    assert(picks(filter, c[key]) == group_with(c[key], u));
                }
            }
            assert(altered(c, filter, change) =~= groups_with(database, u));
        },
    }
}

proof fn lemma_picks_group(channel: Document, user_id: Seq<char>)
    ensures
        picks(
            meeting(seq![reads("channel_type"@, "Group"@), reads("recipients"@, user_id)]),
            channel,
        ) == group_with(channel, user_id),
{
    let filter = meeting(seq![reads("channel_type"@, "Group"@), reads("recipients"@, user_id)]);
    assert(filter.all[0] == reads("channel_type"@, "Group"@));
    assert(filter.all[1] == reads("recipients"@, user_id));
    assert(meets(channel, filter.all[0]) == shows(channel, "channel_type"@, "Group"@));
    assert(meets(channel, filter.all[1]) == shows(channel, "recipients"@, user_id));
}

proof fn lemma_informed_bots(
    database: Database,
    pass: PassView,
    reply: ReplyView,
    cleanup: Cleanup,
)
    requires
        pass.stage == Stage::ListBots || pass.stage == Stage::DeleteBots || pass.stage
            == Stage::DeleteBotSessions || pass.stage == Stage::PullRelations || pass.stage
            == Stage::DeleteSessions,
        identified(database),
        informed(database, pass, cleanup),
        answers(reached(database, pass, cleanup), command_of(pass)->0, reply),
    ensures
        informed(database, advanced(pass, reply), cleanup),
{
    lemma_names_differ();
    let before = reached(database, pass, cleanup);
    let u = pass.user_id;
    let bots = database("bots"@);
    match pass.stage {
        Stage::ListBots => {
            assert(before("bots"@) =~= bots);
            if reply->Ids_0.len() == 0 {
                assert(reply->Ids_0 =~= Seq::empty());
                lemma_nothing_listed(bots, meeting(seq![reads("owner"@, u)]));
                assert(bot_sessions(database, u) =~= Set::empty()) by {
                    lemma_of_listed_bot(database, u, reply->Ids_0);
                    let sessions = database("sessions"@);
                    assert forall|key: int| !bot_sessions(database, u).contains(key) by {
                        if bot_sessions(database, u).contains(key) {
                            assert(shows_one_of(sessions[key], "user_id"@, reply->Ids_0));
                        }
                    }
                }
            }
        },
        Stage::DeleteBots => {
            assert(before("bots"@) =~= bots);
        },
        Stage::DeleteBotSessions => {
            let ids = pass.bot_ids;
            lemma_of_listed_bot(database, u, ids);
            lemma_picks_one_of("user_id"@, ids);
            let filter = meeting(seq![reads_one_of("user_id"@, ids)]);
            let sessions = database("sessions"@);
            assert(before("sessions"@) =~= sessions);
            assert forall|key: int|
                picked(sessions, filter).contains(key) == #[trigger] bot_sessions(
                    database,
                    u,
                ).contains(key) by {
                if sessions.contains_key(key) {
                    assert(picks(filter, sessions[key]) == shows_one_of(
                        sessions[key],
                        "user_id"@,
                        ids,
                    ));
                }
            }
            assert(picked(sessions, filter) =~= bot_sessions(database, u));
        },
        Stage::PullRelations => {
            lemma_of_listed_bot(database, u, pass.bot_ids);
            let condition = ConditionView {
                path: "relations"@,
                test: TestView::HasElement(seq![("_id"@, u)]),
            };
            let filter = meeting(seq![condition]);
            let change = ChangeView::PullElement { path: "relations"@, id: u };
            let users = database("users"@);
            let c = before("users"@);
            assert forall|key: int|
                altered(c, filter, change).contains(key) == #[trigger] users_relating_to(
                    database,
                    u,
                ).contains(key) by {
                if users.contains_key(key) {
                    assert(shows_one_of(users[key], "_id"@, pass.bot_ids) == bot_of(
                        database,
                        users[key],
                        u,
                    ));
                    lemma_picks_relation(users[key], u);
                    lemma_unrelated(users[key], u);
                }
            }
            assert(altered(c, filter, change) =~= users_relating_to(database, u));
        },
        _ => {
            lemma_of_listed_bot(database, u, pass.bot_ids);
            lemma_picks_one("user_id"@, u);
            let filter = meeting(seq![reads("user_id"@, u)]);
            let sessions = database("sessions"@);
            let c = before("sessions"@);
            assert forall|key: int|
                picked(c, filter).contains(key) == #[trigger] own_sessions(database, u).contains(
                    key,
                ) by {
                if sessions.contains_key(key) {
                    assert(shows_one_of(sessions[key], "user_id"@, pass.bot_ids)
                        == session_of_bot(database, sessions[key], u));
                    assert(picks(filter, sessions[key]) == shows(sessions[key], "user_id"@, u));
                }
            }
            assert(picked(c, filter) =~= own_sessions(database, u));
        },
    }
}

proof fn lemma_informed(
    database: Database,
    pass: PassView,
    reply: ReplyView,
    cleanup: Cleanup,
)
    requires
        pass.stage != Stage::Finished,
        identified(database),
        informed(database, pass, cleanup),
        answers(reached(database, pass, cleanup), command_of(pass)->0, reply),
    ensures
        informed(database, advanced(pass, reply), cleanup),
{
    lemma_names_differ();
    let before = reached(database, pass, cleanup);
    let u = pass.user_id;
    match pass.stage {
        Stage::ListMessages | Stage::DeleteAuthored => {
            assert(before("messages"@) =~= database("messages"@));
        },
        Stage::DeleteAbout => {
            lemma_picks_one("author"@, u);
            assert(before("messages"@) =~= without(database("messages"@), authored(u)));
        },
        Stage::ScrubBy => {
            lemma_scrub_count(database, pass, cleanup, "system.by"@);
        },
        Stage::ScrubFrom => {
            lemma_scrub_count(database, pass, cleanup, "system.from"@);
        },
        Stage::ScrubTo => {
            lemma_scrub_count(database, pass, cleanup, "system.to"@);
        },
        Stage::ListPrivate
        | Stage::DeletePrivateMessages
        | Stage::DeletePrivate
        | Stage::LeaveGroups => {
            lemma_informed_private(database, pass, reply, cleanup);
        },
        Stage::ListBots
        | Stage::DeleteBots
        | Stage::DeleteBotSessions
        | Stage::PullRelations
        | Stage::DeleteSessions => {
            lemma_informed_bots(database, pass, reply, cleanup);
        },
        _ => {},
    }
}

/// A pass whose replies tell the truth is, at every stage, where `reached` says.
proof fn lemma_ran(
    database: Database,
    pass: PassView,
    replies: Seq<ReplyView>,
    cleanup: Cleanup,
)
    requires
        coherent(pass),
        spares(cleanup),
        identified(database),
        informed(database, pass, cleanup),
        truthful(reached(database, pass, cleanup), pass, replies, cleanup),
    ensures
        informed(
            database,
            ran(reached(database, pass, cleanup), pass, replies, cleanup).1,
            cleanup,
        ),
        ran(reached(database, pass, cleanup), pass, replies, cleanup).0 == reached(
            database,
            ran(reached(database, pass, cleanup), pass, replies, cleanup).1,
            cleanup,
        ),
        ran(reached(database, pass, cleanup), pass, replies, cleanup).1.user_id == pass.user_id,
    decreases replies.len(),
{
    if replies.len() != 0 && command_of(pass) is Some {
        lemma_step(database, pass, replies[0], cleanup);
        lemma_informed(database, pass, replies[0], cleanup);
        lemma_ran(database, advanced(pass, replies[0]), replies.drop_first(), cleanup);
    }
}

/// A pass that has not begun has changed nothing.
proof fn lemma_unbegun(database: Database, user_id: Seq<char>, cleanup: Cleanup)
    ensures
        reached(database, first(user_id), cleanup) == database,
{
    let start = reached(database, first(user_id), cleanup);
    assert forall|name: Seq<char>| #[trigger] start(name) == database(name) by {
        assert(start(name) =~= database(name));
    }
    assert(start =~= database);
}

/// A pass over a database that was carried through to its end with truthful replies.
pub open spec fn completed(
    database: Database,
    user_id: Seq<char>,
    replies: Seq<ReplyView>,
    cleanup: Cleanup,
) -> bool {
    &&& truthful(database, first(user_id), replies, cleanup)
    &&& ran(database, first(user_id), replies, cleanup).1.stage == Stage::Finished
}

/// What a pass left of a database.
pub open spec fn remains(
    database: Database,
    user_id: Seq<char>,
    replies: Seq<ReplyView>,
    cleanup: Cleanup,
) -> Database {
    ran(database, first(user_id), replies, cleanup).0
}

/// A pass as it ended.
pub open spec fn ending(
    database: Database,
    user_id: Seq<char>,
    replies: Seq<ReplyView>,
    cleanup: Cleanup,
) -> PassView {
    ran(database, first(user_id), replies, cleanup).1
}

proof fn lemma_completed(
    database: Database,
    user_id: Seq<char>,
    replies: Seq<ReplyView>,
    cleanup: Cleanup,
)
    requires
        completed(database, user_id, replies, cleanup),
        spares(cleanup),
        identified(database),
    ensures
        remains(database, user_id, replies, cleanup) == reached(
            database,
            ending(database, user_id, replies, cleanup),
            cleanup,
        ),
        informed(database, ending(database, user_id, replies, cleanup), cleanup),
        ending(database, user_id, replies, cleanup).user_id == user_id,
{
    lemma_unbegun(database, user_id, cleanup);
    lemma_ran(database, first(user_id), replies, cleanup);
}

/// Whether a message does not name a user in a field. The system sentinel stands for whoever
/// was erased, so it alone may stand there for itself.
pub open spec fn unnamed_in(message: Document, field: Seq<char>, user_id: Seq<char>) -> bool {
    shows(message, field, user_id) ==> user_id == SYSTEM_USER_ID@ && values(message, field)
        == seq![ValueView::Text(SYSTEM_USER_ID@)]
}

/// Whether nothing in a database belongs to a user, describes them or names them.
pub open spec fn forgets(database: Database, user_id: Seq<char>) -> bool {
    &&& forall|key: int| #[trigger]
        database("messages"@).contains_key(key) ==> {
            let message = database("messages"@)[key];
            &&& !shows(message, "author"@, user_id)
            &&& !picks(about_user(user_id), message)
            &&& unnamed_in(message, "system.by"@, user_id)
            &&& unnamed_in(message, "system.from"@, user_id)
            &&& unnamed_in(message, "system.to"@, user_id)
        }
    &&& forall|key: int| #[trigger]
        database("attachments"@).contains_key(key) ==> (picks(
            FilterView { all: Seq::empty(), any: owned_attachments(user_id, Seq::empty()) },
            database("attachments"@)[key],
        ) ==> values(database("attachments"@)[key], "deleted"@) == seq![ValueView::Flag(true)])
    &&& forall|key: int| #[trigger]
        database("channels"@).contains_key(key) ==> {
            let channel = database("channels"@)[key];
            &&& !picks(private_to(user_id), channel)
            &&& !group_with(channel, user_id)
        }
    &&& forall|key: int| #[trigger]
        database("server_members"@).contains_key(key) ==> !shows(
            database("server_members"@)[key],
            "_id.user"@,
            user_id,
        )
    &&& forall|key: int| #[trigger]
        database("channel_unreads"@).contains_key(key) ==> !shows(
            database("channel_unreads"@)[key],
            "_id.user"@,
            user_id,
        )
    &&& forall|key: int| #[trigger]
        database("channel_invites"@).contains_key(key) ==> !shows(
            database("channel_invites"@)[key],
            "creator"@,
            user_id,
        )
    &&& forall|key: int| #[trigger]
        database("invites"@).contains_key(key) ==> !shows(
            database("invites"@)[key],
            "claimed_by"@,
            user_id,
        )
    &&& forall|key: int| #[trigger]
        database("bots"@).contains_key(key) ==> !shows(database("bots"@)[key], "owner"@, user_id)
    &&& forall|key: int| #[trigger]
        database("users"@).contains_key(key) ==> {
            &&& !shows(database("users"@)[key], "_id"@, user_id)
            &&& !relates_to(database("users"@)[key], user_id)
        }
    &&& forall|key: int| #[trigger]
        database("sessions"@).contains_key(key) ==> !shows(
            database("sessions"@)[key],
            "user_id"@,
            user_id,
        )
}

proof fn lemma_picks_about(user_id: Seq<char>)
    ensures
        forall|d: Document| #[trigger]
            picks(about_user(user_id), d) <==> shows_one_of(
                d,
                "system.type"@,
                about_a_user(),
            ) && shows(d, "system.id"@, user_id),
{
    let all = about_user(user_id).all;
    assert(all[0] == reads_one_of("system.type"@, about_a_user()));
    assert(all[1] == reads("system.id"@, user_id));
    assert forall|d: Document| #[trigger]
        picks(about_user(user_id), d) <==> shows_one_of(d, "system.type"@, about_a_user()) && shows(
            d,
            "system.id"@,
            user_id,
        ) by {
        assert(meets(d, all[0]) == shows_one_of(d, "system.type"@, about_a_user()));
        assert(meets(d, all[1]) == shows(d, "system.id"@, user_id));
    }
}

proof fn lemma_picks_private(user_id: Seq<char>)
    ensures
        forall|d: Document| #[trigger]
            picks(private_to(user_id), d) <==> {
                ||| shows(d, "channel_type"@, "SavedMessages"@) && shows(d, "user"@, user_id)
                ||| shows(d, "channel_type"@, "DirectMessage"@) && shows(
                    d,
                    "recipients"@,
                    user_id,
                )
            },
{
    let any = private_to(user_id).any;
    let saved = seq![reads("channel_type"@, "SavedMessages"@), reads("user"@, user_id)];
    let direct = seq![reads("channel_type"@, "DirectMessage"@), reads("recipients"@, user_id)];
    assert(any[0] == saved);
    assert(any[1] == direct);
    assert(saved[0] == reads("channel_type"@, "SavedMessages"@));
    assert(saved[1] == reads("user"@, user_id));
    assert(direct[0] == reads("channel_type"@, "DirectMessage"@));
    assert(direct[1] == reads("recipients"@, user_id));
    assert forall|d: Document| #[trigger]
        picks(private_to(user_id), d) <==> {
            ||| shows(d, "channel_type"@, "SavedMessages"@) && shows(d, "user"@, user_id)
            ||| shows(d, "channel_type"@, "DirectMessage"@) && shows(d, "recipients"@, user_id)
        } by {
        assert(meets(d, saved[0]) == shows(d, "channel_type"@, "SavedMessages"@));
        assert(meets(d, saved[1]) == shows(d, "user"@, user_id));
        assert(meets(d, direct[0]) == shows(d, "channel_type"@, "DirectMessage"@));
        assert(meets(d, direct[1]) == shows(d, "recipients"@, user_id));
        assert(meets_all(d, any[0]) == (meets(d, saved[0]) && meets(d, saved[1])));
        assert(meets_all(d, any[1]) == (meets(d, direct[0]) && meets(d, direct[1])));
    }
}

/// A scrubbed message names the user as the actor nowhere.
proof fn lemma_scrubbed_names_nobody(message: Document, user_id: Seq<char>)
    ensures
        unnamed_in(scrubbed(message, user_id), "system.by"@, user_id),
        unnamed_in(scrubbed(message, user_id), "system.from"@, user_id),
        unnamed_in(scrubbed(message, user_id), "system.to"@, user_id),
{
    lemma_paths_differ();
    let d1 = scrubbed_in(message, "system.by"@, user_id);
    let d2 = scrubbed_in(d1, "system.from"@, user_id);
    let d3 = scrubbed_in(d2, "system.to"@, user_id);
    lemma_scrubbed_in(message, "system.by"@, user_id);
    lemma_scrubbed_in(d1, "system.from"@, user_id);
    lemma_scrubbed_in(d2, "system.to"@, user_id);
    assert(values(d2, "system.by"@) == values(d1, "system.by"@));
    assert(values(d3, "system.by"@) == values(d2, "system.by"@));
    assert(values(d3, "system.from"@) == values(d2, "system.from"@));
}

proof fn lemma_scrubbed_in(message: Document, field: Seq<char>, user_id: Seq<char>)
    ensures
        unnamed_in(scrubbed_in(message, field, user_id), field, user_id),
{
    let system = seq![ValueView::Text(SYSTEM_USER_ID@)];
    if system.contains(ValueView::Text(user_id)) {
        let i = system.index_of(ValueView::Text(user_id));
        assert(system[i] == ValueView::Text(user_id));
    }
}

proof fn lemma_forgets_messages(
    database: Database,
    user_id: Seq<char>,
    replies: Seq<ReplyView>,
    cleanup: Cleanup,
)
    requires
        completed(database, user_id, replies, cleanup),
        spares(cleanup),
        identified(database),
    ensures
        ({
            let after = remains(database, user_id, replies, cleanup)("messages"@);
            forall|key: int| #[trigger]
                after.contains_key(key) ==> {
                    let message = after[key];
                    &&& !shows(message, "author"@, user_id)
                    &&& !picks(about_user(user_id), message)
                    &&& unnamed_in(message, "system.by"@, user_id)
                    &&& unnamed_in(message, "system.from"@, user_id)
                    &&& unnamed_in(message, "system.to"@, user_id)
                }
        }),
{
    lemma_completed(database, user_id, replies, cleanup);
    lemma_picks_about(user_id);
    lemma_paths_differ();
    let after = remains(database, user_id, replies, cleanup)("messages"@);
    let messages = database("messages"@);
    assert forall|key: int| #[trigger] after.contains_key(key) implies {
        let message = after[key];
        &&& !shows(message, "author"@, user_id)
        &&& !picks(about_user(user_id), message)
        &&& unnamed_in(message, "system.by"@, user_id)
        &&& unnamed_in(message, "system.from"@, user_id)
        &&& unnamed_in(message, "system.to"@, user_id)
    } by {
        assert(after[key] == scrubbed(messages[key], user_id));
        lemma_scrub_keeps(messages[key], user_id, "author"@);
        lemma_scrub_keeps(messages[key], user_id, "system.type"@);
        lemma_scrub_keeps(messages[key], user_id, "system.id"@);
        lemma_scrubbed_names_nobody(messages[key], user_id);
        assert(shows_one_of(after[key], "system.type"@, about_a_user()) == shows_one_of(
            messages[key],
            "system.type"@,
            about_a_user(),
        ));
    }
}

proof fn lemma_forgets_channels(
    database: Database,
    user_id: Seq<char>,
    replies: Seq<ReplyView>,
    cleanup: Cleanup,
)
    requires
        completed(database, user_id, replies, cleanup),
        spares(cleanup),
        identified(database),
    ensures
        ({
            let after = remains(database, user_id, replies, cleanup)("channels"@);
            forall|key: int| #[trigger]
                after.contains_key(key) ==> {
                    &&& !picks(private_to(user_id), after[key])
                    &&& !group_with(after[key], user_id)
                }
        }),
{
    lemma_completed(database, user_id, replies, cleanup);
    lemma_picks_private(user_id);
    lemma_paths_differ();
    lemma_names_differ();
    let pass = ending(database, user_id, replies, cleanup);
    let after = remains(database, user_id, replies, cleanup)("channels"@);
    let channels = database("channels"@);
    assert forall|key: int| #[trigger] after.contains_key(key) implies {
        &&& !picks(private_to(user_id), after[key])
        &&& !group_with(after[key], user_id)
    } by {
        let old_channel = channels[key];
        assert(after[key] == departed(old_channel, user_id));
        if picks(private_to(user_id), old_channel) {
            let id = choose|id: Seq<char>| shows(old_channel, "_id"@, id);
            assert(picked(channels, private_to(user_id)).contains(key));
            assert(pass.private_channels.contains(id));
            assert(shows_one_of(old_channel, "_id"@, pass.private_channels));
        }
        lemma_departed(old_channel, user_id);
    }
}

/// Leaving a group takes the user out of its recipients and changes nothing else.
proof fn lemma_departed(channel: Document, user_id: Seq<char>)
    ensures
        !group_with(departed(channel, user_id), user_id),
        forall|path: Seq<char>|
            path != "recipients"@ ==> values(departed(channel, user_id), path) == #[trigger] values(
                channel,
                path,
            ),
        forall|text: Seq<char>|
            shows(departed(channel, user_id), "recipients"@, text) ==> #[trigger] shows(
                channel,
                "recipients"@,
                text,
            ),
{
    if group_with(channel, user_id) {
        let pred = |value: ValueView| value != ValueView::Text(user_id);
        let list = channel.fields["recipients"@];
        broadcast use vstd::seq_lib::group_filter_ensures;

        let kept = list.filter(pred);
        if kept.contains(ValueView::Text(user_id)) {
            let i = choose|i: int| 0 <= i < kept.len() && kept[i] == ValueView::Text(user_id);
            assert(pred(kept[i]));
        }
        assert forall|text: Seq<char>|
            shows(departed(channel, user_id), "recipients"@, text) implies #[trigger] shows(
            channel,
            "recipients"@,
            text,
        ) by {
            list.lemma_filter_contains_rev(pred, ValueView::Text(text));
        }
    }
}

/// Pulling a relation leaves none to that user and no field changed.
proof fn lemma_unrelated(user: Document, user_id: Seq<char>)
    ensures
        !relates_to(unrelated(user, user_id), user_id),
        unrelated(user, user_id).fields == user.fields,
{
    if relates_to(user, user_id) {
        let pred = apart_from(user_id);
        let list = user.lists["relations"@];
        broadcast use vstd::seq_lib::group_filter_ensures;

        let kept = list.filter(pred);
        assert forall|i: int| 0 <= i < kept.len() implies !(#[trigger] kept[i]).contains_pair(
            "_id"@,
            user_id,
        ) by {
            assert(pred(kept[i]));
        }
    }
}

/// Being owned through imagery or a loose upload needs no list of messages.
proof fn lemma_owned_without_messages(
    attachment: Document,
    user_id: Seq<char>,
    message_ids: Seq<Seq<char>>,
)
    requires
        picks(
            FilterView { all: Seq::empty(), any: owned_attachments(user_id, Seq::empty()) },
            attachment,
        ),
    ensures
        picks(
            FilterView { all: Seq::empty(), any: owned_attachments(user_id, message_ids) },
            attachment,
        ),
{
    let few = owned_attachments(user_id, Seq::empty());
    let many = owned_attachments(user_id, message_ids);
    let g = choose|g: int| 0 <= g < few.len() && meets_all(attachment, #[trigger] few[g]);
    if g == 1 {
        assert(few[1][0] == reads_one_of("used_for.id"@, Seq::empty()));
        assert(meets(attachment, few[1][0]));
        assert(false);
    }
    assert(many[g] == few[g]);
    assert(meets_all(attachment, many[g]));
}

/// The mark of deletion does not change what an attachment is owned through.
proof fn lemma_mark_keeps_owned(attachment: Document, user_id: Seq<char>)
    ensures
        picks(
            FilterView { all: Seq::empty(), any: owned_attachments(user_id, Seq::empty()) },
            changed(attachment, deletion_mark()),
        ) == picks(
            FilterView { all: Seq::empty(), any: owned_attachments(user_id, Seq::empty()) },
            attachment,
        ),
{
    reveal_strlit("deleted");
    reveal_strlit("used_for.type");
    reveal_strlit("used_for.id");
    reveal_strlit("uploader_id");
    reveal_strlit("used_for");
    assert("deleted"@.len() == 7);
    assert("used_for.type"@.len() == 13);
    assert("used_for.id"@.len() == 11);
    assert("uploader_id"@.len() == 11);
    assert("used_for"@.len() == 8);
    let any = owned_attachments(user_id, Seq::empty());
    let marked = changed(attachment, deletion_mark());
    assert forall|path: Seq<char>| path != "deleted"@ implies values(marked, path)
        == #[trigger] values(attachment, path) by {}
    let uses = seq!["UserAvatar"@, "UserProfileBackground"@];
    assert(any[0][0] == reads_one_of("used_for.type"@, uses));
    assert(any[0][1] == reads("used_for.id"@, user_id));
    assert(any[1][0] == reads_one_of("used_for.id"@, Seq::empty()));
    assert(any[2][0] == reads("uploader_id"@, user_id));
    assert(any[2][1] == (ConditionView { path: "used_for"@, test: TestView::Absent }));
    assert(shows_one_of(marked, "used_for.type"@, uses) == shows_one_of(
        attachment,
        "used_for.type"@,
        uses,
    ));
    assert(meets(marked, any[0][0]) == meets(attachment, any[0][0]));
    assert(meets(marked, any[0][1]) == meets(attachment, any[0][1]));
    assert(meets(marked, any[1][0]) == meets(attachment, any[1][0]));
    assert(meets(marked, any[2][0]) == meets(attachment, any[2][0]));
    assert(meets(marked, any[2][1]) == meets(attachment, any[2][1]));
    assert forall|g: int| 0 <= g < any.len() implies meets_all(marked, #[trigger] any[g])
        == meets_all(attachment, any[g]) by {
        assert(any[0].len() == 2 && any[1].len() == 1 && any[2].len() == 2);
        assert forall|i: int| 0 <= i < any[g].len() implies meets(marked, #[trigger] any[g][i])
            == meets(attachment, any[g][i]) by {}
    }
}

/// Erasure takes what belongs to a user: after a completed pass nothing in the database
/// belongs to them, describes them or names them, and their attachments are marked for the
/// file janitor. What is scrubbed names the system sentinel, which stands for nobody.
pub proof fn law_erasure_takes_their_content(
    database: Database,
    user_id: Seq<char>,
    replies: Seq<ReplyView>,
    cleanup: Cleanup,
)
    requires
        completed(database, user_id, replies, cleanup),
        spares(cleanup),
        identified(database),
    ensures
        forgets(remains(database, user_id, replies, cleanup), user_id),
{
    let after = remains(database, user_id, replies, cleanup);
    let pass = ending(database, user_id, replies, cleanup);
    lemma_completed(database, user_id, replies, cleanup);
    lemma_names_differ();
    lemma_forgets_messages(database, user_id, replies, cleanup);
    lemma_forgets_channels(database, user_id, replies, cleanup);
    lemma_picks_one("_id.user"@, user_id);
    lemma_picks_one("creator"@, user_id);
    lemma_picks_one("claimed_by"@, user_id);
    lemma_picks_one("owner"@, user_id);
    let loose = FilterView { all: Seq::empty(), any: owned_attachments(user_id, Seq::empty()) };
    let attachments = after("attachments"@);
    assert forall|key: int| #[trigger] attachments.contains_key(key) && picks(
        loose,
        attachments[key],
    ) implies values(attachments[key], "deleted"@) == seq![ValueView::Flag(true)] by {
        let was = database("attachments"@)[key];
        lemma_mark_keeps_owned(was, user_id);
        lemma_owned_without_messages(was, user_id, pass.message_ids);
        assert(attachments[key] == changed(was, deletion_mark()));
    }
    let invites = after("invites"@);
    assert forall|key: int| #[trigger] invites.contains_key(key) implies !shows(
        invites[key],
        "claimed_by"@,
        user_id,
    ) by {}
    let users = after("users"@);
    assert forall|key: int| #[trigger] users.contains_key(key) implies {
        &&& !shows(users[key], "_id"@, user_id)
        &&& !relates_to(users[key], user_id)
    } by {
        let was = database("users"@)[key];
        assert(users[key] == unrelated(was, user_id));
        lemma_unrelated(was, user_id);
    }
}

/// Whether a message stands in a channel that is private to a user.
pub open spec fn in_private_channel(
    database: Database,
    message: Document,
    user_id: Seq<char>,
) -> bool {
    exists|key: int, id: Seq<char>|
        #![trigger picked(database("channels"@), private_to(user_id)).contains(key), shows(message, "channel"@, id)]
        picked(database("channels"@), private_to(user_id)).contains(key) && shows(
            database("channels"@)[key],
            "_id"@,
            id,
        ) && shows(message, "channel"@, id)
}

/// An invite without the user who claimed it.
pub open spec fn released(invite: Document, user_id: Seq<char>) -> Document {
    if shows(invite, "claimed_by"@, user_id) {
        changed(invite, ChangeView::Remove { path: "claimed_by"@ })
    } else {
        invite
    }
}

/// Whether a pass names a collection, itself or through what hangs off channels.
pub open spec fn is_named(name: Seq<char>) -> bool {
    ||| name == "messages"@
    ||| name == "attachments"@
    ||| name == "channels"@
    ||| name == "server_members"@
    ||| name == "channel_unreads"@
    ||| name == "channel_invites"@
    ||| name == "invites"@
    ||| name == "bots"@
    ||| name == "users"@
    ||| name == "sessions"@
    ||| name == "webhooks"@
}

/// Whether a user is a bot that another user owns.
pub open spec fn bot_of(database: Database, user: Document, user_id: Seq<char>) -> bool {
    exists|key: int, id: Seq<char>|
        #![trigger database("bots"@).contains_key(key), shows(user, "_id"@, id)]
        database("bots"@).contains_key(key) && shows(database("bots"@)[key], "owner"@, user_id)
            && shows(database("bots"@)[key], "_id"@, id) && shows(user, "_id"@, id)
}

/// Erasure leaves everyone else alone: a completed pass keeps every message that the user
/// neither wrote nor is the subject of nor shared a private channel with, and changes it only
/// where it names them as the actor; it keeps every other user but their bots, and changes one
/// only where they list the user; it keeps every channel that is not private to them, and
/// changes one only where it is a group with them in it; it keeps every attachment, and changes
/// only owned ones; it keeps every other session, and every invite, spent as it is; and it does
/// not touch a collection that it does not name, bans, safety records and consent among them.
pub proof fn law_erasure_leaves_everyone_else_alone(
    database: Database,
    user_id: Seq<char>,
    replies: Seq<ReplyView>,
    cleanup: Cleanup,
)
    requires
        completed(database, user_id, replies, cleanup),
        spares(cleanup),
        identified(database),
    ensures
        ({
            let after = remains(database, user_id, replies, cleanup);
            let pass = ending(database, user_id, replies, cleanup);
            &&& forall|key: int| #[trigger]
                database("messages"@).contains_key(key) && !shows(
                    database("messages"@)[key],
                    "author"@,
                    user_id,
                ) && !picks(about_user(user_id), database("messages"@)[key])
                    && !in_private_channel(database, database("messages"@)[key], user_id)
                    ==> after("messages"@).contains_key(key) && after("messages"@)[key] == scrubbed(
                    database("messages"@)[key],
                    user_id,
                )
            &&& forall|key: int| #[trigger]
                database("users"@).contains_key(key) && !shows(
                    database("users"@)[key],
                    "_id"@,
                    user_id,
                ) && !bot_of(database, database("users"@)[key], user_id) ==> after(
                    "users"@,
                ).contains_key(key) && after("users"@)[key] == unrelated(
                    database("users"@)[key],
                    user_id,
                )
            &&& forall|key: int| #[trigger]
                database("channels"@).contains_key(key) && !picks(
                    private_to(user_id),
                    database("channels"@)[key],
                ) ==> after("channels"@).contains_key(key) && after("channels"@)[key] == departed(
                    database("channels"@)[key],
                    user_id,
                )
            &&& forall|key: int| #[trigger]
                database("attachments"@).contains_key(key) ==> after("attachments"@).contains_key(
                    key,
                ) && (picks(owned(pass), database("attachments"@)[key]) || after(
                    "attachments"@,
                )[key] == database("attachments"@)[key])
            &&& forall|key: int| #[trigger]
                database("bots"@).contains_key(key) && !shows(
                    database("bots"@)[key],
                    "owner"@,
                    user_id,
                ) ==> after("bots"@).contains_pair(key, database("bots"@)[key])
            &&& forall|key: int| #[trigger]
                database("server_members"@).contains_key(key) && !shows(
                    database("server_members"@)[key],
                    "_id.user"@,
                    user_id,
                ) ==> after("server_members"@).contains_pair(key, database("server_members"@)[key])
            &&& forall|key: int| #[trigger]
                database("sessions"@).contains_key(key) && !shows(
                    database("sessions"@)[key],
                    "user_id"@,
                    user_id,
                ) && !session_of_bot(database, database("sessions"@)[key], user_id) ==> after(
                    "sessions"@,
                ).contains_pair(key, database("sessions"@)[key])
            &&& forall|key: int| #[trigger]
                database("invites"@).contains_key(key) ==> after("invites"@).contains_pair(
                    key,
                    released(database("invites"@)[key], user_id),
                )
            &&& forall|name: Seq<char>|
                #![trigger after(name)]
                !is_named(name) ==> after(name) == database(name)
            &&& after("server_bans"@) == database("server_bans"@)
            &&& after("safety_reports"@) == database("safety_reports"@)
            &&& after("safety_strikes"@) == database("safety_strikes"@)
            &&& after("safety_snapshots"@) == database("safety_snapshots"@)
            &&& after("erasure_log"@) == database("erasure_log"@)
            &&& after("consent_records"@) == database("consent_records"@)
            &&& lists_ids(database("messages"@), authored(user_id), pass.message_ids)
            &&& lists_ids(database("channels"@), private_to(user_id), pass.private_channels)
        }),
{
    let after = remains(database, user_id, replies, cleanup);
    let pass = ending(database, user_id, replies, cleanup);
    lemma_completed(database, user_id, replies, cleanup);
    lemma_names_differ();
    lemma_kept_collections();
    lemma_picks_one("owner"@, user_id);
    lemma_picks_one("_id.user"@, user_id);
    lemma_picks_one("claimed_by"@, user_id);
    lemma_listed_channels(database, user_id, pass.private_channels);
    lemma_of_listed_bot(database, user_id, pass.bot_ids);
    lemma_in_listed_channel(database, user_id, pass.private_channels);
    let messages = database("messages"@);
    assert forall|key: int| #[trigger]
        messages.contains_key(key) && !shows(messages[key], "author"@, user_id) && !picks(
            about_user(user_id),
            messages[key],
        ) && !in_private_channel(database, messages[key], user_id) implies after(
        "messages"@,
    ).contains_key(key) && after("messages"@)[key] == scrubbed(messages[key], user_id) by {
        assert(!shows_one_of(messages[key], "channel"@, pass.private_channels));
    }
    let users = database("users"@);
    assert forall|key: int| #[trigger]
        users.contains_key(key) && !shows(users[key], "_id"@, user_id) && !bot_of(
            database,
            users[key],
            user_id,
        ) implies after("users"@).contains_key(key) && after("users"@)[key] == unrelated(
        users[key],
        user_id,
    ) by {
        assert(!shows_one_of(users[key], "_id"@, pass.bot_ids));
    }
    let sessions = database("sessions"@);
    assert forall|key: int| #[trigger]
        sessions.contains_key(key) && !shows(sessions[key], "user_id"@, user_id)
            && !session_of_bot(database, sessions[key], user_id) implies after(
        "sessions"@,
    ).contains_pair(key, sessions[key]) by {
        assert(!shows_one_of(sessions[key], "user_id"@, pass.bot_ids));
    }
}

/// Whether an attachment belongs to a user: as their imagery, as an upload that they never
/// attached to anything, or on a message that they wrote.
pub open spec fn belongs_to(database: Database, attachment: Document, user_id: Seq<char>) -> bool {
    ||| picks(
        FilterView { all: Seq::empty(), any: owned_attachments(user_id, Seq::empty()) },
        attachment,
    )
    ||| exists|key: int, id: Seq<char>|
        #![trigger picked(database("messages"@), authored(user_id)).contains(key), shows(attachment, "used_for.id"@, id)]
        picked(database("messages"@), authored(user_id)).contains(key) && shows(
            database("messages"@)[key],
            "_id"@,
            id,
        ) && shows(attachment, "used_for.id"@, id)
}

/// The attachments that are owned through listed messages are those that belong to the user.
proof fn lemma_belongs_to(
    database: Database,
    attachment: Document,
    user_id: Seq<char>,
    ids: Seq<Seq<char>>,
)
    requires
        lists_ids(database("messages"@), authored(user_id), ids),
    ensures
        picks(FilterView { all: Seq::empty(), any: owned_attachments(user_id, ids) }, attachment)
            == belongs_to(database, attachment, user_id),
{
    let none = Seq::<Seq<char>>::empty();
    let few = owned_attachments(user_id, none);
    let many = owned_attachments(user_id, ids);
    let messages = database("messages"@);
    let wrote = picked(messages, authored(user_id));
    assert(many[1][0] == reads_one_of("used_for.id"@, ids));
    assert(meets(attachment, many[1][0]) == shows_one_of(attachment, "used_for.id"@, ids));
    assert(meets_all(attachment, many[1]) == meets(attachment, many[1][0]));
    let filter = FilterView { all: Seq::empty(), any: many };
    if picks(filter, attachment) {
        let g = choose|g: int| 0 <= g < many.len() && meets_all(attachment, #[trigger] many[g]);
        if g == 1 {
            let id = choose|id: Seq<char>| #[trigger]
                ids.contains(id) && shows(attachment, "used_for.id"@, id);
            let key = choose|key: int| #[trigger]
                wrote.contains(key) && shows(messages[key], "_id"@, id);
            assert(wrote.contains(key) && shows(attachment, "used_for.id"@, id));
        } else {
            assert(few[g] == many[g]);
            assert(meets_all(attachment, few[g]));
        }
    }
    if belongs_to(database, attachment, user_id) {
        if picks(FilterView { all: Seq::empty(), any: few }, attachment) {
            lemma_owned_without_messages(attachment, user_id, ids);
        } else {
            let (key, id) = choose|key: int, id: Seq<char>|
                #![trigger wrote.contains(key), shows(attachment, "used_for.id"@, id)]
                wrote.contains(key) && shows(messages[key], "_id"@, id) && shows(
                    attachment,
                    "used_for.id"@,
                    id,
                );
            assert(ids.contains(id));
            assert(meets_all(attachment, many[1]));
        }
    }
}

/// Whether what hung on a user in one database is dealt with in another: the messages in
/// channels that are private to them are gone, whoever wrote them, and so are the channels
/// themselves and the users and sessions of their bots; their attachments are marked for the
/// file janitor; and an invite that they claimed stays, spent as it is, without their name.
pub open spec fn settled(before: Database, after: Database, user_id: Seq<char>) -> bool {
    &&& forall|key: int| #[trigger]
        before("messages"@).contains_key(key) && in_private_channel(
            before,
            before("messages"@)[key],
            user_id,
        ) ==> !after("messages"@).contains_key(key)
    &&& forall|key: int| #[trigger]
        before("channels"@).contains_key(key) && picks(
            private_to(user_id),
            before("channels"@)[key],
        ) ==> !after("channels"@).contains_key(key)
    &&& forall|key: int| #[trigger]
        before("users"@).contains_key(key) && bot_of(before, before("users"@)[key], user_id)
            ==> !after("users"@).contains_key(key)
    &&& forall|key: int| #[trigger]
        before("sessions"@).contains_key(key) && session_of_bot(
            before,
            before("sessions"@)[key],
            user_id,
        ) ==> !after("sessions"@).contains_key(key)
    &&& forall|key: int| #[trigger]
        before("attachments"@).contains_key(key) && belongs_to(
            before,
            before("attachments"@)[key],
            user_id,
        ) ==> after("attachments"@).contains_pair(
            key,
            changed(before("attachments"@)[key], deletion_mark()),
        )
    &&& forall|key: int| #[trigger]
        before("invites"@).contains_key(key) ==> after("invites"@).contains_pair(
            key,
            released(before("invites"@)[key], user_id),
        )
}

/// Erasure takes what hangs on a user, too: a completed pass leaves it settled.
pub proof fn law_erasure_takes_what_hangs_on_them(
    database: Database,
    user_id: Seq<char>,
    replies: Seq<ReplyView>,
    cleanup: Cleanup,
)
    requires
        completed(database, user_id, replies, cleanup),
        spares(cleanup),
        identified(database),
    ensures
        settled(database, remains(database, user_id, replies, cleanup), user_id),
{
    let pass = ending(database, user_id, replies, cleanup);
    lemma_completed(database, user_id, replies, cleanup);
    lemma_names_differ();
    lemma_picks_one("claimed_by"@, user_id);
    lemma_listed_channels(database, user_id, pass.private_channels);
    lemma_of_listed_bot(database, user_id, pass.bot_ids);
    lemma_in_listed_channel(database, user_id, pass.private_channels);
    let after = remains(database, user_id, replies, cleanup);
    let messages = database("messages"@);
    assert forall|key: int| #[trigger]
        messages.contains_key(key) && in_private_channel(
            database,
            messages[key],
            user_id,
        ) implies !after("messages"@).contains_key(key) by {
        assert(shows_one_of(messages[key], "channel"@, pass.private_channels));
    }
    let users = database("users"@);
    assert forall|key: int| #[trigger]
        users.contains_key(key) && bot_of(database, users[key], user_id) implies !after(
        "users"@,
    ).contains_key(key) by {
        assert(shows_one_of(users[key], "_id"@, pass.bot_ids));
    }
    let sessions = database("sessions"@);
    assert forall|key: int| #[trigger]
        sessions.contains_key(key) && session_of_bot(
            database,
            sessions[key],
            user_id,
        ) implies !after("sessions"@).contains_key(key) by {
        assert(shows_one_of(sessions[key], "user_id"@, pass.bot_ids));
    }
    let attachments = database("attachments"@);
    assert forall|key: int| #[trigger]
        attachments.contains_key(key) && belongs_to(
            database,
            attachments[key],
            user_id,
        ) implies after("attachments"@).contains_pair(
        key,
        changed(attachments[key], deletion_mark()),
    ) by {
        lemma_belongs_to(database, attachments[key], user_id, pass.message_ids);
    }
}

/// The collections that a pass never touches are none of those that it names.
proof fn lemma_kept_collections()
    ensures
        !is_named("server_bans"@),
        !is_named("safety_reports"@),
        !is_named("safety_strikes"@),
        !is_named("safety_snapshots"@),
        !is_named("erasure_log"@),
        !is_named("consent_records"@),
{
    reveal_strlit("messages");
    reveal_strlit("attachments");
    reveal_strlit("channels");
    reveal_strlit("server_members");
    reveal_strlit("channel_unreads");
    reveal_strlit("channel_invites");
    reveal_strlit("invites");
    reveal_strlit("bots");
    reveal_strlit("users");
    reveal_strlit("sessions");
    reveal_strlit("webhooks");
    reveal_strlit("server_bans");
    reveal_strlit("safety_reports");
    reveal_strlit("safety_strikes");
    reveal_strlit("safety_snapshots");
    reveal_strlit("erasure_log");
    reveal_strlit("consent_records");
    assert("server_bans"@.len() == 11);
    assert("server_bans"@[0] == 's');
    assert("attachments"@[0] == 'a');
    assert("safety_reports"@.len() == 14);
    assert("safety_reports"@[1] == 'a');
    assert("safety_strikes"@.len() == 14);
    assert("safety_strikes"@[1] == 'a');
    assert("server_members"@[1] == 'e');
    assert("safety_snapshots"@.len() == 16);
    assert("erasure_log"@.len() == 11);
    assert("erasure_log"@[0] == 'e');
    assert("attachments"@.len() == 11);
    assert("messages"@.len() == 8);
    assert("channels"@.len() == 8);
    assert("server_members"@.len() == 14);
    assert("channel_unreads"@.len() == 15);
    assert("channel_invites"@.len() == 15);
    assert("invites"@.len() == 7);
    assert("bots"@.len() == 4);
    assert("users"@.len() == 5);
    assert("sessions"@.len() == 8);
    assert("webhooks"@.len() == 8);
    assert("consent_records"@.len() == 15);
    assert("consent_records"@[1] == 'o');
    assert("channel_unreads"@[1] == 'h');
    assert("channel_invites"@[1] == 'h');
}

/// What merely names the user as the actor of something that happened to somebody else is kept
/// with the reference replaced by the system sentinel, never deleted.
pub proof fn law_erasure_scrubs_the_actor(
    database: Database,
    user_id: Seq<char>,
    replies: Seq<ReplyView>,
    cleanup: Cleanup,
    key: int,
)
    requires
        completed(database, user_id, replies, cleanup),
        spares(cleanup),
        identified(database),
        database("messages"@).contains_key(key),
        !shows(database("messages"@)[key], "author"@, user_id),
        !shows(database("messages"@)[key], "system.id"@, user_id),
        !in_private_channel(database, database("messages"@)[key], user_id),
        shows(database("messages"@)[key], "system.by"@, user_id),
    ensures
        ({
            let after = remains(database, user_id, replies, cleanup)("messages"@);
            &&& after.contains_key(key)
            &&& values(after[key], "system.by"@) == seq![ValueView::Text(SYSTEM_USER_ID@)]
        }),
{
    law_erasure_leaves_everyone_else_alone(database, user_id, replies, cleanup);
    lemma_picks_about(user_id);
    lemma_paths_differ();
}

/// A report counts what was there, all of it: the attachments held for a safety review and
/// those marked; the messages that the user wrote, those about them, and those that went with a
/// private channel; the private channels; the groups left; memberships, unread markers, invites,
/// bots, relations, sessions, and the references to them as the actor.
pub proof fn law_erasure_report_counts(
    database: Database,
    user_id: Seq<char>,
    replies: Seq<ReplyView>,
    cleanup: Cleanup,
)
    requires
        completed(database, user_id, replies, cleanup),
        spares(cleanup),
        identified(database),
    ensures
        ({
            let pass = ending(database, user_id, replies, cleanup);
            &&& pass.user_id == user_id
            &&& pass.report == report_of(database, pass, cleanup)
            &&& lists_ids(database("messages"@), authored(user_id), pass.message_ids)
            &&& lists_ids(database("channels"@), private_to(user_id), pass.private_channels)
        }),
{
    lemma_completed(database, user_id, replies, cleanup);
    let pass = ending(database, user_id, replies, cleanup);
    assert(pass.report =~= report_of(database, pass, cleanup));
}

/// Every command of a pass but the last is over before the user document goes: the pass moves
/// forward with every reply, asks for the removal of the user exactly at the stage that only
/// the end follows, and no other command deletes one document by itself.
pub proof fn law_identity_goes_last(pass: PassView, reply: ReplyView)
    requires
        pass.stage != Stage::Finished,
    ensures
        rank(advanced(pass, reply).stage) > rank(pass.stage),
        command_of(pass) is Some,
        command_of(pass)->0 is DeleteOne <==> pass.stage == Stage::DeleteUser,
        pass.stage == Stage::DeleteUser <==> advanced(pass, reply).stage == Stage::Finished,
{
}

/// Whether a pass has found nothing and counted nothing but attachments.
pub open spec fn quiet(pass: PassView) -> bool {
    let report = pass.report;
    &&& report.user_id == pass.user_id
    &&& pass.message_ids.len() == 0
    &&& pass.private_channels.len() == 0
    &&& pass.bot_ids.len() == 0
    &&& !(10 <= rank(pass.stage) <= 12)
    &&& !(19 <= rank(pass.stage) <= 21)
    &&& report.messages_deleted == 0
    &&& report.channels_deleted == 0
    &&& report.groups_departed == 0
    &&& report.memberships_deleted == 0
    &&& report.unreads_deleted == 0
    &&& report.invites_deleted == 0
    &&& report.bots_deleted == 0
    &&& report.relations_pulled == 0
    &&& report.sessions_deleted == 0
    &&& report.system_references_scrubbed == 0
}

proof fn lemma_nothing_picked(collection: Collection, filter: FilterView)
    requires
        forall|key: int| #[trigger]
            collection.contains_key(key) ==> !picks(filter, collection[key]),
    ensures
        picked(collection, filter).len() == 0,
        without(collection, filter) == collection,
        without_one(collection, filter) == collection,
        forall|change: ChangeView|
            #![trigger with_changed(collection, filter, change)]
            with_changed(collection, filter, change) == collection,
        forall|change: ChangeView|
            #![trigger altered(collection, filter, change)]
            altered(collection, filter, change).len() == 0,
        forall|ids: Seq<Seq<char>>| #[trigger]
            lists_ids(collection, filter, ids) ==> ids.len() == 0,
{
    assert(picked(collection, filter) =~= Set::empty());
    assert(without(collection, filter) =~= collection);
    assert forall|change: ChangeView|
        #![trigger with_changed(collection, filter, change)]
        with_changed(collection, filter, change) == collection by {
        assert(with_changed(collection, filter, change) =~= collection);
    }
    assert forall|change: ChangeView|
        #![trigger altered(collection, filter, change)]
        altered(collection, filter, change).len() == 0 by {
        assert(altered(collection, filter, change) =~= Set::empty());
    }
    assert forall|ids: Seq<Seq<char>>| #[trigger]
        lists_ids(collection, filter, ids) implies ids.len() == 0 by {
        if ids.len() > 0 {
            assert(ids.contains(ids[0]));
        }
    }
}

proof fn lemma_nothing_to_scrub(collection: Collection, field: Seq<char>, user_id: Seq<char>)
    requires
        forall|key: int| #[trigger]
            collection.contains_key(key) ==> unnamed_in(collection[key], field, user_id),
    ensures
        ({
            let filter = meeting(seq![reads(field, user_id)]);
            let change = ChangeView::Write {
                path: field,
                value: ValueView::Text(SYSTEM_USER_ID@),
            };
            &&& with_changed(collection, filter, change) == collection
            &&& altered(collection, filter, change).len() == 0
        }),
{
    let filter = meeting(seq![reads(field, user_id)]);
    let change = ChangeView::Write { path: field, value: ValueView::Text(SYSTEM_USER_ID@) };
    lemma_picks_one(field, user_id);
    assert forall|key: int| #[trigger] collection.contains_key(key) && picks(
        filter,
        collection[key],
    ) implies changed(collection[key], change) == collection[key] by {
        assert(collection[key].fields.contains_key(field));
        assert(changed(collection[key], change).fields =~= collection[key].fields);
    }
    assert(with_changed(collection, filter, change) =~= collection);
    assert(altered(collection, filter, change) =~= Set::empty());
}

proof fn lemma_replaced_by_itself(database: Database, name: Seq<char>)
    ensures
        replaced(database, name, database(name)) == database,
{
    assert(replaced(database, name, database(name)) =~= database);
}

proof fn lemma_quiet_step(
    database: Database,
    pass: PassView,
    reply: ReplyView,
    cleanup: Cleanup,
)
    requires
        pass.stage != Stage::Finished,
        quiet(pass),
        forgets(database, pass.user_id),
        answers(database, command_of(pass)->0, reply),
    ensures
        executed(database, command_of(pass)->0, cleanup) == database,
        quiet(advanced(pass, reply)),
{
    let u = pass.user_id;
    match pass.stage {
        Stage::ListMessages | Stage::DeleteAuthored => {
            lemma_picks_one("author"@, u);
            lemma_nothing_picked(database("messages"@), authored(u));
            lemma_replaced_by_itself(database, "messages"@);
        },
        Stage::MarkAttachments => {
            assert(pass.message_ids =~= Seq::empty());
            let c = database("attachments"@);
            let marked = with_changed(c, owned(pass), deletion_mark());
            assert forall|key: int| #[trigger] c.contains_key(key) && picks(
                owned(pass),
                c[key],
            ) implies changed(c[key], deletion_mark()) == c[key] by {
                assert(c[key].fields.contains_key("deleted"@)) by {
                    assert(values(c[key], "deleted"@).len() == 1);
                }
                assert(changed(c[key], deletion_mark()).fields =~= c[key].fields);
            }
            assert(marked =~= c);
            lemma_replaced_by_itself(database, "attachments"@);
        },
        Stage::DeleteAbout => {
            lemma_nothing_picked(database("messages"@), about_user(u));
            lemma_replaced_by_itself(database, "messages"@);
        },
        Stage::ScrubBy => {
            lemma_nothing_to_scrub(database("messages"@), "system.by"@, u);
            lemma_replaced_by_itself(database, "messages"@);
        },
        Stage::ScrubFrom => {
            lemma_nothing_to_scrub(database("messages"@), "system.from"@, u);
            lemma_replaced_by_itself(database, "messages"@);
        },
        Stage::ScrubTo => {
            lemma_nothing_to_scrub(database("messages"@), "system.to"@, u);
            lemma_replaced_by_itself(database, "messages"@);
        },
        Stage::ListPrivate => {
            lemma_nothing_picked(database("channels"@), private_to(u));
        },
        Stage::LeaveGroups => {
            let filter = meeting(
                seq![reads("channel_type"@, "Group"@), reads("recipients"@, u)],
            );
            assert forall|d: Document| #[trigger] picks(filter, d) == group_with(d, u) by {
                assert(filter.all[0] == reads("channel_type"@, "Group"@));
                assert(filter.all[1] == reads("recipients"@, u));
                assert(meets(d, filter.all[0]) == shows(d, "channel_type"@, "Group"@));
                assert(meets(d, filter.all[1]) == shows(d, "recipients"@, u));
            }
            lemma_nothing_picked(database("channels"@), filter);
            lemma_replaced_by_itself(database, "channels"@);
        },
        Stage::DeleteMemberships => {
            lemma_picks_one("_id.user"@, u);
            lemma_nothing_picked(
                database("server_members"@),
                meeting(seq![reads("_id.user"@, u)]),
            );
            lemma_replaced_by_itself(database, "server_members"@);
        },
        Stage::DeleteUnreads => {
            lemma_picks_one("_id.user"@, u);
            lemma_nothing_picked(
                database("channel_unreads"@),
                meeting(seq![reads("_id.user"@, u)]),
            );
            lemma_replaced_by_itself(database, "channel_unreads"@);
        },
        Stage::DeleteInvites => {
            lemma_picks_one("creator"@, u);
            lemma_nothing_picked(database("channel_invites"@), meeting(seq![reads("creator"@, u)]));
            lemma_replaced_by_itself(database, "channel_invites"@);
        },
        Stage::ReleaseInvites => {
            lemma_picks_one("claimed_by"@, u);
            lemma_nothing_picked(database("invites"@), meeting(seq![reads("claimed_by"@, u)]));
            lemma_replaced_by_itself(database, "invites"@);
        },
        Stage::ListBots => {
            lemma_picks_one("owner"@, u);
            lemma_nothing_picked(database("bots"@), meeting(seq![reads("owner"@, u)]));
        },
        Stage::PullRelations => {
            let condition = ConditionView {
                path: "relations"@,
                test: TestView::HasElement(seq![("_id"@, u)]),
            };
            let filter = meeting(seq![condition]);
            assert forall|d: Document| #[trigger] picks(filter, d) == relates_to(d, u) by {
                lemma_picks_relation(d, u);
            }
            lemma_nothing_picked(database("users"@), filter);
            lemma_replaced_by_itself(database, "users"@);
        },
        Stage::DeleteSessions => {
            lemma_picks_one("user_id"@, u);
            lemma_nothing_picked(database("sessions"@), meeting(seq![reads("user_id"@, u)]));
            lemma_replaced_by_itself(database, "sessions"@);
        },
        Stage::DeleteUser => {
            lemma_picks_one("_id"@, u);
            lemma_nothing_picked(database("users"@), meeting(seq![reads("_id"@, u)]));
            lemma_replaced_by_itself(database, "users"@);
        },
        _ => {},
    }
}

proof fn lemma_quiet(
    database: Database,
    pass: PassView,
    replies: Seq<ReplyView>,
    cleanup: Cleanup,
)
    requires
        quiet(pass),
        forgets(database, pass.user_id),
        truthful(database, pass, replies, cleanup),
    ensures
        ran(database, pass, replies, cleanup).0 == database,
        quiet(ran(database, pass, replies, cleanup).1),
        ran(database, pass, replies, cleanup).1.user_id == pass.user_id,
    decreases replies.len(),
{
    if replies.len() != 0 && command_of(pass) is Some {
        lemma_quiet_step(database, pass, replies[0], cleanup);
        lemma_quiet(database, advanced(pass, replies[0]), replies.drop_first(), cleanup);
    }
}

/// Erasure is safe to repeat: a second pass, after a completed one, changes nothing and
/// reports no deletion, no departure and no scrub, whoever the user is. How much of it was
/// carried out does not matter.
pub proof fn law_erasure_repeats_cleanly(
    database: Database,
    user_id: Seq<char>,
    replies: Seq<ReplyView>,
    again: Seq<ReplyView>,
    cleanup: Cleanup,
)
    requires
        completed(database, user_id, replies, cleanup),
        spares(cleanup),
        identified(database),
        truthful(remains(database, user_id, replies, cleanup), first(user_id), again, cleanup),
    ensures
        ({
            let after = remains(database, user_id, replies, cleanup);
            &&& remains(after, user_id, again, cleanup) == after
            &&& quiet(ending(after, user_id, again, cleanup))
            &&& ending(after, user_id, again, cleanup).report.user_id == user_id
        }),
{
    law_erasure_takes_their_content(database, user_id, replies, cleanup);
    lemma_quiet(
        remains(database, user_id, replies, cleanup),
        first(user_id),
        again,
        cleanup,
    );
}

/// What a pass leaves at any stage can be told apart as well as what it began with.
proof fn lemma_stays_identified(database: Database, pass: PassView, cleanup: Cleanup)
    requires
        identified(database),
    ensures
        identified(reached(database, pass, cleanup)),
{
    let left = reached(database, pass, cleanup);
    let u = pass.user_id;
    lemma_names_differ();
    lemma_paths_differ();
    let bots = left("bots"@);
    assert forall|key: int| #[trigger] bots.contains_key(key) implies has_some_id(bots[key]) by {
        assert(database("bots"@).contains_key(key));
    }
    let channels = left("channels"@);
    assert forall|key: int| #[trigger] channels.contains_key(key) implies values(
        channels[key],
        "_id"@,
    ) == values(database("channels"@)[key], "_id"@) && database("channels"@).contains_key(key) by {
        lemma_departed(database("channels"@)[key], u);
    }
    assert forall|key: int| #[trigger] channels.contains_key(key) implies has_some_id(
        channels[key],
    ) by {
        let was = database("channels"@)[key];
        assert(has_some_id(was));
        let id = choose|id: Seq<char>| shows(was, "_id"@, id);
        assert(shows(channels[key], "_id"@, id));
    }
    let users = left("users"@);
    assert forall|key: int| #[trigger] users.contains_key(key) implies values(users[key], "_id"@)
        == values(database("users"@)[key], "_id"@) && database("users"@).contains_key(key) by {
        lemma_unrelated(database("users"@)[key], u);
    }
    assert forall|a: int, b: int, id: Seq<char>|
        #![trigger shows(users[a], "_id"@, id), shows(users[b], "_id"@, id)]
        users.contains_key(a) && users.contains_key(b) && shows(users[a], "_id"@, id) && shows(
            users[b],
            "_id"@,
            id,
        ) implies a == b by {
        assert(shows(database("users"@)[a], "_id"@, id));
        assert(shows(database("users"@)[b], "_id"@, id));
    }
    assert forall|a: int, b: int, id: Seq<char>|
        #![trigger shows(channels[a], "_id"@, id), shows(channels[b], "_id"@, id)]
        channels.contains_key(a) && channels.contains_key(b) && shows(channels[a], "_id"@, id)
            && shows(channels[b], "_id"@, id) implies a == b by {
        assert(shows(database("channels"@)[a], "_id"@, id));
        assert(shows(database("channels"@)[b], "_id"@, id));
    }
}

/// What a pass that was interrupted has not dealt with can still be found in what it left.
proof fn lemma_settled_by_repeating(
    database: Database,
    pass: PassView,
    after: Database,
    again: PassView,
    cleanup: Cleanup,
)
    requires
        pass.stage != Stage::Finished,
        again.stage == Stage::Finished,
        again.user_id == pass.user_id,
        spares(cleanup),
        identified(database),
        informed(database, pass, cleanup),
        after == reached(reached(database, pass, cleanup), again, cleanup),
        informed(reached(database, pass, cleanup), again, cleanup),
        settled(reached(database, pass, cleanup), after, pass.user_id),
    ensures
        settled(database, after, pass.user_id),
{
    let left = reached(database, pass, cleanup);
    let u = pass.user_id;
    let n = rank(pass.stage);
    lemma_names_differ();
    lemma_paths_differ();
    let private = picked(database("channels"@), private_to(u));
    if n <= 12 {
        assert(left("channels"@) =~= database("channels"@));
    }
    if n > 9 {
        lemma_in_listed_channel(database, u, pass.private_channels);
        lemma_listed_channels(database, u, pass.private_channels);
    }
    let messages = database("messages"@);
    assert forall|key: int| #[trigger]
        messages.contains_key(key) && in_private_channel(
            database,
            messages[key],
            u,
        ) implies !after("messages"@).contains_key(key) by {
        if n > 10 {
            assert(shows_one_of(messages[key], "channel"@, pass.private_channels));
        } else if left("messages"@).contains_key(key) {
            let now = left("messages"@)[key];
            assert(values(now, "channel"@) == values(messages[key], "channel"@));
            let (at, id) = choose|at: int, id: Seq<char>|
                #![trigger private.contains(at), shows(messages[key], "channel"@, id)]
                private.contains(at) && shows(database("channels"@)[at], "_id"@, id) && shows(
                    messages[key],
                    "channel"@,
                    id,
                );
            assert(picked(left("channels"@), private_to(u)).contains(at));
            assert(shows(now, "channel"@, id));
            assert(in_private_channel(left, now, u));
        }
    }
    let channels = database("channels"@);
    assert forall|key: int| #[trigger]
        channels.contains_key(key) && picks(private_to(u), channels[key]) implies !after(
        "channels"@,
    ).contains_key(key) by {
        if n <= 12 {
            assert(left("channels"@).contains_key(key));
        }
    }
    if n <= 21 {
        assert(left("bots"@) =~= database("bots"@));
    }
    if n > 18 {
        lemma_of_listed_bot(database, u, pass.bot_ids);
    }
    let users = database("users"@);
    assert forall|key: int| #[trigger]
        users.contains_key(key) && bot_of(database, users[key], u) implies !after(
        "users"@,
    ).contains_key(key) by {
        if n > 19 {
            assert(shows_one_of(users[key], "_id"@, pass.bot_ids));
        } else {
            assert(left("users"@).contains_key(key));
            assert(left("users"@)[key] == users[key]);
            assert(bot_of(left, users[key], u));
        }
    }
    let sessions = database("sessions"@);
    assert forall|key: int| #[trigger]
        sessions.contains_key(key) && session_of_bot(database, sessions[key], u) implies !after(
        "sessions"@,
    ).contains_key(key) by {
        if n > 20 {
            assert(shows_one_of(sessions[key], "user_id"@, pass.bot_ids));
        } else {
            assert(left("sessions"@).contains_key(key));
            assert(session_of_bot(left, sessions[key], u));
        }
    }
    let attachments = database("attachments"@);
    assert forall|key: int| #[trigger]
        attachments.contains_key(key) && belongs_to(database, attachments[key], u) implies after(
        "attachments"@,
    ).contains_pair(key, changed(attachments[key], deletion_mark())) by {
        assert(left("attachments"@).contains_key(key));
        if n > 3 {
            lemma_belongs_to(database, attachments[key], u, pass.message_ids);
            let marked = changed(attachments[key], deletion_mark());
            assert(left("attachments"@)[key] == marked);
            assert(changed(marked, deletion_mark()).fields =~= marked.fields);
        } else {
            assert(left("messages"@) =~= database("messages"@));
            assert(left("attachments"@)[key] == attachments[key]);
            assert(belongs_to(left, attachments[key], u));
        }
    }
    let invites = database("invites"@);
    lemma_picks_one("claimed_by"@, u);
    assert forall|key: int| #[trigger] invites.contains_key(key) implies after(
        "invites"@,
    ).contains_pair(key, released(invites[key], u)) by {
        assert(left("invites"@).contains_key(key));
        assert(left("invites"@)[key] == invites[key] || left("invites"@)[key] == released(
            invites[key],
            u,
        ));
        assert(released(released(invites[key], u), u) == released(invites[key], u));
    }
}

/// An erasure that is interrupted strands nothing: as long as a pass has not come to its end the
/// user document is still there (but for a user who is registered as a bot of their own, whose
/// document goes with their bots), what it left can be told apart as before, and a repeated
/// pass over that, carried through to its end, leaves nothing that belongs to the user,
/// describes them or names them, and settles all that hung on them when the first pass began.
pub proof fn law_interrupted_erasure_strands_nothing(
    database: Database,
    user_id: Seq<char>,
    replies: Seq<ReplyView>,
    again: Seq<ReplyView>,
    cleanup: Cleanup,
)
    requires
        truthful(database, first(user_id), replies, cleanup),
        ending(database, user_id, replies, cleanup).stage != Stage::Finished,
        spares(cleanup),
        identified(database),
        completed(remains(database, user_id, replies, cleanup), user_id, again, cleanup),
    ensures
        ({
            let left = remains(database, user_id, replies, cleanup);
            let after = remains(left, user_id, again, cleanup);
            &&& forall|key: int| #[trigger]
                database("users"@).contains_key(key) && shows(
                    database("users"@)[key],
                    "_id"@,
                    user_id,
                ) && !bot_of(database, database("users"@)[key], user_id) ==> left(
                    "users"@,
                ).contains_key(key) && shows(left("users"@)[key], "_id"@, user_id)
            &&& identified(left)
            &&& forgets(after, user_id)
            &&& settled(database, after, user_id)
        }),
{
    let left = remains(database, user_id, replies, cleanup);
    let pass = ending(database, user_id, replies, cleanup);
    lemma_unbegun(database, user_id, cleanup);
    lemma_ran(database, first(user_id), replies, cleanup);
    lemma_stays_identified(database, pass, cleanup);
    law_erasure_takes_their_content(left, user_id, again, cleanup);
    law_erasure_takes_what_hangs_on_them(left, user_id, again, cleanup);
    lemma_completed(left, user_id, again, cleanup);
    lemma_settled_by_repeating(
        database,
        pass,
        remains(left, user_id, again, cleanup),
        ending(left, user_id, again, cleanup),
        cleanup,
    );
    lemma_names_differ();
    let users = database("users"@);
    if rank(pass.stage) > 18 {
        lemma_of_listed_bot(database, user_id, pass.bot_ids);
    }
    assert forall|key: int| #[trigger]
        users.contains_key(key) && shows(users[key], "_id"@, user_id) && !bot_of(
            database,
            users[key],
            user_id,
        ) implies left("users"@).contains_key(key) && shows(
        left("users"@)[key],
        "_id"@,
        user_id,
    ) by {
        lemma_unrelated(users[key], user_id);
        assert(rank(pass.stage) > 18 ==> !shows_one_of(users[key], "_id"@, pass.bot_ids));
    }
}

/// Whether the deletion of channel objects deletes exactly what hangs on one of the channels.
pub open spec fn clears(
    cleanup: Cleanup,
    hangs: spec_fn(Seq<char>, Seq<char>, Document) -> bool,
) -> bool {
    forall|channels: Seq<Seq<char>>, name: Seq<char>, collection: Collection, key: int|
        #![trigger cleanup(channels, name, collection).contains_key(key)]
        cleanup(channels, name, collection).contains_key(key) <==> collection.contains_key(key)
            && !exists|id: Seq<char>| #[trigger]
            channels.contains(id) && hangs(id, name, collection[key])
}

/// The objects of private channels are not stranded either: whatever hung on a channel that was
/// private to the user when a pass began, an invite, an unread marker or a webhook, is gone
/// after the pass was interrupted and repeated. A pass that was interrupted before it did
/// anything is none.
pub proof fn law_interrupted_erasure_clears_private_channels(
    database: Database,
    user_id: Seq<char>,
    replies: Seq<ReplyView>,
    again: Seq<ReplyView>,
    cleanup: Cleanup,
    hangs: spec_fn(Seq<char>, Seq<char>, Document) -> bool,
    channel: int,
    id: Seq<char>,
    name: Seq<char>,
    key: int,
)
    requires
        truthful(database, first(user_id), replies, cleanup),
        ending(database, user_id, replies, cleanup).stage != Stage::Finished,
        spares(cleanup),
        clears(cleanup, hangs),
        identified(database),
        completed(remains(database, user_id, replies, cleanup), user_id, again, cleanup),
        picked(database("channels"@), private_to(user_id)).contains(channel),
        shows(database("channels"@)[channel], "_id"@, id),
        name == "channel_invites"@ || name == "channel_unreads"@ || name == "webhooks"@,
        database(name).contains_key(key),
        hangs(id, name, database(name)[key]),
    ensures
        !remains(
            remains(database, user_id, replies, cleanup),
            user_id,
            again,
            cleanup,
        )(name).contains_key(key),
{
    let left = remains(database, user_id, replies, cleanup);
    let after = remains(left, user_id, again, cleanup);
    let pass = ending(database, user_id, replies, cleanup);
    let second = ending(left, user_id, again, cleanup);
    lemma_unbegun(database, user_id, cleanup);
    lemma_ran(database, first(user_id), replies, cleanup);
    lemma_stays_identified(database, pass, cleanup);
    lemma_completed(left, user_id, again, cleanup);
    lemma_names_differ();
    if rank(pass.stage) > 11 {
        assert(pass.private_channels.contains(id));
        assert(pass.private_channels.len() > 0);
        assert(!cleanup(pass.private_channels, name, database(name)).contains_key(key));
        assert(!left(name).contains_key(key));
        let cleaned = cleaned_at(left(name), name, second, cleanup);
        assert(cleaned.submap_of(left(name)));
        assert(!cleaned.contains_key(key));
    } else {
        assert(left("channels"@) =~= database("channels"@));
        assert(left(name) == database(name));
        assert(picked(left("channels"@), private_to(user_id)).contains(channel));
        assert(second.private_channels.contains(id));
        assert(second.private_channels.len() > 0);
        assert(!cleanup(second.private_channels, name, left(name)).contains_key(key));
    }
    assert(!after(name).contains_key(key));
}

/// Three passes over a user: one over a database that was interrupted, one over what that left
/// that came to its end, and one over the database that came to its end at once.
spec fn compared(
    database: Database,
    pass: PassView,
    second: PassView,
    whole: PassView,
    cleanup: Cleanup,
) -> bool {
    let left = reached(database, pass, cleanup);
    &&& pass.stage != Stage::Finished
    &&& second.stage == Stage::Finished
    &&& whole.stage == Stage::Finished
    &&& second.user_id == pass.user_id
    &&& whole.user_id == pass.user_id
    &&& identified(database)
    &&& identified(left)
    &&& informed(database, pass, cleanup)
    &&& informed(left, second, cleanup)
    &&& informed(database, whole, cleanup)
}

/// A pass that is repeated lists nothing that one pass would not list, and all of it until it
/// was dealt with.
proof fn lemma_listed_again(
    database: Database,
    pass: PassView,
    second: PassView,
    whole: PassView,
    cleanup: Cleanup,
)
    requires
        compared(database, pass, second, whole, cleanup),
    ensures
        forall|id: Seq<char>| #[trigger]
            second.private_channels.contains(id) ==> whole.private_channels.contains(id),
        rank(pass.stage) <= 12 ==> forall|id: Seq<char>| #[trigger]
            whole.private_channels.contains(id) ==> second.private_channels.contains(id),
        rank(pass.stage) > 9 ==> forall|id: Seq<char>|
            #![trigger whole.private_channels.contains(id)]
            #![trigger pass.private_channels.contains(id)]
            whole.private_channels.contains(id) <==> pass.private_channels.contains(id),
        forall|id: Seq<char>| #[trigger]
            second.bot_ids.contains(id) ==> whole.bot_ids.contains(id),
        rank(pass.stage) <= 21 ==> forall|id: Seq<char>| #[trigger]
            whole.bot_ids.contains(id) ==> second.bot_ids.contains(id),
        rank(pass.stage) > 18 ==> forall|id: Seq<char>|
            #![trigger whole.bot_ids.contains(id)]
            #![trigger pass.bot_ids.contains(id)]
            whole.bot_ids.contains(id) <==> pass.bot_ids.contains(id),
{
    let left = reached(database, pass, cleanup);
    let u = pass.user_id;
    lemma_names_differ();
    lemma_paths_differ();
    lemma_picks_private(u);
    let channels = database("channels"@);
    let now = left("channels"@);
    assert forall|id: Seq<char>| #[trigger]
        second.private_channels.contains(id) implies whole.private_channels.contains(id) by {
        let key = choose|key: int| #[trigger]
            picked(now, private_to(u)).contains(key) && shows(now[key], "_id"@, id);
        lemma_departed(channels[key], u);
        assert(picks(private_to(u), channels[key]));
        assert(picked(channels, private_to(u)).contains(key));
        assert(shows(channels[key], "_id"@, id));
    }
    if rank(pass.stage) <= 12 {
        assert(now =~= channels);
    }
    let bots = database("bots"@);
    let owned_bots = meeting(seq![reads("owner"@, u)]);
    assert forall|id: Seq<char>| #[trigger]
        second.bot_ids.contains(id) implies whole.bot_ids.contains(id) by {
        let key = choose|key: int| #[trigger]
            picked(left("bots"@), owned_bots).contains(key) && shows(
                left("bots"@)[key],
                "_id"@,
                id,
            );
        assert(picked(bots, owned_bots).contains(key));
        assert(shows(bots[key], "_id"@, id));
    }
    if rank(pass.stage) <= 21 {
        assert(left("bots"@) =~= bots);
    }
}

/// Where a message does not name a user in a field there is nothing to scrub.
proof fn lemma_scrubbed_already(message: Document, field: Seq<char>, user_id: Seq<char>)
    requires
        unnamed_in(message, field, user_id),
    ensures
        scrubbed_in(message, field, user_id) == message,
{
    if shows(message, field, user_id) {
        assert(message.fields.contains_key(field));
        assert(scrubbed_in(message, field, user_id).fields =~= message.fields);
        assert(scrubbed_in(message, field, user_id) =~= message);
    }
}

/// Scrubbing a message goes on where it was left.
proof fn lemma_scrubbed_in_parts(message: Document, user_id: Seq<char>)
    ensures
        ({
            let by = scrubbed_in(message, "system.by"@, user_id);
            let from = scrubbed_in(by, "system.from"@, user_id);
            &&& scrubbed(by, user_id) == scrubbed(message, user_id)
            &&& scrubbed(from, user_id) == scrubbed(message, user_id)
            &&& scrubbed(scrubbed(message, user_id), user_id) == scrubbed(message, user_id)
        }),
{
    lemma_paths_differ();
    let by = scrubbed_in(message, "system.by"@, user_id);
    let from = scrubbed_in(by, "system.from"@, user_id);
    let to = scrubbed_in(from, "system.to"@, user_id);
    lemma_scrubbed_in(message, "system.by"@, user_id);
    lemma_scrubbed_in(by, "system.from"@, user_id);
    lemma_scrubbed_in(from, "system.to"@, user_id);
    assert(values(from, "system.by"@) == values(by, "system.by"@));
    assert(values(to, "system.by"@) == values(from, "system.by"@));
    assert(values(to, "system.from"@) == values(from, "system.from"@));
    lemma_scrubbed_already(by, "system.by"@, user_id);
    lemma_scrubbed_already(from, "system.by"@, user_id);
    lemma_scrubbed_already(from, "system.from"@, user_id);
    lemma_scrubbed_already(to, "system.by"@, user_id);
    lemma_scrubbed_already(to, "system.from"@, user_id);
    lemma_scrubbed_already(to, "system.to"@, user_id);
}

proof fn lemma_same_messages(
    database: Database,
    pass: PassView,
    second: PassView,
    whole: PassView,
    cleanup: Cleanup,
)
    requires
        compared(database, pass, second, whole, cleanup),
    ensures
        reached(reached(database, pass, cleanup), second, cleanup)("messages"@) == reached(
            database,
            whole,
            cleanup,
        )("messages"@),
{
    let left = reached(database, pass, cleanup);
    let once = reached(database, whole, cleanup)("messages"@);
    let twice = reached(left, second, cleanup)("messages"@);
    let u = pass.user_id;
    let n = rank(pass.stage);
    lemma_names_differ();
    lemma_paths_differ();
    lemma_picks_about(u);
    lemma_listed_again(database, pass, second, whole, cleanup);
    let messages = database("messages"@);
    assert forall|key: int| #[trigger] once.contains_key(key) == twice.contains_key(key) by {
        if messages.contains_key(key) && left("messages"@).contains_key(key) {
            let d = messages[key];
            let now = left("messages"@)[key];
            assert(values(now, "author"@) == values(d, "author"@));
            assert(values(now, "system.type"@) == values(d, "system.type"@));
            assert(values(now, "system.id"@) == values(d, "system.id"@));
            assert(values(now, "channel"@) == values(d, "channel"@));
            assert(shows_one_of(now, "system.type"@, about_a_user()) == shows_one_of(
                d,
                "system.type"@,
                about_a_user(),
            ));
            assert(picks(about_user(u), now) == picks(about_user(u), d));
            if n > 10 {
                assert(shows_one_of(d, "channel"@, whole.private_channels) == shows_one_of(
                    d,
                    "channel"@,
                    pass.private_channels,
                ));
            } else {
                assert(shows_one_of(d, "channel"@, whole.private_channels) ==> shows_one_of(
                    now,
                    "channel"@,
                    second.private_channels,
                ));
            }
            assert(shows_one_of(now, "channel"@, second.private_channels) ==> shows_one_of(
                d,
                "channel"@,
                whole.private_channels,
            ));
        } else if messages.contains_key(key) && n > 10 {
            assert(shows_one_of(messages[key], "channel"@, whole.private_channels) == shows_one_of(
                messages[key],
                "channel"@,
                pass.private_channels,
            ));
        }
    }
    assert forall|key: int| #[trigger] once.contains_key(key) implies once[key] == twice[key] by {
        assert(twice.contains_key(key));
        lemma_scrubbed_in_parts(messages[key], u);
        assert(once[key] == scrubbed(messages[key], u));
        assert(twice[key] == scrubbed(left("messages"@)[key], u));
    }
    assert(once =~= twice);
}

proof fn lemma_same_attachments(
    database: Database,
    pass: PassView,
    second: PassView,
    whole: PassView,
    cleanup: Cleanup,
)
    requires
        compared(database, pass, second, whole, cleanup),
    ensures
        reached(reached(database, pass, cleanup), second, cleanup)("attachments"@) == reached(
            database,
            whole,
            cleanup,
        )("attachments"@),
{
    let left = reached(database, pass, cleanup);
    let once = reached(database, whole, cleanup)("attachments"@);
    let twice = reached(left, second, cleanup)("attachments"@);
    let u = pass.user_id;
    let n = rank(pass.stage);
    lemma_names_differ();
    lemma_paths_differ();
    lemma_picks_one("author"@, u);
    let attachments = database("attachments"@);
    let messages = database("messages"@);
    let still = left("messages"@);
    assert forall|key: int| #[trigger] once.contains_key(key) implies once[key] == twice[key] by {
        let d = attachments[key];
        let now = left("attachments"@)[key];
        let marked = changed(d, deletion_mark());
        lemma_belongs_to(database, d, u, whole.message_ids);
        lemma_belongs_to(left, now, u, second.message_ids);
        assert(changed(marked, deletion_mark()).fields =~= marked.fields);
        assert(changed(marked, deletion_mark()) =~= marked);
        if n > 3 {
            lemma_belongs_to(database, d, u, pass.message_ids);
            if !belongs_to(database, d, u) {
                assert(now == d);
                if belongs_to(left, d, u) {
                    let (at, id) = choose|at: int, id: Seq<char>|
                        #![trigger picked(still, authored(u)).contains(at), shows(d, "used_for.id"@, id)]
                        picked(still, authored(u)).contains(at) && shows(still[at], "_id"@, id)
                            && shows(d, "used_for.id"@, id);
                    assert(values(still[at], "_id"@) == values(messages[at], "_id"@));
                    assert(values(still[at], "author"@) == values(messages[at], "author"@));
                    assert(picked(messages, authored(u)).contains(at));
                    assert(shows(messages[at], "_id"@, id));
                }
            }
        } else {
            assert(still =~= messages);
            assert(now == d);
        }
    }
    assert(once =~= twice);
}

proof fn lemma_same_channels(
    database: Database,
    pass: PassView,
    second: PassView,
    whole: PassView,
    cleanup: Cleanup,
)
    requires
        compared(database, pass, second, whole, cleanup),
    ensures
        reached(reached(database, pass, cleanup), second, cleanup)("channels"@) == reached(
            database,
            whole,
            cleanup,
        )("channels"@),
{
    let left = reached(database, pass, cleanup);
    let once = reached(database, whole, cleanup)("channels"@);
    let twice = reached(left, second, cleanup)("channels"@);
    let u = pass.user_id;
    let n = rank(pass.stage);
    lemma_names_differ();
    lemma_paths_differ();
    lemma_picks_private(u);
    lemma_listed_channels(database, u, whole.private_channels);
    lemma_listed_channels(left, u, second.private_channels);
    if n > 9 {
        lemma_listed_channels(database, u, pass.private_channels);
    }
    let channels = database("channels"@);
    assert forall|key: int| #[trigger] once.contains_key(key) == twice.contains_key(key) by {
        if channels.contains_key(key) {
            lemma_departed(channels[key], u);
            if left("channels"@).contains_key(key) {
                assert(n <= 13 ==> left("channels"@)[key] == channels[key]);
            }
        }
    }
    assert forall|key: int| #[trigger] once.contains_key(key) implies once[key] == twice[key] by {
        lemma_departed(channels[key], u);
        assert(twice.contains_key(key));
    }
    assert(once =~= twice);
}

proof fn lemma_same_users(
    database: Database,
    pass: PassView,
    second: PassView,
    whole: PassView,
    cleanup: Cleanup,
)
    requires
        compared(database, pass, second, whole, cleanup),
    ensures
        ({
            let twice = reached(reached(database, pass, cleanup), second, cleanup);
            let once = reached(database, whole, cleanup);
            &&& twice("users"@) == once("users"@)
            &&& twice("sessions"@) == once("sessions"@)
        }),
{
    let left = reached(database, pass, cleanup);
    let once = reached(database, whole, cleanup);
    let twice = reached(left, second, cleanup);
    let u = pass.user_id;
    let n = rank(pass.stage);
    lemma_names_differ();
    lemma_listed_again(database, pass, second, whole, cleanup);
    let users = database("users"@);
    assert forall|key: int| #[trigger]
        once("users"@).contains_key(key) == twice("users"@).contains_key(key) by {
        if users.contains_key(key) {
            let d = users[key];
            lemma_unrelated(d, u);
            if n > 19 {
                assert(shows_one_of(d, "_id"@, whole.bot_ids) == shows_one_of(
                    d,
                    "_id"@,
                    pass.bot_ids,
                ));
            }
            if left("users"@).contains_key(key) {
                let now = left("users"@)[key];
                assert(values(now, "_id"@) == values(d, "_id"@));
                assert(shows_one_of(now, "_id"@, second.bot_ids) ==> shows_one_of(
                    d,
                    "_id"@,
                    whole.bot_ids,
                ));
                assert(n <= 19 && shows_one_of(d, "_id"@, whole.bot_ids) ==> shows_one_of(
                    now,
                    "_id"@,
                    second.bot_ids,
                ));
            }
        }
    }
    assert forall|key: int| #[trigger]
        once("users"@).contains_key(key) implies once("users"@)[key] == twice("users"@)[key] by {
        lemma_unrelated(users[key], u);
        assert(twice("users"@).contains_key(key));
    }
    assert(once("users"@) =~= twice("users"@));
    let sessions = database("sessions"@);
    assert forall|key: int| #[trigger]
        once("sessions"@).contains_key(key) == twice("sessions"@).contains_key(key) by {
        if sessions.contains_key(key) {
            let d = sessions[key];
            if n > 20 {
                assert(shows_one_of(d, "user_id"@, whole.bot_ids) == shows_one_of(
                    d,
                    "user_id"@,
                    pass.bot_ids,
                ));
            }
            assert(shows_one_of(d, "user_id"@, second.bot_ids) ==> shows_one_of(
                d,
                "user_id"@,
                whole.bot_ids,
            ));
            assert(n <= 20 && shows_one_of(d, "user_id"@, whole.bot_ids) ==> shows_one_of(
                d,
                "user_id"@,
                second.bot_ids,
            ));
        }
    }
    assert(once("sessions"@) =~= twice("sessions"@));
}

/// A collection from which the objects of private channels are deleted in two goes.
proof fn lemma_same_cleaned(
    database: Database,
    pass: PassView,
    second: PassView,
    whole: PassView,
    cleanup: Cleanup,
    hangs: spec_fn(Seq<char>, Seq<char>, Document) -> bool,
    name: Seq<char>,
    between: Collection,
)
    requires
        compared(database, pass, second, whole, cleanup),
        spares(cleanup),
        clears(cleanup, hangs),
        between.submap_of(cleaned_at(database(name), name, pass, cleanup)),
    ensures
        forall|key: int| #[trigger]
            between.contains_key(key) ==> (cleaned_at(
                between,
                name,
                second,
                cleanup,
            ).contains_key(key) <==> cleaned_at(
                database(name),
                name,
                whole,
                cleanup,
            ).contains_key(key)),
        forall|key: int| #[trigger]
            cleaned_at(database(name), name, whole, cleanup).contains_key(key) ==> cleaned_at(
                database(name),
                name,
                pass,
                cleanup,
            ).contains_key(key),
        cleaned_at(between, name, second, cleanup).submap_of(between),
        cleaned_at(database(name), name, pass, cleanup).submap_of(database(name)),
        cleaned_at(database(name), name, whole, cleanup).submap_of(database(name)),
{
    lemma_listed_again(database, pass, second, whole, cleanup);
    let all = database(name);
    let first_go = cleaned_at(all, name, pass, cleanup);
    let once = cleaned_at(all, name, whole, cleanup);
    let twice = cleaned_at(between, name, second, cleanup);
    assert forall|key: int| #[trigger] once.contains_key(key) <==> all.contains_key(key)
        && !exists|id: Seq<char>| #[trigger]
        whole.private_channels.contains(id) && hangs(id, name, all[key]) by {}
    assert forall|key: int| #[trigger] twice.contains_key(key) <==> between.contains_key(key)
        && !exists|id: Seq<char>| #[trigger]
        second.private_channels.contains(id) && hangs(id, name, between[key]) by {}
    if rank(pass.stage) > 11 {
        assert forall|key: int| #[trigger] first_go.contains_key(key) <==> all.contains_key(key)
            && !exists|id: Seq<char>| #[trigger]
            pass.private_channels.contains(id) && hangs(id, name, all[key]) by {}
    }
    assert forall|key: int| #[trigger] once.contains_key(key) implies first_go.contains_key(
        key,
    ) by {
        if rank(pass.stage) > 11 {
            assert forall|id: Seq<char>| #[trigger] pass.private_channels.contains(id) implies !hangs(
                id,
                name,
                all[key],
            ) by {
                assert(whole.private_channels.contains(id));
            }
        }
    }
    assert forall|key: int| #[trigger] between.contains_key(key) implies (twice.contains_key(key)
        <==> once.contains_key(key)) by {
        assert(first_go.contains_key(key));
        assert(between[key] == all[key]);
        if once.contains_key(key) && !twice.contains_key(key) {
            let id = choose|id: Seq<char>| #[trigger]
                second.private_channels.contains(id) && hangs(id, name, between[key]);
            assert(whole.private_channels.contains(id));
        }
        if twice.contains_key(key) && !once.contains_key(key) {
            let id = choose|id: Seq<char>| #[trigger]
                whole.private_channels.contains(id) && hangs(id, name, all[key]);
            if rank(pass.stage) > 11 {
                assert(pass.private_channels.contains(id));
            } else {
                assert(second.private_channels.contains(id));
            }
        }
    }
}

/// An interruption makes no difference in the end: a pass that stops anywhere and is then
/// repeated leaves exactly the database that one pass would have left.
pub proof fn law_interruption_makes_no_difference(
    database: Database,
    user_id: Seq<char>,
    replies: Seq<ReplyView>,
    again: Seq<ReplyView>,
    at_once: Seq<ReplyView>,
    cleanup: Cleanup,
    hangs: spec_fn(Seq<char>, Seq<char>, Document) -> bool,
)
    requires
        truthful(database, first(user_id), replies, cleanup),
        ending(database, user_id, replies, cleanup).stage != Stage::Finished,
        spares(cleanup),
        clears(cleanup, hangs),
        identified(database),
        completed(remains(database, user_id, replies, cleanup), user_id, again, cleanup),
        completed(database, user_id, at_once, cleanup),
    ensures
        remains(remains(database, user_id, replies, cleanup), user_id, again, cleanup) == remains(
            database,
            user_id,
            at_once,
            cleanup,
        ),
{
    let left = remains(database, user_id, replies, cleanup);
    let pass = ending(database, user_id, replies, cleanup);
    let second = ending(left, user_id, again, cleanup);
    let whole = ending(database, user_id, at_once, cleanup);
    let u = user_id;
    lemma_unbegun(database, user_id, cleanup);
    lemma_ran(database, first(user_id), replies, cleanup);
    lemma_stays_identified(database, pass, cleanup);
    lemma_completed(left, user_id, again, cleanup);
    lemma_completed(database, user_id, at_once, cleanup);
    lemma_names_differ();
    lemma_same_messages(database, pass, second, whole, cleanup);
    lemma_same_attachments(database, pass, second, whole, cleanup);
    lemma_same_channels(database, pass, second, whole, cleanup);
    lemma_same_users(database, pass, second, whole, cleanup);
    lemma_picks_one("claimed_by"@, u);
    let once = reached(database, whole, cleanup);
    let twice = reached(left, second, cleanup);
    assert forall|name: Seq<char>| #[trigger] twice(name) == once(name) by {
        if name == "channel_unreads"@ || name == "channel_invites"@ || name == "webhooks"@ {
            lemma_same_cleaned(
                database,
                pass,
                second,
                whole,
                cleanup,
                hangs,
                name,
                left(name),
            );
            assert(once(name) =~= twice(name));
        } else if name == "server_members"@ || name == "bots"@ || name == "invites"@ {
            assert(once(name) =~= twice(name));
        }
    }
    assert(once =~= twice);
}

} // verus!
