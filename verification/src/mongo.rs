use vstd::prelude::*;

use crate::clock::{iso8601, iso8601_of, now_utc, Timestamp};
use crate::discord::{escape_regex, escaped, ConfirmStamp};
use crate::embeds::present;
use crate::erasure::{first, ErasurePass, ErasureReport};
use crate::error::{database_error, is_database_error, Error, Result};
use crate::model::{
    apart_from, changed, list_at, meets, meets_all, picked, picks, shows, values, with_list,
    Collection, Database, Document, Element,
};
use crate::query::{
    asks_for, asks_for_one_of, both, equals, lemma_plain_filter, meeting, one_of, only, reads,
    reads_one_of, Change, ChangeView, Condition, ConditionView, Filter, FilterView, Test, TestView,
    Value, ValueView,
};
use crate::text::{lowercase_of, stands_in, texts};

verus! {

/// A search for documents.
#[derive(Debug, PartialEq, Eq)]
pub struct Find {
    pub collection: String,
    pub filter: Filter,
    /// Fields to sort by, the first one first, and whether upwards
    pub sort: Vec<(String, bool)>,
    pub skip: Option<u64>,
    pub limit: Option<i64>,
    /// The only fields to fetch; all of them if none are named
    pub fields: Vec<String>,
    /// Whether letters compare without regard to case
    pub ignore_case: bool,
}

#[verifier::ext_equal]
pub struct FindView {
    pub collection: Seq<char>,
    pub filter: FilterView,
    pub sort: Seq<(Seq<char>, bool)>,
    pub skip: Option<u64>,
    pub limit: Option<i64>,
    pub fields: Seq<Seq<char>>,
    pub ignore_case: bool,
}

impl View for Find {
    type V = FindView;

    open spec fn view(&self) -> FindView {
        FindView {
            collection: self.collection@,
            filter: self.filter@,
            sort: self.sort@.map_values(|field: (String, bool)| (field.0@, field.1)),
            skip: self.skip,
            limit: self.limit,
            fields: texts(self.fields@),
            ignore_case: self.ignore_case,
        }
    }
}

/// A search for the documents that a filter picks, in no order.
pub open spec fn finding(collection: Seq<char>, filter: FilterView) -> FindView {
    FindView {
        collection,
        filter,
        sort: Seq::empty(),
        skip: None,
        limit: None,
        fields: Seq::empty(),
        ignore_case: false,
    }
}

/// The same search, sorted.
pub open spec fn sorted_by(find: FindView, sort: Seq<(Seq<char>, bool)>) -> FindView {
    FindView { sort, ..find }
}

/// The same search, for one field alone.
pub open spec fn only_field(find: FindView, field: Seq<char>) -> FindView {
    FindView { fields: seq![field], ..find }
}

/// The same search, without regard to case.
pub open spec fn any_case(find: FindView) -> FindView {
    FindView { ignore_case: true, ..find }
}

/// Every document.
pub open spec fn everything() -> FilterView {
    meeting(Seq::empty())
}

fn find_in(collection: &str, filter: Filter) -> (find: Find)
    ensures
        find@ == finding(collection@, filter@),
{
    let find = Find {
        collection: collection.to_owned(),
        filter,
        sort: Vec::new(),
        skip: None,
        limit: None,
        fields: Vec::new(),
        ignore_case: false,
    };
    assert(find@ =~= finding(collection@, filter@));
    find
}

fn all_documents() -> (filter: Filter)
    ensures
        filter@ == everything(),
{
    let filter = Filter { all: Vec::new(), any: Vec::new() };
    assert(filter@ =~= everything());
    filter
}

impl Find {
    /// The error to answer with when the database could not carry the search out.
    pub fn failure(&self) -> (error: Error)
        ensures
            is_database_error(error, "find"@, self.collection@),
    {
        database_error("find", self.collection.as_str())
    }
}

/// A change of one document.
#[derive(Debug, PartialEq, Eq)]
pub struct UpdateOne {
    pub collection: String,
    pub filter: Filter,
    pub change: Change,
}

impl UpdateOne {
    /// The error to answer with when the database could not carry the change out.
    pub fn failure(&self) -> (error: Error)
        ensures
            is_database_error(error, "update_one"@, self.collection@),
    {
        database_error("update_one", self.collection.as_str())
    }
}

/// Whether an update changes the one document of a collection that has an id.
pub open spec fn updates(
    update: UpdateOne,
    collection: Seq<char>,
    id: Seq<char>,
    change: ChangeView,
) -> bool {
    &&& update.collection@ == collection
    &&& update.filter@ == meeting(seq![reads("_id"@, id)])
    &&& update.change@ == change
}

/// How a user stands to another.
#[derive(Debug, Clone, Copy, PartialEq, Eq, Structural)]
pub enum RelationshipStatus {
    Unrelated,
    User,
    Friend,
    Outgoing,
    Incoming,
    Blocked,
    BlockedOther,
}

/// How a status is written down.
pub open spec fn status_name(status: RelationshipStatus) -> Seq<char> {
    match status {
        RelationshipStatus::Unrelated => "None"@,
        RelationshipStatus::User => "User"@,
        RelationshipStatus::Friend => "Friend"@,
        RelationshipStatus::Outgoing => "Outgoing"@,
        RelationshipStatus::Incoming => "Incoming"@,
        RelationshipStatus::Blocked => "Blocked"@,
        RelationshipStatus::BlockedOther => "BlockedOther"@,
    }
}

impl RelationshipStatus {
    /// How this is written down.
    pub fn name(self) -> (name: &'static str)
        ensures
            name@ == status_name(self),
    {
        match self {
            RelationshipStatus::Unrelated => "None",
            RelationshipStatus::User => "User",
            RelationshipStatus::Friend => "Friend",
            RelationshipStatus::Outgoing => "Outgoing",
            RelationshipStatus::Incoming => "Incoming",
            RelationshipStatus::Blocked => "Blocked",
            RelationshipStatus::BlockedOther => "BlockedOther",
        }
    }
}

/// A step in which a list of relations is made anew.
#[derive(Debug, PartialEq, Eq)]
pub enum RelationStep {
    /// Leave out every relation with a user
    Without { id: String },
    /// Add a relation at the end
    Append { id: String, status: String },
}

pub enum RelationStepView {
    Without { id: Seq<char> },
    Append { id: Seq<char>, status: Seq<char> },
}

impl View for RelationStep {
    type V = RelationStepView;

    open spec fn view(&self) -> RelationStepView {
        match self {
            RelationStep::Without { id } => RelationStepView::Without { id: id@ },
            RelationStep::Append { id, status } => RelationStepView::Append {
                id: id@,
                status: status@,
            },
        }
    }
}

/// What the steps of a list say.
pub open spec fn relation_steps(steps: Seq<RelationStep>) -> Seq<RelationStepView> {
    steps.map_values(|step: RelationStep| step@)
}

/// A change of how a user stands to another.
#[derive(Debug, PartialEq, Eq)]
pub enum RelationshipUpdate {
    /// Remove every relation with the other
    Pull { update: UpdateOne },
    /// Make the list at a path of one document anew: take what is there, nothing if it is absent,
    /// through each of the steps
    Replace { collection: String, filter: Filter, path: String, steps: Vec<RelationStep> },
}

/// A relation with a user.
pub open spec fn relation(id: Seq<char>, status: Seq<char>) -> Element {
    map!["_id"@ => id, "status"@ => status]
}

/// Relations after one was replaced: those with others, in order, and the new one behind them.
pub open spec fn related(
    relations: Seq<Element>,
    target_id: Seq<char>,
    status: Seq<char>,
) -> Seq<Element> {
    relations.filter(apart_from(target_id)).push(relation(target_id, status))
}

/// A list of relations after some steps.
pub open spec fn stepped(
    relations: Seq<Element>,
    steps: Seq<RelationStepView>,
) -> Seq<Element>
    decreases steps.len(),
{
    if steps.len() == 0 {
        relations
    } else {
        let before = stepped(relations, steps.drop_last());
        match steps.last() {
            RelationStepView::Without { id } => before.filter(apart_from(id)),
            RelationStepView::Append { id, status } => before.push(relation(id, status)),
        }
    }
}

/// A document after a change of relations.
pub open spec fn rewritten(document: Document, update: RelationshipUpdate) -> Document {
    match update {
        RelationshipUpdate::Pull { update } => changed(document, update.change@),
        RelationshipUpdate::Replace { path, steps, .. } => with_list(
            document,
            path@,
            stepped(list_at(document, path@), relation_steps(steps@)),
        ),
    }
}

/// Which document a change of relations is made to.
pub open spec fn rewrites(update: RelationshipUpdate) -> FilterView {
    match update {
        RelationshipUpdate::Pull { update } => update.filter@,
        RelationshipUpdate::Replace { filter, .. } => filter@,
    }
}

/// The collection that a change of relations is made in.
pub open spec fn rewrites_in(update: RelationshipUpdate) -> Seq<char> {
    match update {
        RelationshipUpdate::Pull { update } => update.collection@,
        RelationshipUpdate::Replace { collection, .. } => collection@,
    }
}

/// A collection after a change of relations, which is made to one document that it picks.
pub open spec fn carried_out(users: Collection, update: RelationshipUpdate) -> Collection {
    if exists|key: int| picked(users, rewrites(update)).contains(key) {
        let key = choose|key: int| picked(users, rewrites(update)).contains(key);
        users.insert(key, rewritten(users[key], update))
    } else {
        users
    }
}

/// Whether no two users share an id.
pub open spec fn ids_differ(users: Collection) -> bool {
    forall|a: int, b: int, id: Seq<char>|
        #![trigger shows(users[a], "_id"@, id), shows(users[b], "_id"@, id)]
        users.contains_key(a) && users.contains_key(b) && shows(users[a], "_id"@, id) && shows(
            users[b],
            "_id"@,
            id,
        ) ==> a == b
}

/// A user who stands to another in a way. Standing in no relation is having none, and takes no
/// list where there is none.
pub open spec fn standing(
    user: Document,
    target_id: Seq<char>,
    relationship: RelationshipStatus,
) -> Document {
    if relationship != RelationshipStatus::Unrelated {
        with_list(
            user,
            "relations"@,
            related(list_at(user, "relations"@), target_id, status_name(relationship)),
        )
    } else if user.lists.contains_key("relations"@) {
        with_list(user, "relations"@, user.lists["relations"@].filter(apart_from(target_id)))
    } else {
        user
    }
}

/// The users after one of them stands to another in a way; everybody else is as they were, the
/// other included.
pub open spec fn with_standing(
    users: Collection,
    user_id: Seq<char>,
    target_id: Seq<char>,
    relationship: RelationshipStatus,
) -> Collection {
    Map::new(
        |key: int| users.contains_key(key),
        |key: int|
            if shows(users[key], "_id"@, user_id) {
                standing(users[key], target_id, relationship)
            } else {
                users[key]
            },
    )
}

proof fn lemma_carried_out(
    users: Collection,
    update: RelationshipUpdate,
    user_id: Seq<char>,
    target_id: Seq<char>,
    relationship: RelationshipStatus,
)
    requires
        ids_differ(users),
        rewrites(update) == meeting(seq![reads("_id"@, user_id)]),
        forall|user: Document| #[trigger]
            rewritten(user, update) == standing(user, target_id, relationship),
    ensures
        carried_out(users, update) == with_standing(users, user_id, target_id, relationship),
{
    crate::erasure_laws::lemma_picks_one("_id"@, user_id);
    let filter = meeting(seq![reads("_id"@, user_id)]);
    let goal = with_standing(users, user_id, target_id, relationship);
    if exists|key: int| picked(users, filter).contains(key) {
        let one = choose|key: int| picked(users, filter).contains(key);
        assert(picks(filter, users[one]));
        assert forall|key: int| users.contains_key(key) && shows(
            users[key],
            "_id"@,
            user_id,
        ) implies key == one by {
            assert(shows(users[one], "_id"@, user_id));
        }
        assert(users.insert(one, rewritten(users[one], update)) =~= goal);
    } else {
        assert forall|key: int| #[trigger] users.contains_key(key) implies !shows(
            users[key],
            "_id"@,
            user_id,
        ) by {
            assert(!picked(users, filter).contains(key));
        }
        assert(users =~= goal);
    }
}

/// A field of a user that can be removed.
#[derive(Debug, Clone, Copy, PartialEq, Eq, Structural)]
pub enum FieldsUser {
    Avatar,
    StatusText,
    StatusPresence,
    ProfileContent,
    ProfileBackground,
    DisplayName,
    Suspension,
    Nothing,
}

/// Where a field stands in the document of a user.
pub open spec fn path_of(field: FieldsUser) -> Seq<char> {
    match field {
        FieldsUser::Avatar => "avatar"@,
        FieldsUser::ProfileBackground => "profile.background"@,
        FieldsUser::ProfileContent => "profile.content"@,
        FieldsUser::StatusPresence => "status.presence"@,
        FieldsUser::StatusText => "status.text"@,
        FieldsUser::DisplayName => "display_name"@,
        FieldsUser::Suspension => "suspended_until"@,
        FieldsUser::Nothing => "none"@,
    }
}

impl FieldsUser {
    /// Where this stands in the document of a user.
    pub fn as_path(&self) -> (path: Option<&'static str>)
        ensures
            path matches Some(text) && text@ == path_of(*self),
    {
        Some(
            match self {
                FieldsUser::Avatar => "avatar",
                FieldsUser::ProfileBackground => "profile.background",
                FieldsUser::ProfileContent => "profile.content",
                FieldsUser::StatusPresence => "status.presence",
                FieldsUser::StatusText => "status.text",
                FieldsUser::DisplayName => "display_name",
                FieldsUser::Suspension => "suspended_until",
                FieldsUser::Nothing => "none",
            },
        )
    }
}

/// One update of a user.
#[derive(Debug, PartialEq, Eq)]
pub struct UserUpdate {
    /// Whether the fields that are given are written
    pub write: bool,
    /// Paths to remove
    pub remove: Vec<String>,
    /// Whether its failure is the failure of the whole
    pub essential: bool,
}

/// Where fields stand.
pub open spec fn paths_of(fields: Seq<FieldsUser>) -> Seq<Seq<char>> {
    fields.map_values(|field: FieldsUser| path_of(field))
}

/// A step of finding the servers that two users share.
#[derive(Debug, PartialEq, Eq)]
pub enum PipelineStage {
    /// Keep what a filter picks
    Match { filter: Filter },
    /// Gather under `into` the documents of a collection that read `text` at `path` and at
    /// `equal_path` what this document reads at `bound_path`
    Lookup {
        from: String,
        into: String,
        bound_path: String,
        path: String,
        text: String,
        equal_path: String,
    },
    /// Keep what has so many gathered
    MatchSize { into: String, size: u32 },
    /// Answer with what is read at a path
    Project { path: String },
}

/// What is written down about an erasure.
#[derive(Debug, PartialEq, Eq)]
pub struct ErasureRecord {
    pub report: ErasureReport,
    pub recorded_at: String,
}

/// Whether a result is what is to be written down about an erasure at a time.
pub open spec fn is_record_at(
    result: Result<ErasureRecord>,
    report: ErasureReport,
    now: Timestamp,
) -> bool {
    if now.normal() && now.in_calendar() {
        result matches Ok(record) && record.report == report && record.recorded_at@ == iso8601_of(
            now.seconds,
            now.nanoseconds,
        )
    } else {
        result == Err::<ErasureRecord, Error>(Error::InternalError)
    }
}

/// Keep the rows that could be read.
pub fn readable<T>(rows: Vec<Option<T>>) -> (result: Vec<T>)
    ensures
        result@ == present(rows@),
{
    let ghost all = rows@;
    let mut result: Vec<T> = Vec::new();
    assert(all.take(0) =~= Seq::empty());
    for row in it: rows
        invariant
            it.seq() == all,
            result@ == present(all.take(it.index())),
    {
        assert(all.take(it.index() + 1).drop_last() =~= all.take(it.index()));
        assert(all.take(it.index() + 1).last() == row);
        match row {
            Some(item) => result.push(item),
            None => {},
        }
    }
    assert(all.take(all.len() as int) =~= all);
    result
}

/// What was found, or that nothing was.
pub fn found<T>(row: Option<T>) -> (result: Result<T>)
    ensures
        match row {
            Some(item) => result == Ok::<T, Error>(item),
            None => result == Err::<T, Error>(Error::NotFound),
        },
{
    match row {
        Some(item) => Ok(item),
        None => Err(Error::NotFound),
    }
}

/// The session that was found, or that the token belongs to none.
pub fn found_session<T>(row: Option<T>) -> (result: Result<T>)
    ensures
        match row {
            Some(item) => result == Ok::<T, Error>(item),
            None => result == Err::<T, Error>(Error::InvalidSession),
        },
{
    match row {
        Some(item) => Ok(item),
        None => Err(Error::InvalidSession),
    }
}

/// The filter of a search for members by name.
pub open spec fn search_filter(query: Seq<char>) -> FilterView {
    if query.len() == 0 {
        everything()
    } else {
        meeting(
            seq![
                ConditionView {
                    path: "search"@,
                    test: TestView::Matches(escaped(lowercase_of(query))),
                },
            ],
        )
    }
}

fn friend_of(user_id: &str) -> (condition: Condition)
    ensures
        condition@ == befriends(user_id@),
{
    let fields = vec![
        ("_id".to_owned(), user_id.to_owned()),
        ("status".to_owned(), "Friend".to_owned()),
    ];
    let condition = Condition { path: "relations".to_owned(), test: Test::HasElement(fields) };
    assert(condition@.test->HasElement_0 =~= seq![("_id"@, user_id@), ("status"@, "Friend"@)]);
    condition
}

/// That somebody is a friend.
pub open spec fn befriends(user_id: Seq<char>) -> ConditionView {
    ConditionView {
        path: "relations"@,
        test: TestView::HasElement(seq![("_id"@, user_id), ("status"@, "Friend"@)]),
    }
}

/// What is asked of the document database.
pub struct MongoDb;

impl MongoDb {
    /// Find a user by their id.
    pub fn fetch_user(&self, id: &str) -> (find: Find)
        ensures
            find@ == finding("users"@, meeting(seq![reads("_id"@, id@)])),
    {
        find_in("users", only(equals("_id", id)))
    }

    /// Find a user by their username, in whatever case.
    pub fn fetch_user_by_username(&self, username: &str, discriminator: &str) -> (find: Find)
        ensures
            find@ == any_case(
                finding(
                    "users"@,
                    meeting(
                        seq![
                            reads("username"@, username@),
                            reads("discriminator"@, discriminator@),
                        ],
                    ),
                ),
            ),
    {
        let mut find = find_in(
            "users",
            both(equals("username", username), equals("discriminator", discriminator)),
        );
        find.ignore_case = true;
        find
    }

    /// Find a session by its token.
    pub fn fetch_session_by_token(&self, token: &str) -> (find: Find)
        ensures
            find@ == finding("sessions"@, meeting(seq![reads("token"@, token@)])),
    {
        find_in("sessions", only(equals("token", token)))
    }

    /// Find users by their ids.
    pub fn fetch_users(&self, ids: &Vec<String>) -> (find: Find)
        ensures
            find@ == finding("users"@, meeting(seq![reads_one_of("_id"@, texts(ids@))])),
    {
        find_in("users", only(one_of("_id", ids)))
    }

    /// Find the discriminators in use for a username, in whatever case.
    pub fn fetch_discriminators_in_use(&self, username: &str) -> (find: Find)
        ensures
            find@ == any_case(
                only_field(
                    finding("users"@, meeting(seq![reads("username"@, username@)])),
                    "discriminator"@,
                ),
            ),
    {
        let mut find = find_in("users", only(equals("username", username)));
        find.ignore_case = true;
        find.fields = vec!["discriminator".to_owned()];
        assert(texts(find.fields@) =~= seq!["discriminator"@]);
        find
    }

    /// Find the users that both users are friends with.
    pub fn fetch_mutual_user_ids(&self, user_a: &str, user_b: &str) -> (find: Find)
        ensures
            find@ == only_field(
                finding("users"@, meeting(seq![befriends(user_a@), befriends(user_b@)])),
                "_id"@,
            ),
    {
        let mut find = find_in("users", both(friend_of(user_a), friend_of(user_b)));
        find.fields = vec!["_id".to_owned()];
        assert(texts(find.fields@) =~= seq!["_id"@]);
        find
    }

    /// Find the private channels that both users are in.
    pub fn fetch_mutual_channel_ids(&self, user_a: &str, user_b: &str) -> (find: Find)
        ensures
            find@ == only_field(
                finding(
                    "channels"@,
                    meeting(
                        seq![
                            reads_one_of("channel_type"@, seq!["Group"@, "DirectMessage"@]),
                            ConditionView {
                                path: "recipients"@,
                                test: TestView::HasAll(seq![user_a@, user_b@]),
                            },
                        ],
                    ),
                ),
                "_id"@,
            ),
    {
        let kinds = vec!["Group".to_owned(), "DirectMessage".to_owned()];
        assert(texts(kinds@) =~= seq!["Group"@, "DirectMessage"@]);
        let pair = vec![user_a.to_owned(), user_b.to_owned()];
        assert(texts(pair@) =~= seq![user_a@, user_b@]);
        let mut find = find_in(
            "channels",
            both(
                one_of("channel_type", &kinds),
                Condition { path: "recipients".to_owned(), test: Test::HasAll(pair) },
            ),
        );
        find.fields = vec!["_id".to_owned()];
        assert(texts(find.fields@) =~= seq!["_id"@]);
        find
    }

    /// Find the servers that both users share, from the memberships: those of the one for which
    /// there is one of the other in the same server.
    pub fn fetch_mutual_server_ids(&self, user_a: &str, user_b: &str) -> (stages: Vec<
        PipelineStage,
    >)
        ensures
            pipeline(stages@) == mutual_servers(user_a@, user_b@),
    {
        let stages = vec![
            PipelineStage::Match { filter: only(equals("_id.user", user_a)) },
            PipelineStage::Lookup {
                from: "server_members".to_owned(),
                into: "members".to_owned(),
                bound_path: "_id.server".to_owned(),
                path: "_id.user".to_owned(),
                text: user_b.to_owned(),
                equal_path: "_id.server".to_owned(),
            },
            PipelineStage::MatchSize { into: "members".to_owned(), size: 1 },
            PipelineStage::Project { path: "_id.server".to_owned() },
        ];
        assert(pipeline(stages@) =~= mutual_servers(user_a@, user_b@));
        stages
    }

    /// The error to answer with when the servers that two users share could not be found out.
    pub fn fetch_mutual_server_ids_failure(&self) -> (error: Error)
        ensures
            is_database_error(error, "aggregate"@, "server_members"@),
    {
        database_error("aggregate", "server_members")
    }

    /// The updates that change a user, one after the other. The database does not take a status
    /// to be written and a part of it to be removed at once, so the removal goes first then, and
    /// if that fails the rest is written all the same.
    pub fn update_user(&self, writes_status: bool, remove: &Vec<FieldsUser>) -> (updates: Vec<
        UserUpdate,
    >)
        ensures
            ({
                let paths = paths_of(remove@);
                if writes_status && remove@.contains(FieldsUser::StatusText) {
                    &&& updates@.len() == 2
                    &&& !updates@[0].write && !updates@[0].essential
                    &&& texts(updates@[0].remove@) == paths
                    &&& updates@[1].write && updates@[1].essential
                    &&& updates@[1].remove@.len() == 0
                } else {
                    &&& updates@.len() == 1
                    &&& updates@[0].write && updates@[0].essential
                    &&& texts(updates@[0].remove@) == paths
                }
            }),
    {
        let mut paths: Vec<String> = Vec::new();
        let mut clash = false;
        for i in 0..remove.len()
            invariant
                paths@.len() == i,
                forall|j: int| 0 <= j < i ==> (#[trigger] paths@[j])@ == path_of(remove@[j]),
                clash <==> exists|j: int|
                    0 <= j < i && #[trigger] remove@[j] == FieldsUser::StatusText,
        {
            let field = remove[i];
            if field == FieldsUser::StatusText {
                clash = true;
            }
            match field.as_path() {
                Some(path) => paths.push(path.to_owned()),
                None => {},
            }
        }
        assert(texts(paths@) =~= paths_of(remove@));
        assert(clash == remove@.contains(FieldsUser::StatusText));
        if writes_status && clash {
            vec![
                UserUpdate { write: false, remove: paths, essential: false },
                UserUpdate { write: true, remove: Vec::new(), essential: true },
            ]
        } else {
            vec![UserUpdate { write: true, remove: paths, essential: true }]
        }
    }

    /// Set how a user stands to another; standing in no relation is having none.
    ///
    /// Carried out, it leaves the relations with others in place and one with the other behind
    /// them, or none; and it changes nobody else.
    pub fn set_relationship(
        &self,
        user_id: &str,
        target_id: &str,
        relationship: RelationshipStatus,
    ) -> (result: RelationshipUpdate)
        ensures
            rewrites_in(result) == "users"@,
            rewrites(result) == meeting(seq![reads("_id"@, user_id@)]),
            result is Pull <==> relationship == RelationshipStatus::Unrelated,
            forall|user: Document| #[trigger]
                rewritten(user, result) == standing(user, target_id@, relationship),
            forall|users: Collection|
                ids_differ(users) ==> #[trigger] carried_out(users, result) == with_standing(
                    users,
                    user_id@,
                    target_id@,
                    relationship,
                ),
    {
        let result = if relationship == RelationshipStatus::Unrelated {
            RelationshipUpdate::Pull { update: self.pull_relationship(user_id, target_id) }
        } else {
            let steps = vec![
                RelationStep::Without { id: target_id.to_owned() },
                RelationStep::Append {
                    id: target_id.to_owned(),
                    status: relationship.name().to_owned(),
                },
            ];
            let ghost said = relation_steps(steps@);
            assert(said =~= seq![
                RelationStepView::Without { id: target_id@ },
                RelationStepView::Append {
                    id: target_id@,
                    status: status_name(relationship),
                },
            ]);
            assert forall|list: Seq<Element>| #[trigger]
                stepped(list, said) == related(list, target_id@, status_name(relationship)) by {
                assert(said.drop_last().drop_last() =~= Seq::empty());
                reveal_with_fuel(stepped, 3);
            }
            RelationshipUpdate::Replace {
                collection: "users".to_owned(),
                filter: only(equals("_id", user_id)),
                path: "relations".to_owned(),
                steps,
            }
        };
        proof {
            assert forall|user: Document| #[trigger]
                rewritten(user, result) == standing(user, target_id@, relationship) by {}
            assert forall|users: Collection| ids_differ(users) implies #[trigger] carried_out(
                users,
                result,
            ) == with_standing(users, user_id@, target_id@, relationship) by {
                lemma_carried_out(users, result, user_id@, target_id@, relationship);
            }
        }
        result
    }

    /// The error to answer with when a relation could not be replaced.
    pub fn set_relationship_failure(&self) -> (error: Error)
        ensures
            is_database_error(error, "update_one"@, "user"@),
    {
        database_error("update_one", "user")
    }

    /// Remove every relation of a user with another.
    pub fn pull_relationship(&self, user_id: &str, target_id: &str) -> (update: UpdateOne)
        ensures
            updates(
                update,
                "users"@,
                user_id@,
                ChangeView::PullElement { path: "relations"@, id: target_id@ },
            ),
    {
        UpdateOne {
            collection: "users".to_owned(),
            filter: only(equals("_id", user_id)),
            change: Change::PullElement {
                path: "relations".to_owned(),
                id: target_id.to_owned(),
            },
        }
    }

    /// Erase a user and everything belonging to them.
    pub fn erase_user(&self, id: &str) -> (pass: ErasurePass)
        ensures
            pass@ == first(id@),
    {
        self.erase_user_data(id)
    }

    /// The pass that erases a user and everything belonging to them.
    pub fn erase_user_data(&self, user_id: &str) -> (pass: ErasurePass)
        ensures
            pass@ == first(user_id@),
    {
        ErasurePass::new(user_id)
    }

    /// What is written down about an erasure at a time. A time outside of the calendar is an
    /// error, since no date can be written down.
    pub fn erasure_record(&self, report: ErasureReport, now: Timestamp) -> (result: Result<
        ErasureRecord,
    >)
        ensures
            is_record_at(result, report, now),
    {
        if now.is_formattable() {
            Ok(ErasureRecord { report, recorded_at: iso8601(now) })
        } else {
            Err(Error::InternalError)
        }
    }

    /// What is written down about an erasure, now.
    pub fn record_erasure(&self, report: ErasureReport) -> (result: Result<ErasureRecord>)
        ensures
            exists|now: Timestamp| now.normal() && #[trigger] is_record_at(result, report, now),
    {
        let now = now_utc();
        self.erasure_record(report, now)
    }

    /// The error to answer with when an erasure could not be written down.
    pub fn record_erasure_failure(&self) -> (error: Error)
        ensures
            is_database_error(error, "insert_one"@, "erasure_log"@),
    {
        database_error("insert_one", "erasure_log")
    }

    /// Remove the push subscription of a session.
    pub fn remove_push_subscription_by_session_id(&self, session_id: &str) -> (update: UpdateOne)
        ensures
            updates(
                update,
                "sessions"@,
                session_id@,
                ChangeView::Remove { path: "subscription"@ },
            ),
    {
        UpdateOne {
            collection: "sessions".to_owned(),
            filter: only(equals("_id", session_id)),
            change: Change::Remove { path: "subscription".to_owned() },
        }
    }

    /// Note when a session was last seen.
    pub fn update_session_last_seen(&self, session_id: &str, seen_at: Timestamp) -> (update: UpdateOne)
        requires
            seen_at.normal(),
            seen_at.in_calendar(),
        ensures
            updates(
                update,
                "sessions"@,
                session_id@,
                ChangeView::Write {
                    path: "last_seen"@,
                    value: ValueView::Text(iso8601_of(seen_at.seconds, seen_at.nanoseconds)),
                },
            ),
    {
        UpdateOne {
            collection: "sessions".to_owned(),
            filter: only(equals("_id", session_id)),
            change: Change::Write {
                path: "last_seen".to_owned(),
                value: Value::Text(iso8601(seen_at)),
            },
        }
    }

    /// Find members of the snapshot by name, newest sync first. How many there are in all is
    /// counted with the same filter.
    pub fn search_discord_members(&self, query: &str, skip: u64, limit: i64) -> (find: Find)
        ensures
            find@ == (FindView {
                skip: Some(skip),
                limit: Some(limit),
                ..sorted_by(
                    finding("discord_members"@, search_filter(query@)),
                    seq![("synced_at"@, false), ("search"@, true), ("_id"@, true)],
                )
            }),
    {
        let filter = if query.is_empty() {
            all_documents()
        } else {
            let term = query.to_lowercase();
            only(
                Condition {
                    path: "search".to_owned(),
                    test: Test::Matches(escape_regex(term.as_str())),
                },
            )
        };
        assert(filter@ == search_filter(query@));
        let mut find = find_in("discord_members", filter);
        find.sort = vec![
            ("synced_at".to_owned(), false),
            ("search".to_owned(), true),
            ("_id".to_owned(), true),
        ];
        find.skip = Some(skip);
        find.limit = Some(limit);
        assert(find@.sort =~= seq![("synced_at"@, false), ("search"@, true), ("_id"@, true)]);
        find
    }

    /// Find a member of the snapshot by their id.
    pub fn fetch_discord_member(&self, discord_id: &str) -> (find: Find)
        ensures
            find@ == finding("discord_members"@, meeting(seq![reads("_id"@, discord_id@)])),
    {
        find_in("discord_members", only(equals("_id", discord_id)))
    }

    /// Find the claim on a Discord account.
    pub fn fetch_discord_identity(&self, discord_id: &str) -> (find: Find)
        ensures
            find@ == finding("discord_identities"@, meeting(seq![reads("_id"@, discord_id@)])),
    {
        find_in("discord_identities", only(equals("_id", discord_id)))
    }

    /// Find the claim of a user.
    pub fn fetch_discord_identity_by_user(&self, user_id: &str) -> (find: Find)
        ensures
            find@ == finding("discord_identities"@, meeting(seq![reads("user"@, user_id@)])),
    {
        find_in("discord_identities", only(equals("user", user_id)))
    }

    /// Find the claims on some Discord accounts; for none, nothing has to be asked.
    pub fn fetch_discord_identities_by_ids(&self, discord_ids: &Vec<String>) -> (result: Option<
        Find,
    >)
        ensures
            discord_ids@.len() == 0 <==> result is None,
            result matches Some(find) ==> find@ == finding(
                "discord_identities"@,
                meeting(seq![reads_one_of("_id"@, texts(discord_ids@))]),
            ),
    {
        if discord_ids.len() == 0 {
            None
        } else {
            Some(find_in("discord_identities", only(one_of("_id", discord_ids))))
        }
    }

    /// Find every claim, newest first.
    pub fn fetch_discord_identities(&self) -> (find: Find)
        ensures
            find@ == sorted_by(
                finding("discord_identities"@, everything()),
                seq![("claimed_at"@, false)],
            ),
    {
        let mut find = find_in("discord_identities", all_documents());
        find.sort = vec![("claimed_at".to_owned(), false)];
        assert(find@.sort =~= seq![("claimed_at"@, false)]);
        find
    }

    /// The stamps that confirm a claim, to be written together.
    pub fn confirm_discord_identity(&self, discord_id: &str, admin_id: &str) -> (result: (
        Filter,
        ConfirmStamp,
    ))
        ensures
            result.0@ == meeting(seq![reads("_id"@, discord_id@)]),
            result.1.confirmed_by@ == admin_id@,
            result.1.confirmed_at.normal(),
    {
        (only(equals("_id", discord_id)), ConfirmStamp::new(admin_id))
    }

    /// Find a claim that is to be removed unless it is confirmed.
    pub fn delete_unconfirmed_discord_identity(&self, discord_id: &str) -> (filter: Filter)
        ensures
            filter@ == unconfirmed_claim(discord_id@),
    {
        let by = vec![Condition { path: "confirmed_by".to_owned(), test: Test::Absent }];
        let at = vec![Condition { path: "confirmed_at".to_owned(), test: Test::Absent }];
        let filter = Filter { all: vec![equals("_id", discord_id)], any: vec![by, at] };
        assert(filter@ =~~= unconfirmed_claim(discord_id@));
        filter
    }

    /// Find every consent record of a user, oldest first.
    pub fn fetch_consent_records(&self, user_id: &str) -> (find: Find)
        ensures
            find@ == sorted_by(
                finding("consent_records"@, meeting(seq![reads("user_id"@, user_id@)])),
                seq![("utc_timestamp"@, true)],
            ),
    {
        let mut find = find_in("consent_records", only(equals("user_id", user_id)));
        find.sort = vec![("utc_timestamp".to_owned(), true)];
        assert(find@.sort =~= seq![("utc_timestamp"@, true)]);
        find
    }
}

/// The claim on a Discord account, if it lacks a stamp.
pub open spec fn unconfirmed_claim(discord_id: Seq<char>) -> FilterView {
    FilterView {
        all: seq![reads("_id"@, discord_id)],
        any: seq![
            seq![ConditionView { path: "confirmed_by"@, test: TestView::Absent }],
            seq![ConditionView { path: "confirmed_at"@, test: TestView::Absent }],
        ],
    }
}

pub enum StageView {
    Match { filter: FilterView },
    Lookup {
        from: Seq<char>,
        into: Seq<char>,
        bound_path: Seq<char>,
        path: Seq<char>,
        text: Seq<char>,
        equal_path: Seq<char>,
    },
    MatchSize { into: Seq<char>, size: u32 },
    Project { path: Seq<char> },
}

impl View for PipelineStage {
    type V = StageView;

    open spec fn view(&self) -> StageView {
        match self {
            PipelineStage::Match { filter } => StageView::Match { filter: filter@ },
            PipelineStage::Lookup { from, into, bound_path, path, text, equal_path } =>
                StageView::Lookup {
                from: from@,
                into: into@,
                bound_path: bound_path@,
                path: path@,
                text: text@,
                equal_path: equal_path@,
            },
            PipelineStage::MatchSize { into, size } => StageView::MatchSize {
                into: into@,
                size: *size,
            },
            PipelineStage::Project { path } => StageView::Project { path: path@ },
        }
    }
}

/// What the stages of a pipeline say.
pub open spec fn pipeline(stages: Seq<PipelineStage>) -> Seq<StageView> {
    stages.map_values(|stage: PipelineStage| stage@)
}

/// The pipeline that finds the servers that two users share.
pub open spec fn mutual_servers(user_a: Seq<char>, user_b: Seq<char>) -> Seq<StageView> {
    seq![
        StageView::Match { filter: meeting(seq![reads("_id.user"@, user_a)]) },
        StageView::Lookup {
            from: "server_members"@,
            into: "members"@,
            bound_path: "_id.server"@,
            path: "_id.user"@,
            text: user_b,
            equal_path: "_id.server"@,
        },
        StageView::MatchSize { into: "members"@, size: 1 },
        StageView::Project { path: "_id.server"@ },
    ]
}

/// A search for members picks exactly those whose names hold the lowercased term, however many
/// characters of it mean something in a regular expression.
pub proof fn law_search_finds_the_term(query: Seq<char>, document: Document)
    requires
        query.len() != 0,
    ensures
        picks(search_filter(query), document) <==> exists|name: Seq<char>| #[trigger]
            shows(document, "search"@, name) && stands_in(name, lowercase_of(query)),
{
    let term = lowercase_of(query);
    crate::discord::law_escaped_term_matches_itself(term);
    let filter = search_filter(query);
    assert(filter.all.len() == 1);
    assert(meets_all(document, filter.all) <==> meets(document, filter.all[0]));
}

/// Setting a relation leaves exactly one with the other user, and those with everybody else as
/// they were; to set it again changes nothing.
pub proof fn law_one_relation_each(
    relations: Seq<Element>,
    target_id: Seq<char>,
    status: Seq<char>,
)
    ensures
        ({
            let after = related(relations, target_id, status);
            &&& after.filter(apart_from(target_id)) == relations.filter(apart_from(target_id))
            &&& after.last() == relation(target_id, status)
            &&& after.last().contains_pair("_id"@, target_id)
            &&& forall|i: int|
                0 <= i < after.len() - 1 ==> !(#[trigger] after[i]).contains_pair("_id"@, target_id)
            &&& related(after, target_id, status) == after
        }),
{
    broadcast use vstd::seq_lib::group_filter_ensures;

    reveal_strlit("_id");
    reveal_strlit("status");
    assert("_id"@.len() != "status"@.len());
    let others = apart_from(target_id);
    let kept = relations.filter(others);
    let after = related(relations, target_id, status);
    assert(after.drop_last() =~= kept);
    assert forall|i: int| 0 <= i < after.len() - 1 implies !(#[trigger] after[i]).contains_pair(
        "_id"@,
        target_id,
    ) by {
        assert(after[i] == kept[i]);
        assert(others(kept[i]));
    }
    lemma_filter_kept(kept, others);
    assert(after.filter(others) == kept.filter(others)) by {
        reveal(Seq::filter);
    }
}

proof fn lemma_filter_kept(list: Seq<Element>, pred: spec_fn(Element) -> bool)
    requires
        forall|i: int| 0 <= i < list.len() ==> pred(#[trigger] list[i]),
    ensures
        list.filter(pred) == list,
    decreases list.len(),
{
    reveal(Seq::filter);
    if list.len() != 0 {
        let rest = list.drop_last();
        assert forall|i: int| 0 <= i < rest.len() implies pred(#[trigger] rest[i]) by {
            assert(rest[i] == list[i]);
        }
        lemma_filter_kept(rest, pred);
        assert(pred(list[list.len() - 1]));
        assert(list =~= rest.push(list.last()));
    } else {
        assert(list.filter(pred) =~= list);
    }
}

/// The path at which a document that passes every stage of a pipeline is read for the answer,
/// none if it is dropped on the way. What was gathered for it so far goes along.
pub open spec fn passes(
    database: Database,
    document: Document,
    stages: Seq<StageView>,
    gathered: Map<Seq<char>, Set<int>>,
) -> Option<Seq<char>>
    decreases stages.len(),
{
    if stages.len() == 0 {
        None
    } else {
        let rest = stages.drop_first();
        match stages[0] {
            StageView::Match { filter } => if picks(filter, document) {
                passes(database, document, rest, gathered)
            } else {
                None
            },
            StageView::Lookup { from, into, bound_path, path, text, equal_path } => passes(
                database,
                document,
                rest,
                gathered.insert(
                    into,
                    joined_to(database, document, from, bound_path, path, text, equal_path),
                ),
            ),
            StageView::MatchSize { into, size } => if gathered.contains_key(into)
                && gathered[into].len() == size {
                passes(database, document, rest, gathered)
            } else {
                None
            },
            StageView::Project { path } => Some(path),
        }
    }
}

/// The documents of a collection that read a text at a path, and at another what a document
/// reads at a third.
pub open spec fn joined_to(
    database: Database,
    document: Document,
    from: Seq<char>,
    bound_path: Seq<char>,
    path: Seq<char>,
    text: Seq<char>,
    equal_path: Seq<char>,
) -> Set<int> {
    database(from).dom().filter(
        |key: int|
            shows(database(from)[key], path, text) && values(database(from)[key], equal_path)
                == values(document, bound_path),
    )
}

/// Whether a text is in the answer of a pipeline over a collection.
pub open spec fn is_answered(
    database: Database,
    collection: Seq<char>,
    stages: Seq<StageView>,
    text: Seq<char>,
) -> bool {
    exists|key: int| #[trigger]
        database(collection).contains_key(key) && (passes(
            database,
            database(collection)[key],
            stages,
            Map::empty(),
        ) matches Some(path) && shows(database(collection)[key], path, text))
}

/// Whether a membership is that of a user in a server.
pub open spec fn is_member(
    database: Database,
    key: int,
    user_id: Seq<char>,
    server_id: Seq<char>,
) -> bool {
    &&& database("server_members"@).contains_key(key)
    &&& values(database("server_members"@)[key], "_id.user"@) == seq![ValueView::Text(user_id)]
    &&& values(database("server_members"@)[key], "_id.server"@) == seq![
        ValueView::Text(server_id),
    ]
}

/// Whether every membership is that of one user in one server, and nobody is a member of a
/// server twice.
pub open spec fn memberships_in_order(database: Database) -> bool {
    &&& database("server_members"@).dom().finite()
    &&& forall|key: int| #[trigger]
        database("server_members"@).contains_key(key) ==> exists|
            user_id: Seq<char>,
            server_id: Seq<char>,
        | #[trigger] is_member(database, key, user_id, server_id)
    &&& forall|a: int, b: int, user_id: Seq<char>, server_id: Seq<char>|
        #![trigger is_member(database, a, user_id, server_id), is_member(database, b, user_id, server_id)]
        is_member(database, a, user_id, server_id) && is_member(database, b, user_id, server_id)
            ==> a == b
}

/// The servers that are found to be shared are exactly those that both users are members of.
pub proof fn law_mutual_servers_are_shared(
    database: Database,
    user_a: Seq<char>,
    user_b: Seq<char>,
    server_id: Seq<char>,
)
    requires
        memberships_in_order(database),
    ensures
        is_answered(database, "server_members"@, mutual_servers(user_a, user_b), server_id) <==> (
        exists|a: int| #[trigger] is_member(database, a, user_a, server_id)) && (exists|b: int|
         #[trigger]
            is_member(database, b, user_b, server_id)),
{
    let members = database("server_members"@);
    let stages = mutual_servers(user_a, user_b);
    assert forall|key: int| #[trigger] members.contains_key(key) implies ((passes(
        database,
        members[key],
        stages,
        Map::empty(),
    ) matches Some(path) && shows(members[key], path, server_id)) <==> is_member(
        database,
        key,
        user_a,
        server_id,
    ) && exists|b: int| #[trigger] is_member(database, b, user_b, server_id)) by {
        lemma_membership_passes(database, key, user_a, user_b, server_id);
    }
    if exists|a: int| #[trigger] is_member(database, a, user_a, server_id) {
        let a = choose|a: int| #[trigger] is_member(database, a, user_a, server_id);
        assert(members.contains_key(a));
    }
}

proof fn lemma_membership_passes(
    database: Database,
    key: int,
    user_a: Seq<char>,
    user_b: Seq<char>,
    server_id: Seq<char>,
)
    requires
        memberships_in_order(database),
        database("server_members"@).contains_key(key),
    ensures
        (passes(
            database,
            database("server_members"@)[key],
            mutual_servers(user_a, user_b),
            Map::empty(),
        ) matches Some(path) && shows(database("server_members"@)[key], path, server_id))
            <==> is_member(database, key, user_a, server_id) && exists|b: int| #[trigger]
            is_member(database, b, user_b, server_id),
{
    let members = database("server_members"@);
    let document = members[key];
    let (user, server) = choose|user: Seq<char>, server: Seq<char>| #[trigger]
        is_member(database, key, user, server);
    assert(shows(document, "_id.user"@, user_a) <==> user == user_a) by {
        assert(values(document, "_id.user"@)[0] == ValueView::Text(user));
    }
    assert(shows(document, "_id.server"@, server_id) <==> server == server_id) by {
        assert(values(document, "_id.server"@)[0] == ValueView::Text(server));
    }
    crate::erasure_laws::lemma_picks_one("_id.user"@, user_a);
    let stages = mutual_servers(user_a, user_b);
    let gathered = joined_to(
        database,
        document,
        "server_members"@,
        "_id.server"@,
        "_id.user"@,
        user_b,
        "_id.server"@,
    );
    let none = Map::<Seq<char>, Set<int>>::empty();
    let after = none.insert("members"@, gathered);
    let one = stages.drop_first();
    let two = one.drop_first();
    let three = two.drop_first();
    assert(passes(database, document, three, after) == Some("_id.server"@));
    assert(passes(database, document, two, after) == if gathered.len() == 1 {
        Some("_id.server"@)
    } else {
        None
    });
    assert(passes(database, document, one, none) == passes(database, document, two, after));
    assert forall|b: int| gathered.contains(b) <==> #[trigger] is_member(
        database,
        b,
        user_b,
        server,
    ) by {
        if members.contains_key(b) {
            let (other, place) = choose|other: Seq<char>, place: Seq<char>| #[trigger]
                is_member(database, b, other, place);
            assert(values(members[b], "_id.user"@)[0] == ValueView::Text(other));
            assert(values(members[b], "_id.server"@)[0] == ValueView::Text(place));
            assert(values(document, "_id.server"@)[0] == ValueView::Text(server));
        }
    }
    if exists|b: int| #[trigger] is_member(database, b, user_b, server) {
        let b = choose|b: int| #[trigger] is_member(database, b, user_b, server);
        assert(gathered.contains(b));
        assert(gathered =~= Set::empty().insert(b)) by {
            assert forall|other: int| gathered.contains(other) implies other == b by {
                assert(is_member(database, other, user_b, server));
            }
        }
        assert(gathered.len() == 1);
    } else {
        assert(gathered =~= Set::empty());
    }
}

/// Whether a search has no order, no bounds, no choice of fields and heeds the case.
pub open spec fn is_plain(find: Find) -> bool {
    &&& find.sort@.len() == 0
    &&& find.skip is None
    &&& find.limit is None
    &&& find.fields@.len() == 0
    &&& !find.ignore_case
}

/// Whether a filter asks for a text at a path, and for nothing else.
pub open spec fn filters_by(filter: Filter, path: Seq<char>, text: Seq<char>) -> bool {
    &&& filter.all@.len() == 1
    &&& asks_for(filter.all@[0], path, text)
    &&& filter.any@.len() == 0
}

/// Whether a filter asks for one of some texts at a path, and for nothing else.
pub open spec fn filters_by_one_of(filter: Filter, path: Seq<char>, list: Seq<Seq<char>>) -> bool {
    &&& filter.all@.len() == 1
    &&& asks_for_one_of(filter.all@[0], path, list)
    &&& filter.any@.len() == 0
}

pub(crate) proof fn lemma_filters_by(filter: Filter, path: Seq<char>, text: Seq<char>)
    requires
        filter@ == meeting(seq![reads(path, text)]),
    ensures
        filters_by(filter, path, text),
{
    lemma_plain_filter(filter, seq![reads(path, text)]);
    assert(filter.all@[0]@ == reads(path, text));
}

pub(crate) proof fn lemma_filters_by_one_of(filter: Filter, path: Seq<char>, list: Seq<Seq<char>>)
    requires
        filter@ == meeting(seq![reads_one_of(path, list)]),
    ensures
        filters_by_one_of(filter, path, list),
{
    lemma_plain_filter(filter, seq![reads_one_of(path, list)]);
    assert(filter.all@[0]@ == reads_one_of(path, list));
}

proof fn lemma_is_plain(find: Find, collection: Seq<char>, filter: FilterView)
    requires
        find@ == finding(collection, filter),
    ensures
        is_plain(find),
        find.collection@ == collection,
        find.filter@ == filter,
{
    assert(find@.sort.len() == find.sort@.len());
    assert(texts(find.fields@).len() == find.fields@.len());
}

/// A user is looked for among the users, by id; several are, by any of their ids.
pub proof fn law_users_are_found_by_id(
    mongo: &MongoDb,
    id: &str,
    ids: &Vec<String>,
    one: Find,
    several: Find,
)
    requires
        call_ensures(MongoDb::fetch_user, (mongo, id), one),
        call_ensures(MongoDb::fetch_users, (mongo, ids), several),
    ensures
        one.collection@ == "users"@,
        filters_by(one.filter, "_id"@, id@),
        is_plain(one),
        several.collection@ == "users"@,
        filters_by_one_of(several.filter, "_id"@, texts(ids@)),
        is_plain(several),
{
    lemma_is_plain(one, "users"@, meeting(seq![reads("_id"@, id@)]));
    lemma_filters_by(one.filter, "_id"@, id@);
    lemma_is_plain(several, "users"@, meeting(seq![reads_one_of("_id"@, texts(ids@))]));
    lemma_filters_by_one_of(several.filter, "_id"@, texts(ids@));
}

/// A user is looked for by username and discriminator, both of them and in whatever case.
pub proof fn law_usernames_are_found_in_any_case(
    mongo: &MongoDb,
    username: &str,
    discriminator: &str,
    find: Find,
    in_use: Find,
)
    requires
        call_ensures(MongoDb::fetch_user_by_username, (mongo, username, discriminator), find),
        call_ensures(MongoDb::fetch_discriminators_in_use, (mongo, username), in_use),
    ensures
        find.collection@ == "users"@,
        find.ignore_case,
        find.filter.all@.len() == 2,
        asks_for(find.filter.all@[0], "username"@, username@),
        asks_for(find.filter.all@[1], "discriminator"@, discriminator@),
        find.filter.any@.len() == 0,
        find.fields@.len() == 0,
        find.limit is None,
        in_use.collection@ == "users"@,
        in_use.ignore_case,
        filters_by(in_use.filter, "username"@, username@),
        in_use.fields@.len() == 1,
        in_use.fields@[0]@ == "discriminator"@,
        in_use.limit is None,
{
    let asked = seq![reads("username"@, username@), reads("discriminator"@, discriminator@)];
    assert(find@.filter == meeting(asked));
    lemma_plain_filter(find.filter, asked);
    assert(find.filter.all@[0]@ == asked[0]);
    assert(find.filter.all@[1]@ == asked[1]);
    assert(texts(find.fields@).len() == find.fields@.len());
    assert(in_use@.filter == meeting(seq![reads("username"@, username@)]));
    lemma_filters_by(in_use.filter, "username"@, username@);
    assert(texts(in_use.fields@).len() == in_use.fields@.len());
    assert(texts(in_use.fields@)[0] == in_use.fields@[0]@);
}

/// A session is looked for among the sessions, by its token.
pub proof fn law_session_is_found_by_token(mongo: &MongoDb, token: &str, find: Find)
    requires
        call_ensures(MongoDb::fetch_session_by_token, (mongo, token), find),
    ensures
        find.collection@ == "sessions"@,
        filters_by(find.filter, "token"@, token@),
        is_plain(find),
{
    lemma_is_plain(find, "sessions"@, meeting(seq![reads("token"@, token@)]));
    lemma_filters_by(find.filter, "token"@, token@);
}

/// Whether a condition asks for a user to be among the friends.
pub open spec fn asks_for_friend(condition: Condition, user_id: Seq<char>) -> bool {
    &&& condition.path@ == "relations"@
    &&& condition.test is HasElement
    &&& condition.test->HasElement_0@.len() == 2
    &&& condition.test->HasElement_0@[0].0@ == "_id"@
    &&& condition.test->HasElement_0@[0].1@ == user_id
    &&& condition.test->HasElement_0@[1].0@ == "status"@
    &&& condition.test->HasElement_0@[1].1@ == "Friend"@
}

proof fn lemma_asks_for_friend(condition: Condition, user_id: Seq<char>)
    requires
        condition@ == befriends(user_id),
    ensures
        asks_for_friend(condition, user_id),
{
    let fields = condition.test->HasElement_0@;
    let said = fields.map_values(|field: (String, String)| (field.0@, field.1@));
    assert(said == seq![("_id"@, user_id), ("status"@, "Friend"@)]);
    assert(said.len() == fields.len());
    assert(said[0] == (fields[0].0@, fields[0].1@));
    assert(said[1] == (fields[1].0@, fields[1].1@));
}

/// The users that two users have in common are those that have both of them among their friends.
pub proof fn law_mutual_friends_have_both(
    mongo: &MongoDb,
    user_a: &str,
    user_b: &str,
    find: Find,
)
    requires
        call_ensures(MongoDb::fetch_mutual_user_ids, (mongo, user_a, user_b), find),
    ensures
        find.collection@ == "users"@,
        find.filter.all@.len() == 2,
        asks_for_friend(find.filter.all@[0], user_a@),
        asks_for_friend(find.filter.all@[1], user_b@),
        find.filter.any@.len() == 0,
        find.fields@.len() == 1,
        find.fields@[0]@ == "_id"@,
        find.limit is None,
{
    let asked = seq![befriends(user_a@), befriends(user_b@)];
    assert(find@.filter == meeting(asked));
    lemma_plain_filter(find.filter, asked);
    assert(find.filter.all@[0]@ == asked[0]);
    assert(find.filter.all@[1]@ == asked[1]);
    lemma_asks_for_friend(find.filter.all@[0], user_a@);
    lemma_asks_for_friend(find.filter.all@[1], user_b@);
    assert(texts(find.fields@).len() == find.fields@.len());
    assert(texts(find.fields@)[0] == find.fields@[0]@);
}

/// The channels that two users have in common are the groups and direct messages with both of them
/// among the recipients.
pub proof fn law_mutual_channels_are_private(
    mongo: &MongoDb,
    user_a: &str,
    user_b: &str,
    find: Find,
)
    requires
        call_ensures(MongoDb::fetch_mutual_channel_ids, (mongo, user_a, user_b), find),
    ensures
        find.collection@ == "channels"@,
        find.filter.all@.len() == 2,
        asks_for_one_of(
            find.filter.all@[0],
            "channel_type"@,
            seq!["Group"@, "DirectMessage"@],
        ),
        find.filter.all@[1].path@ == "recipients"@,
        find.filter.all@[1].test is HasAll,
        texts(find.filter.all@[1].test->HasAll_0@) == seq![user_a@, user_b@],
        find.filter.any@.len() == 0,
        find.fields@.len() == 1,
        find.fields@[0]@ == "_id"@,
        find.limit is None,
{
    let asked = seq![
        reads_one_of("channel_type"@, seq!["Group"@, "DirectMessage"@]),
        ConditionView {
            path: "recipients"@,
            test: TestView::HasAll(seq![user_a@, user_b@]),
        },
    ];
    assert(find@.filter == meeting(asked));
    lemma_plain_filter(find.filter, asked);
    assert(find.filter.all@[0]@ == asked[0]);
    assert(find.filter.all@[1]@ == asked[1]);
    assert(texts(find.fields@).len() == find.fields@.len());
    assert(texts(find.fields@)[0] == find.fields@[0]@);
}

/// The servers found for two users are exactly those that both of them are members of.
pub proof fn law_both_are_members_of_what_is_found(
    mongo: &MongoDb,
    user_a: &str,
    user_b: &str,
    stages: Vec<PipelineStage>,
    database: Database,
    server_id: Seq<char>,
)
    requires
        call_ensures(MongoDb::fetch_mutual_server_ids, (mongo, user_a, user_b), stages),
        memberships_in_order(database),
    ensures
        is_answered(database, "server_members"@, pipeline(stages@), server_id) <==> (exists|a: int|
         #[trigger]
            is_member(database, a, user_a@, server_id)) && (exists|b: int| #[trigger]
            is_member(database, b, user_b@, server_id)),
{
    law_mutual_servers_are_shared(database, user_a@, user_b@, server_id);
}

/// A failed operation is reported under its own name and that of its collection.
pub proof fn law_failures_name_their_operation(
    mongo: &MongoDb,
    find: &Find,
    find_error: Error,
    update: &UpdateOne,
    update_error: Error,
    servers_error: Error,
    relationship_error: Error,
    record_error: Error,
)
    requires
        call_ensures(Find::failure, (find,), find_error),
        call_ensures(UpdateOne::failure, (update,), update_error),
        call_ensures(MongoDb::fetch_mutual_server_ids_failure, (mongo,), servers_error),
        call_ensures(MongoDb::set_relationship_failure, (mongo,), relationship_error),
        call_ensures(MongoDb::record_erasure_failure, (mongo,), record_error),
    ensures
        find_error is DatabaseError && find_error->operation@ == "find"@
            && find_error->collection@ == find.collection@,
        update_error is DatabaseError && update_error->operation@ == "update_one"@
            && update_error->collection@ == update.collection@,
        servers_error is DatabaseError && servers_error->operation@ == "aggregate"@
            && servers_error->collection@ == "server_members"@,
        relationship_error is DatabaseError && relationship_error->operation@ == "update_one"@
            && relationship_error->collection@ == "user"@,
        record_error is DatabaseError && record_error->operation@ == "insert_one"@
            && record_error->collection@ == "erasure_log"@,
{
}

/// A status is written down under its name, and having none as such.
pub proof fn law_status_has_its_name(status: RelationshipStatus, name: &'static str)
    requires
        call_ensures(RelationshipStatus::name, (status,), name),
    ensures
        status is Unrelated ==> name@ == "None"@,
        status is User ==> name@ == "User"@,
        status is Friend ==> name@ == "Friend"@,
        status is Outgoing ==> name@ == "Outgoing"@,
        status is Incoming ==> name@ == "Incoming"@,
        status is Blocked ==> name@ == "Blocked"@,
        status is BlockedOther ==> name@ == "BlockedOther"@,
{
}

/// Each field of a user that can be removed has its place in the document.
pub proof fn law_field_has_its_path(field: &FieldsUser, path: Option<&'static str>)
    requires
        call_ensures(FieldsUser::as_path, (field,), path),
    ensures
        path is Some,
        *field is Avatar ==> path->0@ == "avatar"@,
        *field is StatusText ==> path->0@ == "status.text"@,
        *field is StatusPresence ==> path->0@ == "status.presence"@,
        *field is ProfileContent ==> path->0@ == "profile.content"@,
        *field is ProfileBackground ==> path->0@ == "profile.background"@,
        *field is DisplayName ==> path->0@ == "display_name"@,
        *field is Suspension ==> path->0@ == "suspended_until"@,
        *field is Nothing ==> path->0@ == "none"@,
{
}

/// A user is changed at once, with the paths of what is removed. Only where a status is written
/// and its text removed are there two steps, the removal first; its failure does not stop the
/// other.
pub proof fn law_status_text_is_removed_first(
    mongo: &MongoDb,
    writes_status: bool,
    remove: &Vec<FieldsUser>,
    updates: Vec<UserUpdate>,
    i: int,
    path: Option<&'static str>,
)
    requires
        call_ensures(MongoDb::update_user, (mongo, writes_status, remove), updates),
        0 <= i < remove@.len(),
        call_ensures(FieldsUser::as_path, (&remove@[i],), path),
    ensures
        ({
            let apart = writes_status && exists|k: int|
                0 <= k < remove@.len() && #[trigger] remove@[k] is StatusText;
            &&& updates@.len() == if apart {
                2int
            } else {
                1int
            }
            &&& updates@[0].remove@.len() == remove@.len()
            &&& updates@[0].remove@[i]@ == path->0@
            &&& updates@[0].write == !apart
            &&& updates@[0].essential == !apart
            &&& apart ==> updates@[1].write && updates@[1].essential && updates@[1].remove@.len()
                == 0
        }),
{
    let paths = texts(updates@[0].remove@);
    assert(paths == paths_of(remove@));
    assert(paths.len() == updates@[0].remove@.len());
    assert(paths[i] == updates@[0].remove@[i]@);
    if remove@.contains(FieldsUser::StatusText) {
        let k = remove@.index_of(FieldsUser::StatusText);
        assert(remove@[k] is StatusText);
    }
    if exists|k: int| 0 <= k < remove@.len() && #[trigger] remove@[k] is StatusText {
        let k = choose|k: int| 0 <= k < remove@.len() && #[trigger] remove@[k] is StatusText;
        assert(remove@[k] == FieldsUser::StatusText);
    }
}

/// After a relation with another is set, a user who had the relations `others`, and those with
/// the other user among them, has the former in order and then the one that was set. Standing in
/// no relation leaves the former alone.
pub proof fn law_relation_is_replaced(
    mongo: &MongoDb,
    user_id: &str,
    target_id: &str,
    relationship: RelationshipStatus,
    result: RelationshipUpdate,
    name: &'static str,
    user: Document,
    one: Element,
    more: Document,
)
    requires
        call_ensures(MongoDb::set_relationship, (mongo, user_id, target_id, relationship), result),
        call_ensures(RelationshipStatus::name, (relationship,), name),
        user.lists.contains_key("relations"@),
        more.fields == user.fields,
        more.lists == user.lists.insert("relations"@, user.lists["relations"@].push(one)),
    ensures
        ({
            let after = rewritten(user, result);
            let after_more = rewritten(more, result);
            let kept = after.lists["relations"@];
            let kept_more = after_more.lists["relations"@];
            let set = map!["_id"@ => target_id@, "status"@ => name@];
            let is_other = !one.contains_pair("_id"@, target_id@);
            &&& after.fields == user.fields
            &&& relationship is Unrelated && user.lists["relations"@].len() == 0 ==> kept.len() == 0
            &&& relationship is Unrelated ==> kept_more == if is_other {
                kept.push(one)
            } else {
                kept
            }
            &&& !(relationship is Unrelated) && user.lists["relations"@].len() == 0 ==> kept
                == seq![set]
            &&& !(relationship is Unrelated) ==> kept.len() > 0 && kept.last() == set
            &&& !(relationship is Unrelated) ==> kept_more == if is_other {
                kept.drop_last().push(one).push(set)
            } else {
                kept
            }
        }),
{
    reveal(Seq::filter);
    let list = user.lists["relations"@];
    let longer = list.push(one);
    let others = apart_from(target_id@);
    assert(longer.drop_last() =~= list);
    assert(longer.last() == one);
    let set = map!["_id"@ => target_id@, "status"@ => name@];
    assert(rewritten(user, result) == standing(user, target_id@, relationship));
    assert(rewritten(more, result) == standing(more, target_id@, relationship));
    assert(list_at(more, "relations"@) == longer);
    if list.len() == 0 {
        assert(list.filter(others) =~= Seq::empty());
        assert(Seq::<Element>::empty().push(set) =~= seq![set]);
    }
    assert(list.filter(others).push(set).drop_last() =~= list.filter(others));
}

/// A relation is set in one user: the one named. A relation with the other is removed from where
/// the relations are, in that user alone.
pub proof fn law_relation_is_set_in_one_user(
    mongo: &MongoDb,
    user_id: &str,
    target_id: &str,
    relationship: RelationshipStatus,
    result: RelationshipUpdate,
    pull: UpdateOne,
)
    requires
        call_ensures(MongoDb::set_relationship, (mongo, user_id, target_id, relationship), result),
        call_ensures(MongoDb::pull_relationship, (mongo, user_id, target_id), pull),
    ensures
        relationship is Unrelated <==> result is Pull,
        result is Pull ==> result->update.collection@ == "users"@ && filters_by(
            result->update.filter,
            "_id"@,
            user_id@,
        ),
        result is Replace ==> result->collection@ == "users"@ && filters_by(
            result->filter,
            "_id"@,
            user_id@,
        ),
        pull.collection@ == "users"@,
        filters_by(pull.filter, "_id"@, user_id@),
        pull.change is PullElement,
        pull.change->PullElement_path@ == "relations"@,
        pull.change->id@ == target_id@,
{
    lemma_filters_by(pull.filter, "_id"@, user_id@);
    match result {
        RelationshipUpdate::Pull { update } => {
            lemma_filters_by(update.filter, "_id"@, user_id@);
        },
        RelationshipUpdate::Replace { filter, .. } => {
            lemma_filters_by(filter, "_id"@, user_id@);
        },
    }
}

/// A session loses its push subscription, and is noted to have been seen, each by its id and
/// without any other change.
pub proof fn law_session_is_changed_by_id(
    mongo: &MongoDb,
    session_id: &str,
    seen_at: Timestamp,
    removal: UpdateOne,
    seen: UpdateOne,
)
    requires
        seen_at.normal(),
        seen_at.in_calendar(),
        call_ensures(
            MongoDb::remove_push_subscription_by_session_id,
            (mongo, session_id),
            removal,
        ),
        call_ensures(MongoDb::update_session_last_seen, (mongo, session_id, seen_at), seen),
    ensures
        removal.collection@ == "sessions"@,
        filters_by(removal.filter, "_id"@, session_id@),
        removal.change is Remove,
        removal.change->Remove_path@ == "subscription"@,
        seen.collection@ == "sessions"@,
        filters_by(seen.filter, "_id"@, session_id@),
        seen.change is Write,
        seen.change->Write_path@ == "last_seen"@,
        seen.change->value is Text,
        seen.change->value->Text_0@ == iso8601_of(seen_at.seconds, seen_at.nanoseconds),
{
    lemma_filters_by(removal.filter, "_id"@, session_id@);
    lemma_filters_by(seen.filter, "_id"@, session_id@);
    assert(seen.change@ == (ChangeView::Write {
        path: "last_seen"@,
        value: ValueView::Text(iso8601_of(seen_at.seconds, seen_at.nanoseconds)),
    }));
}

/// What is written down about an erasure is the report and the time, in the calendar; at a time
/// that has no date nothing is.
pub proof fn law_erasure_is_dated(
    mongo: &MongoDb,
    report: ErasureReport,
    now: Timestamp,
    formattable: bool,
    result: Result<ErasureRecord>,
)
    requires
        call_ensures(MongoDb::erasure_record, (mongo, report, now), result),
        call_ensures(Timestamp::is_formattable, (now,), formattable),
    ensures
        formattable ==> result is Ok && result->Ok_0.report == report
            && result->Ok_0.recorded_at@ == iso8601_of(now.seconds, now.nanoseconds),
        !formattable ==> result is Err && result->Err_0 is InternalError,
{
}

/// Members of the snapshot are searched for by the lowercased term, escaped, in their names; by
/// nothing if there is no term. The one synced last comes first, then they go by name and by id,
/// and the page is the one asked for.
pub proof fn law_search_is_sorted_and_paged(
    mongo: &MongoDb,
    query: &str,
    skip: u64,
    limit: i64,
    find: Find,
    term: &str,
    pattern: String,
)
    requires
        call_ensures(MongoDb::search_discord_members, (mongo, query, skip, limit), find),
        term@ == lowercase_of(query@),
        call_ensures(escape_regex, (term,), pattern),
    ensures
        find.collection@ == "discord_members"@,
        query@.len() == 0 ==> find.filter.all@.len() == 0,
        query@.len() != 0 ==> {
            &&& find.filter.all@.len() == 1
            &&& find.filter.all@[0].path@ == "search"@
            &&& find.filter.all@[0].test is Matches
            &&& find.filter.all@[0].test->Matches_0@ == pattern@
        },
        find.filter.any@.len() == 0,
        find.sort@.len() == 3,
        find.sort@[0].0@ == "synced_at"@ && !find.sort@[0].1,
        find.sort@[1].0@ == "search"@ && find.sort@[1].1,
        find.sort@[2].0@ == "_id"@ && find.sort@[2].1,
        find.skip == Some(skip),
        find.limit == Some(limit),
        find.fields@.len() == 0,
        !find.ignore_case,
{
    assert(find@.filter == search_filter(query@));
    if query@.len() == 0 {
        lemma_plain_filter(find.filter, Seq::empty());
    } else {
        let asked = seq![
            ConditionView { path: "search"@, test: TestView::Matches(escaped(lowercase_of(query@))) },
        ];
        lemma_plain_filter(find.filter, asked);
        assert(find.filter.all@[0]@ == asked[0]);
    }
    lemma_sort(find, seq![("synced_at"@, false), ("search"@, true), ("_id"@, true)]);
    assert(texts(find.fields@).len() == find.fields@.len());
}

proof fn lemma_sort(find: Find, sort: Seq<(Seq<char>, bool)>)
    requires
        find@.sort == sort,
    ensures
        find.sort@.len() == sort.len(),
        forall|i: int|
            0 <= i < sort.len() ==> (#[trigger] find.sort@[i]).0@ == sort[i].0 && find.sort@[i].1
                == sort[i].1,
{
    assert(find@.sort.len() == find.sort@.len());
    assert forall|i: int| 0 <= i < sort.len() implies (#[trigger] find.sort@[i]).0@ == sort[i].0
        && find.sort@[i].1 == sort[i].1 by {
        assert(find@.sort[i] == (find.sort@[i].0@, find.sort@[i].1));
    }
}

/// A member of the snapshot and a claim are looked for by the Discord account; a claim also by the
/// user who made it.
pub proof fn law_claims_are_found_by_account_and_user(
    mongo: &MongoDb,
    id: &str,
    member: Find,
    claim: Find,
    by_user: Find,
)
    requires
        call_ensures(MongoDb::fetch_discord_member, (mongo, id), member),
        call_ensures(MongoDb::fetch_discord_identity, (mongo, id), claim),
        call_ensures(MongoDb::fetch_discord_identity_by_user, (mongo, id), by_user),
    ensures
        member.collection@ == "discord_members"@,
        filters_by(member.filter, "_id"@, id@),
        is_plain(member),
        claim.collection@ == "discord_identities"@,
        filters_by(claim.filter, "_id"@, id@),
        is_plain(claim),
        by_user.collection@ == "discord_identities"@,
        filters_by(by_user.filter, "user"@, id@),
        is_plain(by_user),
{
    lemma_is_plain(member, "discord_members"@, meeting(seq![reads("_id"@, id@)]));
    lemma_filters_by(member.filter, "_id"@, id@);
    lemma_is_plain(claim, "discord_identities"@, meeting(seq![reads("_id"@, id@)]));
    lemma_filters_by(claim.filter, "_id"@, id@);
    lemma_is_plain(by_user, "discord_identities"@, meeting(seq![reads("user"@, id@)]));
    lemma_filters_by(by_user.filter, "user"@, id@);
}

/// Claims on some accounts are looked for by any of these, and not at all for none; all claims are
/// listed newest first.
pub proof fn law_claims_are_listed(
    mongo: &MongoDb,
    ids: &Vec<String>,
    some: Option<Find>,
    all: Find,
)
    requires
        call_ensures(MongoDb::fetch_discord_identities_by_ids, (mongo, ids), some),
        call_ensures(MongoDb::fetch_discord_identities, (mongo,), all),
    ensures
        some is None <==> ids@.len() == 0,
        some is Some ==> {
            &&& some->0.collection@ == "discord_identities"@
            &&& filters_by_one_of(some->0.filter, "_id"@, texts(ids@))
            &&& is_plain(some->0)
        },
        all.collection@ == "discord_identities"@,
        all.filter.all@.len() == 0,
        all.filter.any@.len() == 0,
        all.sort@.len() == 1,
        all.sort@[0].0@ == "claimed_at"@ && !all.sort@[0].1,
        all.skip is None,
        all.limit is None,
        all.fields@.len() == 0,
{
    if some is Some {
        let find = some->0;
        lemma_is_plain(
            find,
            "discord_identities"@,
            meeting(seq![reads_one_of("_id"@, texts(ids@))]),
        );
        lemma_filters_by_one_of(find.filter, "_id"@, texts(ids@));
    }
    assert(all@.filter == everything());
    lemma_plain_filter(all.filter, Seq::empty());
    lemma_sort(all, seq![("claimed_at"@, false)]);
    assert(texts(all.fields@).len() == all.fields@.len());
}

/// A claim is confirmed by its account, with who confirms it. One is removed while it is
/// unconfirmed exactly if it is the one on the account and lacks a stamp.
pub proof fn law_claims_are_handled_by_account(
    mongo: &MongoDb,
    discord_id: &str,
    admin_id: &str,
    confirming: (Filter, ConfirmStamp),
    removing: Filter,
    document: Document,
)
    requires
        call_ensures(
            MongoDb::confirm_discord_identity,
            (mongo, discord_id, admin_id),
            confirming,
        ),
        call_ensures(
            MongoDb::delete_unconfirmed_discord_identity,
            (mongo, discord_id),
            removing,
        ),
    ensures
        filters_by(confirming.0, "_id"@, discord_id@),
        confirming.1.confirmed_by@ == admin_id@,
        removing.all@.len() == 1,
        asks_for(removing.all@[0], "_id"@, discord_id@),
        picks(removing@, document) <==> shows(document, "_id"@, discord_id@) && !(
        document.fields.contains_key("confirmed_by"@) && document.fields.contains_key(
            "confirmed_at"@,
        )),
{
    lemma_filters_by(confirming.0, "_id"@, discord_id@);
    let filter = removing@;
    assert(filter.all.len() == removing.all@.len());
    assert(filter.all[0] == removing.all@[0]@);
    assert(filter.all[0] == reads("_id"@, discord_id@));
    assert(meets_all(document, filter.all) <==> meets(document, filter.all[0]));
    assert(filter.any.len() == 2);
    assert(meets_all(document, filter.any[0]) <==> meets(document, filter.any[0][0]));
    assert(meets_all(document, filter.any[1]) <==> meets(document, filter.any[1][0]));
    if exists|g: int| 0 <= g < filter.any.len() && meets_all(document, #[trigger] filter.any[g]) {
        let g = choose|g: int|
            0 <= g < filter.any.len() && meets_all(document, #[trigger] filter.any[g]);
        assert(g == 0 || g == 1);
    }
}

/// The consent records of a user are looked for by the user and listed oldest first.
pub proof fn law_consent_is_listed_oldest_first(mongo: &MongoDb, user_id: &str, find: Find)
    requires
        call_ensures(MongoDb::fetch_consent_records, (mongo, user_id), find),
    ensures
        find.collection@ == "consent_records"@,
        filters_by(find.filter, "user_id"@, user_id@),
        find.sort@.len() == 1,
        find.sort@[0].0@ == "utc_timestamp"@ && find.sort@[0].1,
        find.skip is None,
        find.limit is None,
        find.fields@.len() == 0,
{
    assert(find@.filter == meeting(seq![reads("user_id"@, user_id@)]));
    lemma_filters_by(find.filter, "user_id"@, user_id@);
    lemma_sort(find, seq![("utc_timestamp"@, true)]);
    assert(texts(find.fields@).len() == find.fields@.len());
}

/// A pass that erases a user begins at the beginning, for that user.
pub proof fn law_erasure_is_of_the_user_named(
    mongo: &MongoDb,
    id: &str,
    pass: ErasurePass,
    data_pass: ErasurePass,
)
    requires
        call_ensures(MongoDb::erase_user, (mongo, id), pass),
        call_ensures(MongoDb::erase_user_data, (mongo, id), data_pass),
    ensures
        pass@.user_id == id@,
        data_pass@ == pass@,
{
}

/// What was found is answered with as it is; that nothing was is an error of its own for a
/// session.
pub proof fn law_nothing_found_is_an_error<T>(row: Option<T>, any: Result<T>, session: Result<T>)
    requires
        call_ensures(found::<T>, (row,), any),
        call_ensures(found_session::<T>, (row,), session),
    ensures
        row is Some ==> any == Ok::<T, Error>(row->0) && session == Ok::<T, Error>(row->0),
        row is None ==> any is Err && any->Err_0 is NotFound,
        row is None ==> session is Err && session->Err_0 is InvalidSession,
{
}

/// A row that could be read is kept behind those before it, and one that could not is left out.
pub proof fn law_unreadable_rows_are_left_out<T>(
    rows: Vec<Option<T>>,
    kept: Vec<T>,
    row: Option<T>,
    more: Vec<Option<T>>,
    more_kept: Vec<T>,
)
    requires
        call_ensures(readable::<T>, (rows,), kept),
        call_ensures(readable::<T>, (more,), more_kept),
        more@ == rows@.push(row),
    ensures
        rows@.len() == 0 ==> kept@.len() == 0,
        row is Some ==> more_kept@ == kept@.push(row->0),
        row is None ==> more_kept@ == kept@,
{
    assert(more@.drop_last() =~= rows@);
}

/// Whatever the clock says, what is written down about an erasure is its report, and the only
/// other answer is an error of the service's own.
pub proof fn law_recorded_erasure_is_its_report(
    mongo: &MongoDb,
    report: ErasureReport,
    result: Result<ErasureRecord>,
)
    requires
        call_ensures(MongoDb::record_erasure, (mongo, report), result),
    ensures
        result is Ok ==> result->Ok_0.report == report,
        result is Err ==> result->Err_0 is InternalError,
{
    let now = choose|now: Timestamp| now.normal() && #[trigger] is_record_at(result, report, now);
    assert(is_record_at(result, report, now));
}

} // verus!
