use vstd::prelude::*;

use crate::text::texts;

verus! {

/// A value of a stored document that a query compares with or writes.
#[derive(Debug, PartialEq, Eq)]
pub enum Value {
    Text(String),
    Flag(bool),
}

/// What a condition asks of the values at its path.
#[derive(Debug, PartialEq, Eq)]
pub enum Test {
    /// One of the values is this one (`{ path: value }`)
    Equals(Value),
    /// One of the values is one of these texts (`$in`)
    OneOf(Vec<String>),
    /// None of the values is this one (`$ne`)
    Differs(Value),
    /// There is nothing at the path (`$exists: false`)
    Absent,
    /// All of these texts are among the values (`$all`)
    HasAll(Vec<String>),
    /// The list at the path has an element in which each of these fields reads as given
    /// (`$elemMatch`)
    HasElement(Vec<(String, String)>),
    /// One of the values matches this regular expression (`$regex`)
    Matches(String),
}

/// A test of the values that a document has at a path.
#[derive(Debug, PartialEq, Eq)]
pub struct Condition {
    /// Dotted path into the document
    pub path: String,
    pub test: Test,
}

/// Which documents of a collection a command is about: those that meet every condition of
/// `all` and, where `any` has groups, every condition of at least one group.
#[derive(Debug, PartialEq, Eq)]
pub struct Filter {
    pub all: Vec<Condition>,
    pub any: Vec<Vec<Condition>>,
}

/// How a command changes a document.
#[derive(Debug, PartialEq, Eq)]
pub enum Change {
    /// Write a value at a path (`$set`)
    Write { path: String, value: Value },
    /// Remove what is at a path (`$unset`)
    Remove { path: String },
    /// Remove a text from the list at a path (`$pull`)
    Pull { path: String, item: String },
    /// Remove the elements whose `_id` is `id` from the list at a path (`$pull`)
    PullElement { path: String, id: String },
}

pub enum ValueView {
    Text(Seq<char>),
    Flag(bool),
}

pub enum TestView {
    Equals(ValueView),
    OneOf(Seq<Seq<char>>),
    Differs(ValueView),
    Absent,
    HasAll(Seq<Seq<char>>),
    HasElement(Seq<(Seq<char>, Seq<char>)>),
    Matches(Seq<char>),
}

pub struct ConditionView {
    pub path: Seq<char>,
    pub test: TestView,
}

#[verifier::ext_equal]
pub struct FilterView {
    pub all: Seq<ConditionView>,
    pub any: Seq<Seq<ConditionView>>,
}

pub enum ChangeView {
    Write { path: Seq<char>, value: ValueView },
    Remove { path: Seq<char> },
    Pull { path: Seq<char>, item: Seq<char> },
    PullElement { path: Seq<char>, id: Seq<char> },
}

impl View for Value {
    type V = ValueView;

    open spec fn view(&self) -> ValueView {
        match self {
            Value::Text(text) => ValueView::Text(text@),
            Value::Flag(flag) => ValueView::Flag(*flag),
        }
    }
}

impl View for Test {
    type V = TestView;

    open spec fn view(&self) -> TestView {
        match self {
            Test::Equals(value) => TestView::Equals(value@),
            Test::OneOf(list) => TestView::OneOf(texts(list@)),
            Test::Differs(value) => TestView::Differs(value@),
            Test::Absent => TestView::Absent,
            Test::HasAll(list) => TestView::HasAll(texts(list@)),
            Test::HasElement(fields) => TestView::HasElement(
                fields@.map_values(|field: (String, String)| (field.0@, field.1@)),
            ),
            Test::Matches(pattern) => TestView::Matches(pattern@),
        }
    }
}

impl View for Condition {
    type V = ConditionView;

    open spec fn view(&self) -> ConditionView {
        ConditionView { path: self.path@, test: self.test@ }
    }
}

/// What the conditions of a list say.
pub open spec fn conditions(list: Seq<Condition>) -> Seq<ConditionView> {
    list.map_values(|condition: Condition| condition@)
}

impl View for Filter {
    type V = FilterView;

    open spec fn view(&self) -> FilterView {
        FilterView {
            all: conditions(self.all@),
            any: self.any@.map_values(|group: Vec<Condition>| conditions(group@)),
        }
    }
}

impl View for Change {
    type V = ChangeView;

    open spec fn view(&self) -> ChangeView {
        match self {
            Change::Write { path, value } => ChangeView::Write { path: path@, value: value@ },
            Change::Remove { path } => ChangeView::Remove { path: path@ },
            Change::Pull { path, item } => ChangeView::Pull { path: path@, item: item@ },
            Change::PullElement { path, id } => ChangeView::PullElement { path: path@, id: id@ },
        }
    }
}

/// That a text is among the values at a path.
pub open spec fn reads(path: Seq<char>, text: Seq<char>) -> ConditionView {
    ConditionView { path, test: TestView::Equals(ValueView::Text(text)) }
}

/// That one of some texts is among the values at a path.
pub open spec fn reads_one_of(path: Seq<char>, list: Seq<Seq<char>>) -> ConditionView {
    ConditionView { path, test: TestView::OneOf(list) }
}

/// The documents that meet every one of some conditions.
pub open spec fn meeting(all: Seq<ConditionView>) -> FilterView {
    FilterView { all, any: Seq::empty() }
}

pub fn equals(path: &str, text: &str) -> (result: Condition)
    ensures
        result@ == reads(path@, text@),
{
    Condition { path: path.to_owned(), test: Test::Equals(Value::Text(text.to_owned())) }
}

pub fn one_of(path: &str, list: &Vec<String>) -> (result: Condition)
    ensures
        result@ == reads_one_of(path@, texts(list@)),
{
    let result = Condition { path: path.to_owned(), test: Test::OneOf(copied(list)) };
    result
}

/// A copy of a list of strings.
pub fn copied(list: &Vec<String>) -> (result: Vec<String>)
    ensures
        result@ == list@,
{
    let mut result: Vec<String> = Vec::new();
    for i in 0..list.len()
        invariant
            result@ == list@.take(i as int),
    {
        result.push(list[i].clone());
    }
    result
}

pub fn only(condition: Condition) -> (result: Filter)
    ensures
        result@ == meeting(seq![condition@]),
{
    let result = Filter { all: vec![condition], any: Vec::new() };
    assert(result@ =~~= meeting(seq![condition@]));
    result
}

pub fn both(first: Condition, second: Condition) -> (result: Filter)
    ensures
        result@ == meeting(seq![first@, second@]),
{
    let result = Filter { all: vec![first, second], any: Vec::new() };
    assert(result@ =~~= meeting(seq![first@, second@]));
    result
}

/// Whether a condition asks for a text at a path.
pub open spec fn asks_for(condition: Condition, path: Seq<char>, text: Seq<char>) -> bool {
    &&& condition.path@ == path
    &&& condition.test is Equals
    &&& condition.test->Equals_0 is Text
    &&& condition.test->Equals_0->Text_0@ == text
}

/// Whether a condition asks for one of some texts at a path.
pub open spec fn asks_for_one_of(
    condition: Condition,
    path: Seq<char>,
    list: Seq<Seq<char>>,
) -> bool {
    &&& condition.path@ == path
    &&& condition.test is OneOf
    &&& texts(condition.test->OneOf_0@) == list
}

/// A condition asks for what it was made to ask for, at the path given.
pub proof fn law_condition_asks_as_told(
    path: &str,
    text: &str,
    list: &Vec<String>,
    one: Condition,
    some: Condition,
)
    requires
        call_ensures(equals, (path, text), one),
        call_ensures(one_of, (path, list), some),
    ensures
        asks_for(one, path@, text@),
        asks_for_one_of(some, path@, texts(list@)),
{
}

/// A filter of conditions that must all be met has them in order, and no alternatives.
pub(crate) proof fn lemma_plain_filter(filter: Filter, all: Seq<ConditionView>)
    requires
        filter@ == meeting(all),
    ensures
        filter.all@.len() == all.len(),
        forall|i: int| 0 <= i < all.len() ==> (#[trigger] filter.all@[i])@ == all[i],
        filter.any@.len() == 0,
{
    assert(conditions(filter.all@) == all);
    assert forall|i: int| 0 <= i < all.len() implies (#[trigger] filter.all@[i])@ == all[i] by {
        assert(conditions(filter.all@)[i] == all[i]);
    }
    assert(filter@.any.len() == filter.any@.len());
}

/// A filter made of conditions has exactly these.
pub proof fn law_filter_has_its_conditions(
    first: Condition,
    second: Condition,
    alone: Filter,
    together: Filter,
)
    requires
        call_ensures(only, (first,), alone),
        call_ensures(both, (first, second), together),
    ensures
        alone.all@.len() == 1,
        alone.all@[0]@ == first@,
        alone.any@.len() == 0,
        together.all@.len() == 2,
        together.all@[0]@ == first@,
        together.all@[1]@ == second@,
        together.any@.len() == 0,
{
    lemma_plain_filter(alone, seq![first@]);
    lemma_plain_filter(together, seq![first@, second@]);
}

/// A copy of a list holds what the list holds, in order.
pub proof fn law_copied_list_is_the_same(list: &Vec<String>, result: Vec<String>, i: int)
    requires
        call_ensures(copied, (list,), result),
    ensures
        result@.len() == list@.len(),
        0 <= i < list@.len() ==> result@[i]@ == list@[i]@,
{
}

} // verus!
