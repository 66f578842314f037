//! JSON values as plain data.
//!
//! Tool schemas, arguments and results are JSON. The library compares them and
//! asks whether they are objects; it never writes or parses them.

use vstd::prelude::*;
use crate::pom_diff::{text_before, text_precedes};
use crate::pom_laws::{law_text_order_total, law_text_order_transitive};

verus! {

/// Model of [`JsonValue`]. The members of an object are sorted by name, and a number is
/// what it is worth.
pub enum JsonModel {
    Null,
    Bool(bool),
    Number(Seq<char>),
    Text(Seq<char>),
    Array(Seq<JsonModel>),
    Object(Seq<MemberModel>),
}

/// What a number is worth. There are two floating-point zeros, and they are the same
/// number; any other has one text.
pub open spec fn number_value(text: Seq<char>) -> Seq<char> {
    if text == "-0.0"@ {
        "0.0"@
    } else {
        text
    }
}

fn same_number(first: &String, second: &String) -> (same: bool)
    ensures
        same == (number_value(first@) == number_value(second@)),
{
    let zero: String = "0.0".to_owned();
    let negative: String = "-0.0".to_owned();
    if *first == negative {
        *second == negative || *second == zero
    } else if *second == negative {
        *first == zero
    } else {
        *first == *second
    }
}

/// Model of one member of an object.
pub struct MemberModel {
    pub name: Seq<char>,
    pub value: JsonModel,
}

/// A JSON value. A number is held as its canonical text.
#[derive(Debug)]
pub enum JsonValue {
    Null,
    Bool(bool),
    Number(String),
    Text(String),
    Array(Vec<JsonValue>),
    Object(JsonObject),
}

/// One member of an object.
#[derive(Debug)]
pub(crate) struct JsonMember {
    pub(crate) name: String,
    pub(crate) value: JsonValue,
}

/// The members of an object. No two have the same name, and the order in which
/// they were given does not matter.
#[derive(Debug)]
pub struct JsonObject {
    pub(crate) members: Vec<JsonMember>,
}

impl JsonValue {
    pub(crate) open(crate) spec fn model(self) -> JsonModel
        decreases self,
    {
        match self {
            JsonValue::Null => JsonModel::Null,
            JsonValue::Bool(value) => JsonModel::Bool(value),
            JsonValue::Number(text) => JsonModel::Number(number_value(text@)),
            JsonValue::Text(text) => JsonModel::Text(text@),
            JsonValue::Array(items) => JsonModel::Array(
                Seq::new(
                    items@.len(),
                    |i: int|
                        if 0 <= i < items@.len() {
                            items@[i].model()
                        } else {
                            arbitrary()
                        },
                ),
            ),
            JsonValue::Object(object) => JsonModel::Object(object.model()),
        }
    }
}

impl JsonMember {
    pub(crate) open(crate) spec fn model(self) -> MemberModel
        decreases self,
    {
        MemberModel { name: self.name@, value: self.value.model() }
    }
}

impl JsonObject {
    pub(crate) open(crate) spec fn model(self) -> Seq<MemberModel>
        decreases self,
    {
        Seq::new(
            self.members@.len(),
            |i: int|
                if 0 <= i < self.members@.len() {
                    self.members@[i].model()
                } else {
                    arbitrary()
                },
        )
    }

    #[verifier::type_invariant]
    pub(crate) open(crate) spec fn inv(self) -> bool {
        sorted_members(member_models(self.members@))
    }
}

impl View for JsonValue {
    type V = JsonModel;

    open(crate) spec fn view(&self) -> JsonModel {
        self.model()
    }
}

impl View for JsonMember {
    type V = MemberModel;

    open(crate) spec fn view(&self) -> MemberModel {
        self.model()
    }
}

impl View for JsonObject {
    type V = Seq<MemberModel>;

    open(crate) spec fn view(&self) -> Seq<MemberModel> {
        self.model()
    }
}

pub(crate) open(crate) spec fn member_models(members: Seq<JsonMember>) -> Seq<MemberModel> {
    members.map_values(|member: JsonMember| member@)
}

/// The models of several values.
pub open spec fn json_models(values: Seq<JsonValue>) -> Seq<JsonModel> {
    values.map_values(|value: JsonValue| value@)
}

proof fn lemma_object_view(object: JsonObject)
    ensures
        object@ == member_models(object.members@),
{
    assert(object@ =~= member_models(object.members@));
}

proof fn lemma_array_view(items: Vec<JsonValue>)
    ensures
        JsonValue::Array(items)@ == JsonModel::Array(json_models(items@)),
{
    assert(JsonValue::Array(items)@->Array_0 =~= json_models(items@));
}

/// Each name stands before the next.
pub open spec fn sorted_members(members: Seq<MemberModel>) -> bool {
    forall|i: int, j: int|
        0 <= i < j < members.len() ==> text_before(
            (#[trigger] members[i]).name,
            (#[trigger] members[j]).name,
        )
}

/// Sorted members with one more, which takes the place of one with the same name.
pub open spec fn with_member(
    members: Seq<MemberModel>,
    name: Seq<char>,
    value: JsonModel,
) -> Seq<MemberModel> {
    let at = names_before(members, name);
    let member = MemberModel { name, value };
    if at < members.len() && members[at as int].name == name {
        members.update(at as int, member)
    } else {
        members.insert(at as int, member)
    }
}

/// How many of the leading members stand before a name.
pub open spec fn names_before(members: Seq<MemberModel>, name: Seq<char>) -> nat
    decreases members.len(),
{
    if members.len() == 0 || !text_before(members[0].name, name) {
        0
    } else {
        1 + names_before(members.drop_first(), name)
    }
}

proof fn lemma_names_before(members: Seq<MemberModel>, name: Seq<char>, at: int)
    requires
        0 <= at <= members.len(),
        forall|i: int| 0 <= i < at ==> text_before((#[trigger] members[i]).name, name),
        at < members.len() ==> !text_before(members[at].name, name),
    ensures
        names_before(members, name) == at,
    decreases members.len(),
{
    if at > 0 {
        assert(text_before(members[0].name, name));
        assert forall|i: int| 0 <= i < at - 1 implies text_before(
            (#[trigger] members.drop_first()[i]).name,
            name,
        ) by {
            assert(members.drop_first()[i] == members[i + 1]);
        }
        if at < members.len() {
            assert(members.drop_first()[at - 1] == members[at]);
        }
        lemma_names_before(members.drop_first(), name, at - 1);
    }
}

proof fn lemma_names_before_bounds(members: Seq<MemberModel>, name: Seq<char>)
    ensures
        names_before(members, name) <= members.len(),
        forall|i: int|
            0 <= i < names_before(members, name) ==> text_before(
                (#[trigger] members[i]).name,
                name,
            ),
        names_before(members, name) < members.len() ==> !text_before(
            members[names_before(members, name) as int].name,
            name,
        ),
    decreases members.len(),
{
    if members.len() > 0 && text_before(members[0].name, name) {
        let rest = members.drop_first();
        lemma_names_before_bounds(rest, name);
        assert forall|i: int| 0 <= i < names_before(members, name) implies text_before(
            (#[trigger] members[i]).name,
            name,
        ) by {
            if i > 0 {
                assert(rest[i - 1] == members[i]);
            }
        }
        if names_before(rest, name) < rest.len() {
            assert(rest[names_before(rest, name) as int] == members[names_before(members, name)
                as int]);
        }
    }
}

/// A member put into a sorted list leaves it sorted.
pub proof fn law_members_stay_sorted(members: Seq<MemberModel>, name: Seq<char>, value: JsonModel)
    requires
        sorted_members(members),
    ensures
        sorted_members(with_member(members, name, value)),
{
    let at = names_before(members, name) as int;
    let result = with_member(members, name, value);
    lemma_names_before_bounds(members, name);
    assert forall|i: int, j: int| 0 <= i < j < result.len() implies text_before(
        (#[trigger] result[i]).name,
        (#[trigger] result[j]).name,
    ) by {
        if at < members.len() && members[at].name == name {
            assert(text_before(members[i].name, members[j].name));
        } else {
            if at < members.len() {
                law_text_order_total(members[at].name, name);
            }
            let p = if i < at {
                i
            } else {
                i - 1
            };
            let q = if j < at {
                j
            } else {
                j - 1
            };
            if i == at {
                if q > at {
                    assert(text_before(members[at].name, members[q].name));
                    law_text_order_transitive(name, members[at].name, members[q].name);
                }
            } else if j == at {
                assert(text_before(members[i].name, name));
            } else {
                assert(text_before(members[p].name, members[q].name));
            }
        }
    }
}

impl JsonObject {
    /// The object without members.
    pub fn new() -> (object: Self)
        ensures
            object@ == Seq::<MemberModel>::empty(),
    {
        let object = Self { members: Vec::new() };
        assert(object@ =~= Seq::<MemberModel>::empty());
        object
    }

    /// The object with a member added or replaced.
    pub fn with_member(self, name: &str, value: JsonValue) -> (object: Self)
        ensures
            object@ == with_member(self@, name@, value@),
            sorted_members(object@),
    {
        proof {
            use_type_invariant(&self);
            lemma_object_view(self);
        }
        let mut members = self.members;
        let ghost before = member_models(members@);
        let mut at: usize = 0;
        while at < members.len() && text_precedes(members[at].name.as_str(), name)
            invariant
                at <= members@.len(),
                before == member_models(members@),
                forall|i: int| 0 <= i < at ==> text_before((#[trigger] before[i]).name, name@),
            decreases members@.len() - at,
        {
            assert(before[at as int].name == members@[at as int].name@);
            at += 1;
        }
        proof {
            assert(at < before.len() ==> before[at as int].name == members@[at as int].name@);
            lemma_names_before(before, name@, at as int);
            law_members_stay_sorted(before, name@, value@);
        }
        let member = JsonMember { name: name.to_owned(), value };
        let ghost added = member@;
        if at < members.len() && members[at].name == member.name {
            members.set(at, member);
            assert(member_models(members@) =~= before.update(at as int, added));
        } else {
            members.insert(at, member);
            assert(member_models(members@) =~= before.insert(at as int, added));
        }
        let object = Self { members };
        proof {
            lemma_object_view(object);
        }
        object
    }

    pub fn len(&self) -> (len: usize)
        ensures
            len == self@.len(),
    {
        self.members.len()
    }

    /// The member at an index, in the order of the names.
    pub fn member(&self, index: usize) -> (member: Option<(&str, &JsonValue)>)
        ensures
            match member {
                Some((name, value)) => {
                    &&& index < self@.len()
                    &&& name@ == self@[index as int].name
                    &&& value@ == self@[index as int].value
                },
                None => index >= self@.len(),
            },
    {
        proof {
            lemma_object_view(*self);
        }
        if index < self.members.len() {
            assert(self@[index as int] == self.members@[index as int]@);
            let member = &self.members[index];
            Some((member.name.as_str(), &member.value))
        } else {
            None
        }
    }

    /// The value of a member.
    pub fn get(&self, name: &str) -> (value: Option<&JsonValue>)
        ensures
            match value {
                Some(value) => exists|i: int|
                    0 <= i < self@.len() && (#[trigger] self@[i]).name == name@ && self@[i].value
                        == value@,
                None => forall|i: int| 0 <= i < self@.len() ==> (#[trigger] self@[i]).name != name@,
            },
    {
        proof {
            lemma_object_view(*self);
        }
        let wanted: String = name.to_owned();
        let count: usize = self.members.len();
        for i in 0..count
            invariant
                count == self.members@.len(),
                wanted@ == name@,
                self@ == member_models(self.members@),
                forall|j: int| 0 <= j < i ==> (#[trigger] self@[j]).name != name@,
        {
            assert(self@[i as int] == self.members@[i as int]@);
            if self.members[i].name == wanted {
                return Some(&self.members[i].value);
            }
        }
        None
    }

    fn duplicate(&self) -> (copy: Self)
        ensures
            copy@ == self@,
        decreases self,
    {
        proof {
            use_type_invariant(self);
            lemma_object_view(*self);
        }
        let mut members: Vec<JsonMember> = Vec::new();
        let count: usize = self.members.len();
        for i in 0..count
            invariant
                count == self.members@.len(),
                members@.len() == i,
                forall|j: int| 0 <= j < i ==> (#[trigger] members@[j])@ == self.members@[j]@,
        {
            members.push(
                JsonMember {
                    name: self.members[i].name.clone(),
                    value: self.members[i].value.duplicate(),
                },
            );
        }
        assert(member_models(members@) =~= member_models(self.members@));
        let copy = Self { members };
        proof {
            lemma_object_view(copy);
        }
        copy
    }

    fn equals(&self, other: &Self) -> (equal: bool)
        ensures
            equal == (self@ == other@),
        decreases self,
    {
        proof {
            lemma_object_view(*self);
            lemma_object_view(*other);
        }
        let count: usize = self.members.len();
        if count != other.members.len() {
            assert(self@.len() != other@.len());
            return false;
        }
        for i in 0..count
            invariant
                count == self.members@.len(),
                count == other.members@.len(),
                self@ == member_models(self.members@),
                other@ == member_models(other.members@),
                forall|j: int| 0 <= j < i ==> #[trigger] self@[j] == other@[j],
        {
            assert(self@[i as int] == self.members@[i as int]@);
            assert(other@[i as int] == other.members@[i as int]@);
            if self.members[i].name != other.members[i].name || !self.members[i].value.equals(
                &other.members[i].value,
            ) {
                return false;
            }
        }
        assert(self@ =~= other@);
        true
    }
}

impl JsonValue {
    /// Whether the value is an object.
    pub fn is_object(&self) -> (object: bool)
        ensures
            object == (self@ is Object),
    {
        matches!(self, JsonValue::Object(_))
    }

    fn duplicate(&self) -> (copy: Self)
        ensures
            copy@ == self@,
        decreases self,
    {
        match self {
            JsonValue::Null => JsonValue::Null,
            JsonValue::Bool(value) => JsonValue::Bool(*value),
            JsonValue::Number(text) => JsonValue::Number(text.clone()),
            JsonValue::Text(text) => JsonValue::Text(text.clone()),
            JsonValue::Array(items) => {
                let mut copies: Vec<JsonValue> = Vec::new();
                let count: usize = items.len();
                for i in 0..count
                    invariant
                        count == items@.len(),
                        decreases_to!(self => items),
                        copies@.len() == i,
                        forall|j: int| 0 <= j < i ==> (#[trigger] copies@[j])@ == items@[j]@,
                {
                    copies.push(items[i].duplicate());
                }
                assert(json_models(copies@) =~= json_models(items@));
                proof {
                    lemma_array_view(copies);
                    lemma_array_view(*items);
                }
                JsonValue::Array(copies)
            },
            JsonValue::Object(object) => JsonValue::Object(object.duplicate()),
        }
    }

    /// Whether two values are the same.
    pub fn equals(&self, other: &Self) -> (equal: bool)
        ensures
            equal == (self@ == other@),
        decreases self,
    {
        match (self, other) {
            (JsonValue::Null, JsonValue::Null) => true,
            (JsonValue::Bool(value), JsonValue::Bool(second)) => *value == *second,
            (JsonValue::Number(text), JsonValue::Number(second)) => same_number(text, second),
            (JsonValue::Text(text), JsonValue::Text(second)) => *text == *second,
            (JsonValue::Array(items), JsonValue::Array(others)) => {
                proof {
                    lemma_array_view(*items);
                    lemma_array_view(*others);
                }
                let count: usize = items.len();
                if count != others.len() {
                    assert(json_models(items@).len() != json_models(others@).len());
                    return false;
                }
                for i in 0..count
                    invariant
                        count == items@.len(),
                        count == others@.len(),
                        decreases_to!(self => items),
                        self@ == JsonModel::Array(json_models(items@)),
                        other@ == JsonModel::Array(json_models(others@)),
                        forall|j: int| 0 <= j < i ==> (#[trigger] items@[j])@ == others@[j]@,
                {
                    if !items[i].equals(&others[i]) {
                        assert(json_models(items@)[i as int] != json_models(others@)[i as int]);
                        return false;
                    }
                }
                assert(json_models(items@) =~= json_models(others@));
                true
            },
            (JsonValue::Object(object), JsonValue::Object(second)) => object.equals(second),
            _ => false,
        }
    }
}

impl Clone for JsonValue {
    fn clone(&self) -> (copy: Self)
        ensures
            copy@ == self@,
    {
        self.duplicate()
    }
}

impl PartialEq for JsonValue {
    fn eq(&self, other: &Self) -> (equal: bool) {
        self.equals(other)
    }
}

impl Eq for JsonValue {

}

impl vstd::std_specs::cmp::PartialEqSpecImpl for JsonValue {
    open spec fn obeys_eq_spec() -> bool {
        true
    }

    open spec fn eq_spec(&self, other: &Self) -> bool {
        self@ == other@
    }
}

impl Clone for JsonObject {
    fn clone(&self) -> (copy: Self)
        ensures
            copy@ == self@,
    {
        self.duplicate()
    }
}

impl PartialEq for JsonObject {
    fn eq(&self, other: &Self) -> (equal: bool) {
        self.equals(other)
    }
}

impl Eq for JsonObject {

}

impl vstd::std_specs::cmp::PartialEqSpecImpl for JsonObject {
    open spec fn obeys_eq_spec() -> bool {
        true
    }

    open spec fn eq_spec(&self, other: &Self) -> bool {
        self@ == other@
    }
}

/// The order in which two members are given does not matter.
pub proof fn law_member_order_does_not_matter(
    members: Seq<MemberModel>,
    first: MemberModel,
    second: MemberModel,
)
    requires
        sorted_members(members),
        first.name != second.name,
    ensures
        with_member(with_member(members, first.name, first.value), second.name, second.value)
            == with_member(with_member(members, second.name, second.value), first.name, first.value),
{
    if text_before(first.name, second.name) {
        lemma_member_order(members, first, second);
    } else {
        law_text_order_total(first.name, second.name);
        lemma_member_order(members, second, first);
    }
}

/// Two members at two places of a sequence, each put in or put in place of another: it does
/// not matter which comes first.
proof fn lemma_two_places(
    members: Seq<MemberModel>,
    l: int,
    h: int,
    low: MemberModel,
    high: MemberModel,
)
    requires
        0 <= l <= h <= members.len(),
    ensures
        members.insert(h, high).insert(l, low) == members.insert(l, low).insert(h + 1, high),
        l < h ==> members.insert(h, high).update(l, low) == members.update(l, low).insert(h, high),
        h < members.len() ==> members.update(h, high).insert(l, low) == members.insert(
            l,
            low,
        ).update(h + 1, high),
        l < h < members.len() ==> members.update(h, high).update(l, low) == members.update(
            l,
            low,
        ).update(h, high),
{
    assert(members.insert(h, high).insert(l, low) =~= members.insert(l, low).insert(h + 1, high));
    if l < h {
        assert(members.insert(h, high).update(l, low) =~= members.update(l, low).insert(h, high));
    }
    if h < members.len() {
        assert(members.update(h, high).insert(l, low) =~= members.insert(l, low).update(
            h + 1,
            high,
        ));
    }
    if l < h < members.len() {
        assert(members.update(h, high).update(l, low) =~= members.update(l, low).update(h, high));
    }
}

#[verifier::spinoff_prover]
proof fn lemma_member_order(members: Seq<MemberModel>, low: MemberModel, high: MemberModel)
    requires
        sorted_members(members),
        text_before(low.name, high.name),
    ensures
        with_member(with_member(members, low.name, low.value), high.name, high.value)
            == with_member(with_member(members, high.name, high.value), low.name, low.value),
{
    let l = names_before(members, low.name) as int;
    let h = names_before(members, high.name) as int;
    let with_low = with_member(members, low.name, low.value);
    let with_high = with_member(members, high.name, high.value);
    lemma_names_before_bounds(members, low.name);
    lemma_names_before_bounds(members, high.name);
    law_text_order_total(low.name, high.name);
    // Everything in front of the lower name is in front of the higher one too.
    assert(l <= h) by {
        if h < l {
            assert(text_before(members[h].name, low.name));
            law_text_order_transitive(members[h].name, low.name, high.name);
        }
    }
    let replaces_low = l < members.len() && members[l].name == low.name;
    let replaces_high = h < members.len() && members[h].name == high.name;
    if replaces_low {
        assert(l < h) by {
            if l == h {
                assert(!text_before(members[h].name, high.name));
            }
        }
    }
    // The lower name is found in the same place behind the higher insertion.
    assert forall|i: int| 0 <= i < l implies text_before(
        (#[trigger] with_high[i]).name,
        low.name,
    ) by {
        assert(with_high[i] == members[i]);
    }
    if l < with_high.len() {
        assert(!text_before(with_high[l].name, low.name)) by {
            if l < h || replaces_high && l != h {
                assert(with_high[l] == members[l]);
            } else if l == h {
                assert(with_high[l].name == high.name);
            }
        }
    }
    lemma_names_before(with_high, low.name, l);
    // The higher name moves up by one where the lower one was inserted.
    let moved = if replaces_low {
        h
    } else {
        h + 1
    };
    assert forall|i: int| 0 <= i < moved implies text_before(
        (#[trigger] with_low[i]).name,
        high.name,
    ) by {
        if i == l {
            assert(with_low[i].name == low.name);
        } else if i < l || replaces_low {
            assert(with_low[i] == members[i]);
        } else {
            assert(with_low[i] == members[i - 1]);
        }
    }
    if moved < with_low.len() {
        assert(with_low[moved] == members[h]);
    }
    lemma_names_before(with_low, high.name, moved);
    let put_low = MemberModel { name: low.name, value: low.value };
    let put_high = MemberModel { name: high.name, value: high.value };
    lemma_two_places(members, l, h, put_low, put_high);
    if l < with_high.len() {
        assert(replaces_low == (with_high[l].name == low.name)) by {
            if l < h {
                assert(with_high[l] == members[l]);
            } else {
                assert(with_high[l].name == high.name);
            }
        }
    }
}

} // verus!
