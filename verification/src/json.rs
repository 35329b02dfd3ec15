//! JSON values, and merging one into another.

use vstd::prelude::*;

verus! {

/// A JSON value. A number is held as its text; an object as its members in order.
#[derive(Debug, PartialEq, Eq)]
pub enum JsonValue {
    Null,
    Bool(bool),
    Number(String),
    String(String),
    Array(Vec<JsonValue>),
    Object(Vec<JsonMember>),
}

/// A member of a JSON object.
#[derive(Debug, PartialEq, Eq)]
pub struct JsonMember {
    pub key: String,
    pub value: JsonValue,
}

/// A JSON value as a value of mathematics.
pub enum JsonView {
    Null,
    Bool(bool),
    Number(Seq<char>),
    String(Seq<char>),
    Array(Seq<JsonView>),
    Object(Seq<MemberView>),
}

/// A member of a JSON object as a value of mathematics.
pub struct MemberView {
    pub key: Seq<char>,
    pub value: JsonView,
}

impl View for JsonValue {
    type V = JsonView;

    open spec fn view(&self) -> JsonView
        decreases self,
    {
        match self {
            JsonValue::Null => JsonView::Null,
            JsonValue::Bool(b) => JsonView::Bool(*b),
            JsonValue::Number(text) => JsonView::Number(text@),
            JsonValue::String(text) => JsonView::String(text@),
            JsonValue::Array(items) => JsonView::Array(
                Seq::new(
                    items.len() as nat,
                    |i: int|
                        if 0 <= i < items.len() {
                            items[i]@
                        } else {
                            JsonView::Null
                        },
                ),
            ),
            JsonValue::Object(members) => JsonView::Object(
                Seq::new(
                    members.len() as nat,
                    |i: int|
                        if 0 <= i < members.len() {
                            MemberView { key: members[i].key@, value: members[i].value@ }
                        } else {
                            MemberView { key: Seq::empty(), value: JsonView::Null }
                        },
                ),
            ),
        }
    }
}

/// The value of the first member of `members` that has `key`.
pub open spec fn member(members: Seq<MemberView>, key: Seq<char>) -> Option<JsonView>
    decreases members.len(),
{
    if members.len() == 0 {
        None
    } else if members[0].key == key {
        Some(members[0].value)
    } else {
        member(members.drop_first(), key)
    }
}

/// `target` with `source` merged into it. Two objects merge member by member: a member
/// of both is merged in turn, a member of one alone is kept, those of `target` first.
/// Wherever else the two differ, `target` stays.
pub open spec fn merged(target: JsonView, source: JsonView) -> JsonView
    decreases target,
{
    match (target, source) {
        (JsonView::Object(own), JsonView::Object(given)) => JsonView::Object(
            Seq::new(
                own.len(),
                |i: int|
                    if 0 <= i < own.len() {
                        match member(given, own[i].key) {
                            Some(value) => MemberView {
                                key: own[i].key,
                                value: merged(own[i].value, value),
                            },
                            None => own[i],
                        }
                    } else {
                        own[i]
                    },
            ) + given.filter(|m: MemberView| member(own, m.key) is None),
        ),
        _ => target,
    }
}

/// The views of `items`, in order.
pub open spec fn items_view(items: Seq<JsonValue>) -> Seq<JsonView> {
    Seq::new(items.len(), |i: int| items[i]@)
}

/// The views of `members`, in order.
pub open spec fn members_view(members: Seq<JsonMember>) -> Seq<MemberView> {
    Seq::new(
        members.len(),
        |i: int| MemberView { key: members[i].key@, value: members[i].value@ },
    )
}

/// The view of an array is made of the views of its items; that of an object, of the
/// views of its members.
pub proof fn lemma_view_of_parts(value: JsonValue)
    ensures
        value matches JsonValue::Array(items) ==> value@ == JsonView::Array(items_view(items@)),
        value matches JsonValue::Object(members) ==> value@ == JsonView::Object(
            members_view(members@),
        ),
{
    match value {
        JsonValue::Array(items) => {
            assert(value@->Array_0 =~= items_view(items@));
        },
        JsonValue::Object(members) => {
            assert forall|i: int| 0 <= i < members.len() implies value@->Object_0[i]
                == members_view(members@)[i] by {
                assert(members[i] == members@[i]);
            }
            assert(value@->Object_0 =~= members_view(members@));
        },
        _ => {},
    }
}

/// Where `key` first stands among `members`, the value there is what `member` gives.
pub proof fn lemma_member_at(members: Seq<MemberView>, key: Seq<char>, at: int)
    requires
        0 <= at < members.len(),
        members[at].key == key,
        forall|j: int| 0 <= j < at ==> members[j].key != key,
    ensures
        member(members, key) == Some(members[at].value),
    decreases members.len(),
{
    if at > 0 {
        lemma_member_at(members.drop_first(), key, at - 1);
    }
}

/// Where `key` stands nowhere among `members`, `member` gives nothing.
pub proof fn lemma_member_absent(members: Seq<MemberView>, key: Seq<char>)
    requires
        forall|j: int| 0 <= j < members.len() ==> members[j].key != key,
    ensures
        member(members, key) is None,
    decreases members.len(),
{
    if members.len() > 0 {
        lemma_member_absent(members.drop_first(), key);
    }
}

/// Where the first member with `key` stands among `members`.
pub fn member_index(members: &Vec<JsonMember>, key: &String) -> (found: Option<usize>)
    ensures
        match found {
            Some(at) => at < members.len() && member(members_view(members@), key@) == Some(
                members[at as int].value@,
            ),
            None => member(members_view(members@), key@) is None,
        },
{
    let mut at: usize = 0;
    while at < members.len()
        invariant
            at <= members.len(),
            forall|j: int| 0 <= j < at ==> members[j].key@ != key@,
        decreases members.len() - at,
    {
        if members[at].key == *key {
            proof {
                lemma_member_at(members_view(members@), key@, at as int);
            }
            return Some(at);
        }
        at += 1;
    }
    proof {
        lemma_member_absent(members_view(members@), key@);
    }
    None
}

/// A copy of `value`.
pub fn clone_value(value: &JsonValue) -> (copy: JsonValue)
    ensures
        copy@ == value@,
    decreases value,
{
    match value {
        JsonValue::Null => JsonValue::Null,
        JsonValue::Bool(b) => JsonValue::Bool(*b),
        JsonValue::Number(text) => JsonValue::Number(text.clone()),
        JsonValue::String(text) => JsonValue::String(text.clone()),
        JsonValue::Array(items) => {
            let mut copies: Vec<JsonValue> = Vec::new();
            let mut i: usize = 0;
            while i < items.len()
                invariant
                    i <= items.len(),
                    copies.len() == i,
                    forall|j: int| 0 <= j < i ==> copies[j]@ == items[j]@,
                    value == JsonValue::Array(*items),
                decreases items.len() - i,
            {
                assert(decreases_to!(*value => value->Array_0));
                copies.push(clone_value(&items[i]));
                i += 1;
            }
            let copy = JsonValue::Array(copies);
            proof {
                lemma_view_of_parts(copy);
                lemma_view_of_parts(*value);
                assert(items_view(copies@) =~= items_view(items@));
            }
            copy
        },
        JsonValue::Object(members) => {
            let mut copies: Vec<JsonMember> = Vec::new();
            let mut i: usize = 0;
            while i < members.len()
                invariant
                    i <= members.len(),
                    copies.len() == i,
                    forall|j: int|
                        0 <= j < i ==> copies[j].key@ == members[j].key@ && copies[j].value@
                            == members[j].value@,
                    value == JsonValue::Object(*members),
                decreases members.len() - i,
            {
                assert(decreases_to!(*value => value->Object_0));
                assert(decreases_to!(value => members[i as int].value));
                copies.push(
                    JsonMember {
                        key: members[i].key.clone(),
                        value: clone_value(&members[i].value),
                    },
                );
                i += 1;
            }
            let copy = JsonValue::Object(copies);
            proof {
                lemma_view_of_parts(copy);
                lemma_view_of_parts(*value);
                assert(members_view(copies@) =~= members_view(members@));
            }
            copy
        },
    }
}

/// The members of `own`, each merged with the member of `given` that has its key.
pub open spec fn merged_members(own: Seq<MemberView>, given: Seq<MemberView>) -> Seq<MemberView> {
    Seq::new(
        own.len(),
        |i: int|
            match member(given, own[i].key) {
                Some(value) => MemberView { key: own[i].key, value: merged(own[i].value, value) },
                None => own[i],
            },
    )
}

/// The members of `given` whose key `own` lacks.
pub open spec fn added_members(own: Seq<MemberView>, given: Seq<MemberView>) -> Seq<MemberView> {
    given.filter(|m: MemberView| member(own, m.key) is None)
}

/// Two objects merge into the merged members of the first, followed by the members that
/// only the second has.
pub proof fn lemma_merged_objects(own: Seq<MemberView>, given: Seq<MemberView>)
    ensures
        merged(JsonView::Object(own), JsonView::Object(given)) == JsonView::Object(
            merged_members(own, given) + added_members(own, given),
        ),
{
    let direct = merged(JsonView::Object(own), JsonView::Object(given))->Object_0;
    let parts = merged_members(own, given) + added_members(own, given);
    assert(direct =~= parts);
}

/// The members of an object that was put together from two lists are found in the
/// first list first.
proof fn lemma_member_of_both(first: Seq<MemberView>, second: Seq<MemberView>, key: Seq<char>)
    ensures
        member(first + second, key) == match member(first, key) {
            Some(value) => Some(value),
            None => member(second, key),
        },
    decreases first.len(),
{
    if first.len() == 0 {
        assert(first + second =~= second);
    } else {
        assert((first + second).drop_first() =~= first.drop_first() + second);
        lemma_member_of_both(first.drop_first(), second, key);
    }
}

/// Among the merged members, a key has the merged value of the member that it had
/// before.
proof fn lemma_member_of_merged(own: Seq<MemberView>, given: Seq<MemberView>, key: Seq<char>)
    ensures
        member(merged_members(own, given), key) == match member(own, key) {
            Some(value) => Some(
                match member(given, key) {
                    Some(other) => merged(value, other),
                    None => value,
                },
            ),
            None => None,
        },
    decreases own.len(),
{
    if own.len() > 0 {
        assert(merged_members(own, given).drop_first() =~= merged_members(
            own.drop_first(),
            given,
        ));
        lemma_member_of_merged(own.drop_first(), given, key);
    }
}

/// Among the added members, a key has the value that `given` has for it, if `own` lacks
/// the key.
proof fn lemma_member_of_added(own: Seq<MemberView>, given: Seq<MemberView>, key: Seq<char>)
    ensures
        member(added_members(own, given), key) == if member(own, key) is None {
            member(given, key)
        } else {
            None
        },
    decreases given.len(),
{
    let absent = |m: MemberView| member(own, m.key) is None;
    if given.len() == 0 {
        reveal(Seq::filter);
    } else {
        let head = given[0];
        let rest = given.drop_first();
        assert(given =~= seq![head] + rest);
        rest.lemma_filter_prepend(head, absent);
        lemma_member_of_added(own, rest, key);
        if absent(head) {
            assert((seq![head] + rest.filter(absent)).drop_first() =~= rest.filter(absent));
        } else {
            assert(Seq::<MemberView>::empty() + rest.filter(absent) =~= rest.filter(absent));
        }
    }
}

/// What a key holds after two objects were merged: the member of both, merged in turn;
/// else the member of `own`; else the member of `given`. So what `own` sets is kept, and
/// what `given` alone sets is added.
pub proof fn lemma_merged_member(own: Seq<MemberView>, given: Seq<MemberView>, key: Seq<char>)
    ensures
        merged(JsonView::Object(own), JsonView::Object(given)) matches JsonView::Object(members)
            && member(members, key) == match member(own, key) {
            Some(value) => Some(
                match member(given, key) {
                    Some(other) => merged(value, other),
                    None => value,
                },
            ),
            None => member(given, key),
        },
{
    lemma_merged_objects(own, given);
    lemma_member_of_both(merged_members(own, given), added_members(own, given), key);
    lemma_member_of_merged(own, given, key);
    lemma_member_of_added(own, given, key);
}

/// Whether no two of `members` have the same key.
pub open spec fn distinct_keys(members: Seq<MemberView>) -> bool {
    forall|i: int, j: int|
        0 <= i < members.len() && 0 <= j < members.len() && i != j ==> members[i].key
            != members[j].key
}

impl JsonView {
    /// A value is well formed when no object in it has a key twice.
    pub open spec fn wf(self) -> bool
        decreases self,
    {
        match self {
            JsonView::Array(items) => forall|i: int| 0 <= i < items.len() ==> items[i].wf(),
            JsonView::Object(members) => {
                &&& distinct_keys(members)
                &&& forall|i: int| 0 <= i < members.len() ==> members[i].value.wf()
            },
            _ => true,
        }
    }
}

/// A key has a member exactly if it stands somewhere among the members.
proof fn lemma_member_stands(members: Seq<MemberView>, key: Seq<char>)
    ensures
        member(members, key) is Some <==> exists|i: int|
            0 <= i < members.len() && members[i].key == key,
        member(members, key) matches Some(value) ==> exists|i: int|
            0 <= i < members.len() && members[i].key == key && members[i].value == value,
    decreases members.len(),
{
    if members.len() > 0 {
        let rest = members.drop_first();
        lemma_member_stands(rest, key);
        if members[0].key != key {
            if member(rest, key) is Some {
                let i = choose|i: int|
                    0 <= i < rest.len() && rest[i].key == key && rest[i].value == member(
                        rest,
                        key,
                    )->0;
                assert(members[i + 1] == rest[i]);
            }
            if exists|i: int| 0 <= i < members.len() && members[i].key == key {
                let i = choose|i: int| 0 <= i < members.len() && members[i].key == key;
                assert(rest[i - 1] == members[i]);
            }
        }
    }
}

/// The members that are added have keys of their own, each a key that `own` lacks, and
/// each is a member of `given`.
proof fn lemma_added_members(own: Seq<MemberView>, given: Seq<MemberView>)
    requires
        distinct_keys(given),
    ensures
        distinct_keys(added_members(own, given)),
        forall|i: int|
            0 <= i < added_members(own, given).len() ==> member(
                own,
                (#[trigger] added_members(own, given)[i]).key,
            ) is None && given.contains(added_members(own, given)[i]),
    decreases given.len(),
{
    reveal(Seq::filter);
    if given.len() > 0 {
        let shorter = given.drop_last();
        let last = given.last();
        assert forall|i: int, j: int|
            0 <= i < shorter.len() && 0 <= j < shorter.len() && i != j implies shorter[i].key
            != shorter[j].key by {
            assert(shorter[i] == given[i] && shorter[j] == given[j]);
        }
        lemma_added_members(own, shorter);
        let added = added_members(own, given);
        let before = added_members(own, shorter);
        assert forall|i: int| 0 <= i < before.len() implies given.contains(before[i])
            && before[i].key != last.key by {
            assert(shorter.contains(before[i]));
            let at = choose|at: int| 0 <= at < shorter.len() && shorter[at] == before[i];
            assert(given[at] == before[i]);
            assert(given[given.len() - 1] == last);
        }
        if member(own, last.key) is None {
            assert(added == before.push(last));
            assert(given[given.len() - 1] == last);
        } else {
            assert(added == before);
        }
    }
}

/// Merging keeps values well formed.
pub proof fn lemma_merged_is_well_formed(target: JsonView, source: JsonView)
    requires
        target.wf(),
        source.wf(),
    ensures
        merged(target, source).wf(),
    decreases target,
{
    match (target, source) {
        (JsonView::Object(own), JsonView::Object(given)) => {
            lemma_merged_objects(own, given);
            lemma_added_members(own, given);
            let kept = merged_members(own, given);
            let added = added_members(own, given);
            let all = kept + added;
            assert forall|i: int| 0 <= i < all.len() implies all[i].value.wf() by {
                if i < kept.len() {
                    match member(given, own[i].key) {
                        Some(value) => {
                            lemma_member_stands(given, own[i].key);
                            lemma_merged_is_well_formed(own[i].value, value);
                        },
                        None => {},
                    }
                } else {
                    let extra = added[i - kept.len()];
                    assert(given.contains(extra));
                }
            }
            assert forall|i: int, j: int|
                0 <= i < all.len() && 0 <= j < all.len() && i != j implies all[i].key
                != all[j].key by {
                if i < kept.len() && j < kept.len() {
                    assert(kept[i].key == own[i].key && kept[j].key == own[j].key);
                } else if i >= kept.len() && j >= kept.len() {
                    assert(all[i] == added[i - kept.len()] && all[j] == added[j - kept.len()]);
                } else {
                    let (k, a) = if i < kept.len() {
                        (i, j - kept.len())
                    } else {
                        (j, i - kept.len())
                    };
                    assert(kept[k].key == own[k].key);
                    lemma_member_stands(own, added[a].key);
                }
            }
        },
        _ => {},
    }
}

/// Where the two are not both objects, merging changes nothing.
pub proof fn lemma_merged_keeps_target(target: JsonView, source: JsonView)
    requires
        !(target is Object) || !(source is Object),
    ensures
        merged(target, source) == target,
{
}

/// `target` with `source` merged into it: the members of `source` that `target` lacks are
/// added, at every depth; what `target` holds stays.
pub fn merged_value(target: &JsonValue, source: &JsonValue) -> (out: JsonValue)
    ensures
        out@ == merged(target@, source@),
    decreases target,
{
    match target {
        JsonValue::Object(own) => match source {
            JsonValue::Object(given) => {
                let mut members: Vec<JsonMember> = Vec::new();
                let mut i: usize = 0;
                while i < own.len()
                    invariant
                        i <= own.len(),
                        members.len() == i,
                        target == JsonValue::Object(*own),
                        forall|j: int|
                            0 <= j < i ==> members_view(members@)[j] == merged_members(
                                members_view(own@),
                                members_view(given@),
                            )[j],
                    decreases own.len() - i,
                {
                    assert(decreases_to!(*target => target->Object_0));
                    let found = member_index(given, &own[i].key);
                    let value = match found {
                        Some(at) => merged_value(&own[i].value, &given[at].value),
                        None => clone_value(&own[i].value),
                    };
                    let ghost before = members_view(members@);
                    members.push(JsonMember { key: own[i].key.clone(), value });
                    proof {
                        let own_view = members_view(own@);
                        assert(own_view[i as int].key == own[i as int].key@);
                        assert(own_view[i as int].value == own[i as int].value@);
                        let both = merged_members(own_view, members_view(given@));
                        assert(both[i as int] == MemberView {
                            key: own[i as int].key@,
                            value: value@,
                        }) by {
                            match found {
                                Some(at) => {
                                    assert(value@ == merged(
                                        own[i as int].value@,
                                        given[at as int].value@,
                                    ));
                                },
                                None => {
                                    assert(value@ == own[i as int].value@);
                                },
                            }
                        }
                        assert(members_view(members@)[i as int] == MemberView {
                            key: own[i as int].key@,
                            value: value@,
                        });
                        assert forall|j: int| 0 <= j < i + 1 implies members_view(members@)[j]
                            == both[j] by {
                            if j < i {
                                assert(members_view(members@)[j] == before[j]);
                                assert(before[j] == both[j]);
                            }
                        }
                    }
                    i += 1;
                }
                let ghost merged_part = members_view(members@);
                assert(merged_part =~= merged_members(members_view(own@), members_view(given@)));
                let mut k: usize = 0;
                while k < given.len()
                    invariant
                        k <= given.len(),
                        members_view(members@) == merged_part + added_members(
                            members_view(own@),
                            members_view(given@).subrange(0, k as int),
                        ),
                    decreases given.len() - k,
                {
                    let ghost before = members_view(members@);
                    let ghost seen = members_view(given@).subrange(0, k as int);
                    let ghost next = members_view(given@).subrange(0, k + 1);
                    assert(next.drop_last() =~= seen);
                    assert(next.last() == members_view(given@)[k as int]);
                    proof {
                        reveal(Seq::filter);
                    }
                    if member_index(own, &given[k].key).is_none() {
                        members.push(
                            JsonMember {
                                key: given[k].key.clone(),
                                value: clone_value(&given[k].value),
                            },
                        );
                        assert(members_view(members@) =~= before.push(
                            members_view(given@)[k as int],
                        ));
                    } else {
                        assert(members_view(members@) =~= before);
                    }
                    assert(members_view(members@) =~= merged_part + added_members(
                        members_view(own@),
                        next,
                    ));
                    k += 1;
                }
                assert(members_view(given@).subrange(0, given.len() as int) =~= members_view(
                    given@,
                ));
                let out = JsonValue::Object(members);
                proof {
                    lemma_view_of_parts(out);
                    lemma_view_of_parts(*target);
                    lemma_view_of_parts(*source);
                    lemma_merged_objects(members_view(own@), members_view(given@));
                }
                out
            },
            _ => clone_value(target),
        },
        _ => clone_value(target),
    }
}

/// Merges `source` into `target`: the members of `source` that `target` lacks are added,
/// at every depth; what `target` holds stays.
pub fn merge_json_value_into(source: JsonValue, target: &mut JsonValue)
    ensures
        final(target)@ == merged(old(target)@, source@),
{
    let out = merged_value(target, &source);
    *target = out;
}

} // verus!
