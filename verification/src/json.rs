//! A plain JSON value model for command templates and config patches.
//!
//! Numbers keep their textual JSON form; objects keep their members in the
//! order they were read (keys are expected to be distinct).

use vstd::prelude::*;

verus! {

/// One JSON value.
#[derive(Debug, PartialEq, Eq)]
pub enum JsonValue {
    /// `null`
    Null,
    /// `true` / `false`
    Bool(bool),
    /// A number, as written in JSON text.
    Number(String),
    /// A string.
    Str(String),
    /// An array.
    Array(Vec<JsonValue>),
    /// An object (member order preserved).
    Object(Vec<(String, JsonValue)>),
}

/// Mathematical form of a JSON value (text as character sequences).
pub enum JsonView {
    /// `null`
    Null,
    /// `true` / `false`
    Bool(bool),
    /// A number, as written.
    Number(Seq<char>),
    /// A string.
    Str(Seq<char>),
    /// An array.
    Array(Seq<JsonView>),
    /// An object (member order preserved).
    Object(Seq<(Seq<char>, JsonView)>),
}

/// The view of a JSON value.
pub open spec fn json_view(v: JsonValue) -> JsonView
    decreases v,
{
    match v {
        JsonValue::Null => JsonView::Null,
        JsonValue::Bool(b) => JsonView::Bool(b),
        JsonValue::Number(n) => JsonView::Number(n@),
        JsonValue::Str(s) => JsonView::Str(s@),
        JsonValue::Array(xs) => JsonView::Array(
            Seq::new(
                xs@.len(),
                |i: int|
                    if 0 <= i < xs@.len() {
                        json_view(xs@[i])
                    } else {
                        JsonView::Null
                    },
            ),
        ),
        JsonValue::Object(ms) => JsonView::Object(
            Seq::new(
                ms@.len(),
                |i: int|
                    if 0 <= i < ms@.len() {
                        (ms@[i].0@, json_view(ms@[i].1))
                    } else {
                        (Seq::empty(), JsonView::Null)
                    },
            ),
        ),
    }
}

impl View for JsonValue {
    type V = JsonView;

    open spec fn view(&self) -> JsonView {
        json_view(*self)
    }
}

impl JsonValue {
    /// The `Str` payload, if this is a string.
    pub open spec fn spec_as_str(self) -> Option<Seq<char>> {
        match self {
            JsonValue::Str(s) => Some(s@),
            _ => None,
        }
    }

    /// Index of the first member named `key` in an object.
    pub open spec fn spec_member_index(self, key: Seq<char>) -> Option<int> {
        match self {
            JsonValue::Object(members) => member_index_from(members@, key, 0),
            _ => None,
        }
    }

    /// `value.get(key).and_then(as_str)`.
    pub open spec fn spec_get_str(self, key: Seq<char>) -> Option<Seq<char>> {
        match self {
            JsonValue::Object(members) => match member_index_from(members@, key, 0) {
                Some(i) => members@[i].1.spec_as_str(),
                None => None,
            },
            _ => None,
        }
    }

    /// `value.get(key)`: the first member named `key` of an object.
    pub open spec fn spec_get(self, key: Seq<char>) -> Option<JsonValue> {
        match self {
            JsonValue::Object(members) => match member_index_from(members@, key, 0) {
                Some(i) => Some(members@[i].1),
                None => None,
            },
            _ => None,
        }
    }

    /// `value.get(key)` for an object value.
    #[verifier::loop_isolation(false)]
    pub fn get(&self, key: &str) -> (r: Option<&JsonValue>)
        ensures
            match r {
                Some(v) => self.spec_get(key@) == Some(*v),
                None => self.spec_get(key@) is None,
            },
    {
        match self {
            JsonValue::Object(members) => {
                let mut i: usize = 0;
                while i < members.len()
                    invariant
                        i <= members.len(),
                        member_index_from(members@, key@, 0) == member_index_from(
                            members@,
                            key@,
                            i as int,
                        ),
                    decreases members.len() - i,
                {
                    if crate::text::str_eq(members[i].0.as_str(), key) {
                        return Some(&members[i].1);
                    }
                    i = i + 1;
                }
                None
            },
            _ => None,
        }
    }

    /// `value.get(key).and_then(Value::as_str)` for an object value.
    #[verifier::loop_isolation(false)]
    pub fn get_str(&self, key: &str) -> (r: Option<&String>)
        ensures
            r matches Some(s) ==> self.spec_get_str(key@) == Some(s@),
            r is None ==> self.spec_get_str(key@) is None,
    {
        match self {
            JsonValue::Object(members) => {
                let mut i: usize = 0;
                while i < members.len()
                    invariant
                        i <= members.len(),
                        member_index_from(members@, key@, 0) == member_index_from(
                            members@,
                            key@,
                            i as int,
                        ),
                    decreases members.len() - i,
                {
                    if crate::text::str_eq(members[i].0.as_str(), key) {
                        return match &members[i].1 {
                            JsonValue::Str(s) => Some(s),
                            _ => None,
                        };
                    }
                    i = i + 1;
                }
                None
            },
            _ => None,
        }
    }
}

/// First index at or after `i` whose member key is `key`.
pub open spec fn member_index_from(members: Seq<(String, JsonValue)>, key: Seq<char>, i: int) -> Option<
    int,
>
    decreases members.len() - i,
{
    if i < 0 || i >= members.len() {
        None
    } else if members[i].0@ == key {
        Some(i)
    } else {
        member_index_from(members, key, i + 1)
    }
}

/// Views of object members.
pub open spec fn members_view(ms: Seq<(String, JsonValue)>) -> Seq<(Seq<char>, JsonView)> {
    ms.map_values(|p: (String, JsonValue)| (p.0@, p.1@))
}

/// The view of an object value is the object of its members' views.
pub proof fn lemma_object_view(ms: Vec<(String, JsonValue)>)
    ensures
        JsonValue::Object(ms)@ == JsonView::Object(members_view(ms@)),
{
    assert(JsonValue::Object(ms)@->Object_0 =~= members_view(ms@));
}

/// First index at or after `i` of a member named `k`.
pub open spec fn key_index_from(ms: Seq<(Seq<char>, JsonView)>, k: Seq<char>, i: int) -> Option<int>
    decreases ms.len() - i,
{
    if i < 0 || i >= ms.len() {
        None
    } else if ms[i].0 == k {
        Some(i)
    } else {
        key_index_from(ms, k, i + 1)
    }
}

/// Value of the first member named `k`.
pub open spec fn lookup(ms: Seq<(Seq<char>, JsonView)>, k: Seq<char>) -> Option<JsonView> {
    match key_index_from(ms, k, 0) {
        Some(i) => Some(ms[i].1),
        None => None,
    }
}

/// Deep merge of `overlay` onto `base`: when both are objects, each overlay
/// member merges into the base member of the same name (or is appended);
/// otherwise the overlay replaces the base.
pub open spec fn merge_json(base: JsonView, overlay: JsonView) -> JsonView
    decreases overlay, 1nat,
{
    match overlay {
        JsonView::Object(om) => match base {
            JsonView::Object(bm) => JsonView::Object(merge_members(bm, om)),
            _ => overlay,
        },
        _ => overlay,
    }
}

/// Members of `bm` with the members of `om` merged in, in order.
pub open spec fn merge_members(bm: Seq<(Seq<char>, JsonView)>, om: Seq<(Seq<char>, JsonView)>) -> Seq<
    (Seq<char>, JsonView),
>
    decreases om, 0nat,
{
    if om.len() == 0 {
        bm
    } else {
        proof {
            assert(decreases_to!(om => om.drop_last()));
            assert(decreases_to!(om => om[om.len() - 1]));
            assert(decreases_to!(om[om.len() - 1] => om[om.len() - 1].1));
        }
        merge_step(merge_members(bm, om.drop_last()), om.last().0, merge_json_at(
            merge_members(bm, om.drop_last()),
            om.last().0,
            om.last().1,
        ))
    }
}

/// The value that member `(k, v)` takes once merged into `acc`.
pub open spec fn merge_json_at(acc: Seq<(Seq<char>, JsonView)>, k: Seq<char>, v: JsonView) -> JsonView
    decreases v, 2nat,
{
    match key_index_from(acc, k, 0) {
        Some(i) => merge_json(acc[i].1, v),
        None => v,
    }
}

/// Put member `k` with value `nv` in place (or at the end when new).
pub open spec fn merge_step(acc: Seq<(Seq<char>, JsonView)>, k: Seq<char>, nv: JsonView) -> Seq<
    (Seq<char>, JsonView),
> {
    match key_index_from(acc, k, 0) {
        Some(i) => acc.update(i, (k, nv)),
        None => acc.push((k, nv)),
    }
}

/// Deep-merge `overlay` onto `base` (see [`merge_json`]).
#[verifier::loop_isolation(false)]
pub fn deep_merge(base: JsonValue, overlay: &JsonValue) -> (r: JsonValue)
    ensures
        r@ == merge_json(base@, overlay@),
    decreases overlay,
{
    match overlay {
        JsonValue::Object(om) => match base {
            JsonValue::Object(bm) => {
                proof {
                    lemma_object_view(bm);
                    lemma_object_view(*om);
                }
                let ghost bv = members_view(bm@);
                let ghost ov = members_view(om@);
                let mut acc = bm;
                let mut i: usize = 0;
                assert(ov.subrange(0, 0) =~= Seq::<(Seq<char>, JsonView)>::empty());
                while i < om.len()
                    invariant
                        ov == members_view(om@),
                        i <= om.len(),
                        members_view(acc@) == merge_members(bv, ov.subrange(0, i as int)),
                    decreases om.len() - i,
                {
                    let ghost av = members_view(acc@);
                    let ghost k = om@[i as int].0@;
                    let ghost v = om@[i as int].1@;
                    assert(ov.subrange(0, i + 1).drop_last() =~= ov.subrange(0, i as int));
                    assert(ov.subrange(0, i + 1).last() == (k, v));
                    let key = &om[i].0;
                    let mut j: usize = 0;
                    let mut found = false;
                    while !found && j < acc.len()
                        invariant
                            av == members_view(acc@),
                            j <= acc.len(),
                            key@ == k,
                            key_index_from(av, k, 0) == key_index_from(av, k, j as int),
                            found ==> j < acc.len() && av[j as int].0 == k,
                        decreases acc.len() - j, if found { 0int } else { 1int },
                    {
                        if crate::text::str_eq(acc[j].0.as_str(), key.as_str()) {
                            found = true;
                        } else {
                            j = j + 1;
                        }
                    }
                    if found {
                        assert(key_index_from(av, k, 0) == Some(j as int));
                        let (kk, existing) = acc.remove(j);
                        proof {
                            assert(decreases_to!(*overlay => *om));
                            assert(decreases_to!(*om => om@));
                            assert(decreases_to!(om@ => om@[i as int]));
                            assert(decreases_to!(om@[i as int] => om@[i as int].1));
                        }
                        let merged = deep_merge(existing, &om[i].1);
                        let ghost mv = merged@;
                        acc.insert(j, (kk, merged));
                        assert(members_view(acc@) =~= av.update(j as int, (k, mv)));
                        assert(merge_json_at(av, k, v) == mv);
                        assert(merge_step(av, k, mv) == av.update(j as int, (k, mv)));
                    } else {
                        assert(key_index_from(av, k, 0) is None);
                        let kc = crate::text::copy_string(key);
                        let vc = crate::registry::copy_json(&om[i].1);
                        acc.push((kc, vc));
                        assert(members_view(acc@) =~= av.push((k, v)));
                        assert(merge_json_at(av, k, v) == v);
                    }
                    assert(merge_members(bv, ov.subrange(0, i + 1)) == merge_step(
                        av,
                        k,
                        merge_json_at(av, k, v),
                    ));
                    i = i + 1;
                }
                assert(ov.subrange(0, om.len() as int) =~= ov);
                let r = JsonValue::Object(acc);
                proof {
                    lemma_object_view(acc);
                }
                r
            },
            _ => crate::registry::copy_json(overlay),
        },
        _ => crate::registry::copy_json(overlay),
    }
}

/// Member names are pairwise distinct.
pub open spec fn distinct_keys(ms: Seq<(Seq<char>, JsonView)>) -> bool {
    forall|i: int, j: int| 0 <= i < j < ms.len() ==> #[trigger] ms[i].0 != #[trigger] ms[j].0
}

proof fn lemma_key_index_found(ms: Seq<(Seq<char>, JsonView)>, k: Seq<char>, s: int)
    requires
        0 <= s,
    ensures
        match key_index_from(ms, k, s) {
            Some(i) => s <= i < ms.len() && ms[i].0 == k,
            None => forall|j: int| s <= j < ms.len() ==> ms[j].0 != k,
        },
    decreases ms.len() - s,
{
    if s < ms.len() {
        lemma_key_index_found(ms, k, s + 1);
    }
}

proof fn lemma_key_index_update(
    ms: Seq<(Seq<char>, JsonView)>,
    i: int,
    x: (Seq<char>, JsonView),
    k: Seq<char>,
    s: int,
)
    requires
        0 <= i < ms.len(),
        x.0 == ms[i].0,
    ensures
        key_index_from(ms.update(i, x), k, s) == key_index_from(ms, k, s),
    decreases ms.len() - s,
{
    if 0 <= s < ms.len() {
        lemma_key_index_update(ms, i, x, k, s + 1);
    }
}

proof fn lemma_key_index_push(
    ms: Seq<(Seq<char>, JsonView)>,
    p: (Seq<char>, JsonView),
    k: Seq<char>,
    s: int,
)
    requires
        0 <= s <= ms.len(),
    ensures
        key_index_from(ms.push(p), k, s) == match key_index_from(ms, k, s) {
            Some(j) => Some(j),
            None => if p.0 == k {
                Some(ms.len() as int)
            } else {
                None
            },
        },
    decreases ms.len() - s,
{
    if s < ms.len() {
        lemma_key_index_push(ms, p, k, s + 1);
        assert(ms.push(p)[s] == ms[s]);
    } else {
        assert(key_index_from(ms.push(p), k, s + 1) is None);
        assert(ms.push(p)[s] == p);
    }
}

/// Looking a name up after a deep merge of object members: a name that the
/// overlay lacks keeps the base's value; one that only the overlay has takes
/// the overlay's value; one that both have takes the overlay's value merged
/// onto the base's (so arrays and scalars replace, objects merge deeply).
pub proof fn lemma_merge_lookup(
    bm: Seq<(Seq<char>, JsonView)>,
    om: Seq<(Seq<char>, JsonView)>,
    k: Seq<char>,
)
    requires
        distinct_keys(om),
    ensures
        lookup(merge_members(bm, om), k) == match lookup(om, k) {
            None => lookup(bm, k),
            Some(v) => match lookup(bm, k) {
                None => Some(v),
                Some(x) => Some(merge_json(x, v)),
            },
        },
    decreases om.len(),
{
    if om.len() > 0 {
        let d = om.drop_last();
        let kk = om.last().0;
        let vv = om.last().1;
        assert(distinct_keys(d));
        lemma_merge_lookup(bm, d, k);
        let acc = merge_members(bm, d);
        let nv = merge_json_at(acc, kk, vv);
        assert(om =~= d.push(om.last()));
        lemma_key_index_push(d, om.last(), k, 0);
        lemma_key_index_found(d, k, 0);
        lemma_key_index_found(acc, k, 0);
        lemma_key_index_found(acc, kk, 0);
        if kk == k {
            assert(key_index_from(d, k, 0) is None) by {
                if key_index_from(d, k, 0) is Some {
                    let i = key_index_from(d, k, 0)->0;
                    assert(om[i].0 == om[om.len() - 1].0);
                }
            }
        }
        match key_index_from(acc, kk, 0) {
            Some(i) => {
                lemma_key_index_update(acc, i, (kk, nv), k, 0);
            },
            None => {
                lemma_key_index_push(acc, (kk, nv), k, 0);
            },
        }
    }
}

} // verus!
