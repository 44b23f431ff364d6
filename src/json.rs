//! Structured values, their mathematical model, and the token estimator.
use vstd::prelude::*;
use vstd::string::*;

verus! {

/// A structured value: the tree of null, booleans, numbers, strings,
/// sequences and mappings that asks and replies carry.
#[derive(Debug, PartialEq)]
pub enum Json {
    Null,
    Bool(bool),
    /// A number, held as its JSON text (`3`, `-1.5e3`).
    Number(String),
    Str(String),
    Array(Vec<Json>),
    /// A mapping, held as its entries in order.
    Object(Vec<(String, Json)>),
}

/// The mathematical model of a [`Json`] value.
pub enum JsonModel {
    Null,
    Bool(bool),
    Number(Seq<char>),
    Str(Seq<char>),
    Array(Seq<JsonModel>),
    Object(Seq<(Seq<char>, JsonModel)>),
}

impl View for Json {
    type V = JsonModel;

    open spec fn view(&self) -> JsonModel
        decreases self, 0nat,
    {
        match self {
            Json::Null => JsonModel::Null,
            Json::Bool(b) => JsonModel::Bool(*b),
            Json::Number(t) => JsonModel::Number(t@),
            Json::Str(s) => JsonModel::Str(s@),
            Json::Array(items) => JsonModel::Array(item_models(items@)),
            Json::Object(entries) => JsonModel::Object(entry_models(entries@)),
        }
    }
}

/// The models of a sequence of values, in order.
pub open spec fn item_models(s: Seq<Json>) -> Seq<JsonModel>
    decreases s, 1nat,
{
    if s.len() == 0 {
        Seq::empty()
    } else {
        item_models(s.drop_last()).push(s.last()@)
    }
}

/// The models of a sequence of entries, in order.
pub open spec fn entry_models(s: Seq<(String, Json)>) -> Seq<(Seq<char>, JsonModel)>
    decreases s, 1nat,
{
    if s.len() == 0 {
        Seq::empty()
    } else {
        entry_models(s.drop_last()).push((s.last().0@, s.last().1@))
    }
}


/// Facts about the models of a sequence of values: one model per value, in order.
pub proof fn lemma_item_models(s: Seq<Json>)
    ensures
        item_models(s).len() == s.len(),
        forall|i: int| 0 <= i < s.len() ==> #[trigger] item_models(s)[i] == s[i]@,
    decreases s.len(),
{
    if s.len() > 0 {
        lemma_item_models(s.drop_last());
        assert(item_models(s) == item_models(s.drop_last()).push(s.last()@));
    }
}

/// Facts about the models of a sequence of entries: one model per entry, in order.
pub proof fn lemma_entry_models(s: Seq<(String, Json)>)
    ensures
        entry_models(s).len() == s.len(),
        forall|i: int|
            0 <= i < s.len() ==> #[trigger] entry_models(s)[i] == (s[i].0@, s[i].1@),
    decreases s.len(),
{
    if s.len() > 0 {
        lemma_entry_models(s.drop_last());
        assert(entry_models(s) == entry_models(s.drop_last()).push((s.last().0@, s.last().1@)));
    }
}

/// Adding an entry adds its model.
pub proof fn lemma_entry_models_push(s: Seq<(String, Json)>, e: (String, Json))
    ensures
        entry_models(s.push(e)) == entry_models(s).push((e.0@, e.1@)),
{
    assert(s.push(e).drop_last() =~= s);
}

/// Adding an item adds its model.
pub proof fn lemma_item_models_push(s: Seq<Json>, e: Json)
    ensures
        item_models(s.push(e)) == item_models(s).push(e@),
{
    assert(s.push(e).drop_last() =~= s);
}

/// The first entry of a mapping's entries under `key`.
pub open spec fn find_entry(entries: Seq<(Seq<char>, JsonModel)>, key: Seq<char>) -> Option<
    JsonModel,
>
    decreases entries.len(),
{
    if entries.len() == 0 {
        None
    } else if entries[0].0 == key {
        Some(entries[0].1)
    } else {
        find_entry(entries.subrange(1, entries.len() as int), key)
    }
}

/// The value under `key`, when `v` is a mapping that has that key.
pub open spec fn field(v: JsonModel, key: Seq<char>) -> Option<JsonModel> {
    match v {
        JsonModel::Object(entries) => find_entry(entries, key),
        _ => None,
    }
}

impl Json {
    /// The value under `key`, when this value is a mapping that has that key
    /// (its first entry under it).
    pub fn get(&self, key: &str) -> (r: Option<&Json>)
        ensures
            match r {
                Some(x) => field(self@, key@) == Some(x@),
                None => field(self@, key@) is None,
            },
    {
        match self {
            Json::Object(entries) => {
                let ghost ms = entry_models(entries@);
                proof {
                    lemma_entry_models(entries@);
                    assert(ms.subrange(0, ms.len() as int) =~= ms);
                }
                let wanted = String::from_str(key);
                let mut i: usize = 0;
                while i < entries.len()
                    invariant
                        i <= entries.len(),
                        self@ == JsonModel::Object(ms),
                        ms.len() == entries@.len(),
                        wanted@ == key@,
                        forall|j: int|
                            0 <= j < ms.len() ==> #[trigger] ms[j] == (
                                entries@[j].0@,
                                entries@[j].1@,
                            ),
                        find_entry(ms, key@) == find_entry(ms.subrange(i as int, ms.len() as int), key@),
                    decreases entries.len() - i,
                {
                    let ghost rest = ms.subrange(i as int, ms.len() as int);
                    if entries[i].0 == wanted {
                        return Some(&entries[i].1);
                    }
                    proof {
                        assert(rest.subrange(1, rest.len() as int) =~= ms.subrange(
                            i + 1,
                            ms.len() as int,
                        ));
                    }
                    i = i + 1;
                }
                None
            },
            _ => None,
        }
    }

    /// The text, when this value is a string.
    pub fn as_str(&self) -> (r: Option<&String>)
        ensures
            match r {
                Some(s) => self@ == JsonModel::Str(s@),
                None => !(self@ is Str),
            },
    {
        match self {
            Json::Str(s) => Some(s),
            _ => None,
        }
    }

    /// The items, when this value is a sequence.
    pub fn as_array(&self) -> (r: Option<&Vec<Json>>)
        ensures
            match r {
                Some(items) => self@ == JsonModel::Array(item_models(items@)),
                None => !(self@ is Array),
            },
    {
        match self {
            Json::Array(items) => Some(items),
            _ => None,
        }
    }

    /// A string value holding `s`.
    pub fn text(s: &str) -> (r: Json)
        ensures
            r@ == JsonModel::Str(s@),
    {
        Json::Str(String::from_str(s))
    }

    /// A copy of this value.
    pub fn duplicate(&self) -> (r: Json)
        ensures
            r@ == self@,
        decreases self@,
    {
        match self {
            Json::Null => Json::Null,
            Json::Bool(b) => Json::Bool(*b),
            Json::Number(t) => Json::Number(t.clone()),
            Json::Str(s) => Json::Str(s.clone()),
            Json::Array(items) => {
                let mut out: Vec<Json> = Vec::new();
                let mut i: usize = 0;
                while i < items.len()
                    invariant
                        i <= items.len(),
                        out@.len() == i,
                        self@ == JsonModel::Array(item_models(items@)),
                        forall|j: int| 0 <= j < i ==> #[trigger] out@[j]@ == items@[j]@,
                    decreases items.len() - i,
                {
                    proof {
                        lemma_item_models(items@);
                        assert(decreases_to!(self@ => self@->Array_0));
                        assert(decreases_to!(self@->Array_0 => self@->Array_0[i as int]));
                    }
                    out.push(items[i].duplicate());
                    i = i + 1;
                }
                proof {
                    lemma_item_models(out@);
                    lemma_item_models(items@);
                    assert(item_models(out@) =~= item_models(items@));
                }
                Json::Array(out)
            },
            Json::Object(entries) => {
                let mut out: Vec<(String, Json)> = Vec::new();
                let mut i: usize = 0;
                while i < entries.len()
                    invariant
                        i <= entries.len(),
                        out@.len() == i,
                        self@ == JsonModel::Object(entry_models(entries@)),
                        forall|j: int|
                            0 <= j < i ==> #[trigger] out@[j].0@ == entries@[j].0@
                                && out@[j].1@ == entries@[j].1@,
                    decreases entries.len() - i,
                {
                    proof {
                        lemma_entry_models(entries@);
                        assert(decreases_to!(self@ => self@->Object_0));
                        assert(decreases_to!(self@->Object_0 => self@->Object_0[i as int]));
                        assert(decreases_to!(self@->Object_0[i as int] => self@->Object_0[i as int].1));
                    }
                    let v = entries[i].1.duplicate();
                    out.push((entries[i].0.clone(), v));
                    i = i + 1;
                }
                proof {
                    lemma_entry_models(out@);
                    lemma_entry_models(entries@);
                    assert(entry_models(out@) =~= entry_models(entries@));
                }
                Json::Object(out)
            },
        }
    }
}


/// The text of the JSON string literal that stands for `s`.
pub uninterp spec fn json_quoted(s: Seq<char>) -> Seq<char>;

/// Relies on serde_json's serializer for strings (the `Display` of
/// `Value::String`): the result is the JSON string literal for `s`, quotes
/// and escapes included, and depends on `s` alone.
#[verifier::external_body]
fn quoted(s: &str) -> (r: String)
    ensures
        r@ == json_quoted(s@),
{
    serde_json::Value::String(s.to_string()).to_string()
}

/// The number of characters of the compact JSON text of `v`: the size that
/// the token budget is charged in.
pub open spec fn text_len(v: JsonModel) -> nat
    decreases v, 0nat,
{
    match v {
        JsonModel::Null => 4,
        JsonModel::Bool(b) => if b { 4 } else { 5 },
        JsonModel::Number(t) => t.len(),
        JsonModel::Str(s) => json_quoted(s).len(),
        JsonModel::Array(items) => 2 + items_text_len(items),
        JsonModel::Object(entries) => 2 + entries_text_len(entries),
    }
}

/// The text length of a sequence of values, separators included.
pub open spec fn items_text_len(s: Seq<JsonModel>) -> nat
    decreases s, 1nat,
{
    if s.len() == 0 {
        0
    } else {
        items_text_len(s.drop_last()) + text_len(s.last()) + if s.len() > 1 {
            1nat
        } else {
            0nat
        }
    }
}

/// The text length of `"key":value`.
pub open spec fn entry_text_len(e: (Seq<char>, JsonModel)) -> nat
    decreases e, 2nat,
{
    json_quoted(e.0).len() + 1 + text_len(e.1)
}

/// The text length of a sequence of entries, separators included.
pub open spec fn entries_text_len(s: Seq<(Seq<char>, JsonModel)>) -> nat
    decreases s, 3nat,
{
    if s.len() == 0 {
        0
    } else {
        entries_text_len(s.drop_last()) + entry_text_len(s.last()) + if s.len() > 1 {
            1nat
        } else {
            0nat
        }
    }
}

proof fn lemma_items_prefix(s: Seq<JsonModel>, i: int)
    requires
        0 <= i <= s.len(),
    ensures
        items_text_len(s.subrange(0, i)) <= items_text_len(s),
    decreases s.len(),
{
    if i < s.len() {
        lemma_items_prefix(s.drop_last(), i);
        assert(s.drop_last().subrange(0, i) =~= s.subrange(0, i));
    } else {
        assert(s.subrange(0, i) =~= s);
    }
}

proof fn lemma_entries_prefix(s: Seq<(Seq<char>, JsonModel)>, i: int)
    requires
        0 <= i <= s.len(),
    ensures
        entries_text_len(s.subrange(0, i)) <= entries_text_len(s),
    decreases s.len(),
{
    if i < s.len() {
        lemma_entries_prefix(s.drop_last(), i);
        assert(s.drop_last().subrange(0, i) =~= s.subrange(0, i));
    } else {
        assert(s.subrange(0, i) =~= s);
    }
}

/// The token cost of `v` when it is at most `limit`; `None` when it is more.
pub fn tokens_within(v: &Json, limit: usize) -> (r: Option<usize>)
    ensures
        match r {
            Some(n) => n == text_len(v@) && n <= limit,
            None => text_len(v@) > limit,
        },
    decreases v@,
{
    match v {
        Json::Null => if 4 <= limit { Some(4) } else { None },
        Json::Bool(b) => {
            let n: usize = if *b { 4 } else { 5 };
            if n <= limit { Some(n) } else { None }
        },
        Json::Number(t) => {
            let n = t.as_str().unicode_len();
            if n <= limit { Some(n) } else { None }
        },
        Json::Str(s) => {
            let n = quoted(s.as_str()).as_str().unicode_len();
            if n <= limit { Some(n) } else { None }
        },
        Json::Array(items) => {
            if limit < 2 {
                return None;
            }
            let ghost ms = item_models(items@);
            proof {
                lemma_item_models(items@);
                assert(ms.subrange(0, 0) =~= Seq::<JsonModel>::empty());
            }
            let mut total: usize = 2;
            let mut i: usize = 0;
            while i < items.len()
                invariant
                    i <= items.len(),
                    v@ == JsonModel::Array(ms),
                    ms == item_models(items@),
                    ms.len() == items@.len(),
                    forall|j: int| 0 <= j < ms.len() ==> #[trigger] ms[j] == items@[j]@,
                    total == 2 + items_text_len(ms.subrange(0, i as int)),
                    total <= limit,
                decreases items.len() - i,
            {
                let sep: usize = if i > 0 { 1 } else { 0 };
                proof {
                    assert(ms.subrange(0, i + 1).drop_last() =~= ms.subrange(0, i as int));
                    assert(items_text_len(ms.subrange(0, i + 1)) == items_text_len(
                        ms.subrange(0, i as int),
                    ) + text_len(ms[i as int]) + sep);
                    assert(decreases_to!(v@ => v@->Array_0));
                    assert(decreases_to!(v@->Array_0 => v@->Array_0[i as int]));
                }
                if sep > limit - total {
                    proof {
                        lemma_items_prefix(ms, i + 1);
                    }
                    return None;
                }
                match tokens_within(&items[i], limit - total - sep) {
                    Some(n) => {
                        total = total + sep + n;
                    },
                    None => {
                        proof {
                            lemma_items_prefix(ms, i + 1);
                        }
                        return None;
                    },
                }
                i = i + 1;
            }
            proof {
                assert(ms.subrange(0, i as int) =~= ms);
            }
            Some(total)
        },
        Json::Object(entries) => {
            if limit < 2 {
                return None;
            }
            let ghost ms = entry_models(entries@);
            proof {
                lemma_entry_models(entries@);
                assert(ms.subrange(0, 0) =~= Seq::<(Seq<char>, JsonModel)>::empty());
            }
            let mut total: usize = 2;
            let mut i: usize = 0;
            while i < entries.len()
                invariant
                    i <= entries.len(),
                    v@ == JsonModel::Object(ms),
                    ms == entry_models(entries@),
                    ms.len() == entries@.len(),
                    forall|j: int|
                        0 <= j < ms.len() ==> #[trigger] ms[j] == (entries@[j].0@, entries@[j].1@),
                    total == 2 + entries_text_len(ms.subrange(0, i as int)),
                    total <= limit,
                decreases entries.len() - i,
            {
                let sep: usize = if i > 0 { 1 } else { 0 };
                proof {
                    assert(ms.subrange(0, i + 1).drop_last() =~= ms.subrange(0, i as int));
                    assert(entries_text_len(ms.subrange(0, i + 1)) == entries_text_len(
                        ms.subrange(0, i as int),
                    ) + entry_text_len(ms[i as int]) + sep);
                    assert(decreases_to!(v@ => v@->Object_0));
                    assert(decreases_to!(v@->Object_0 => v@->Object_0[i as int]));
                    assert(decreases_to!(v@->Object_0[i as int] => v@->Object_0[i as int].1));
                }
                let k = quoted(entries[i].0.as_str()).as_str().unicode_len();
                if sep > limit - total || k > limit - total - sep || 1 > limit - total - sep - k {
                    proof {
                        lemma_entries_prefix(ms, i + 1);
                    }
                    return None;
                }
                match tokens_within(&entries[i].1, limit - total - sep - k - 1) {
                    Some(n) => {
                        total = total + sep + k + 1 + n;
                    },
                    None => {
                        proof {
                            lemma_entries_prefix(ms, i + 1);
                        }
                        return None;
                    },
                }
                i = i + 1;
            }
            proof {
                assert(ms.subrange(0, i as int) =~= ms);
            }
            Some(total)
        },
    }
}

/// The token cost of `v`: the length of its compact JSON text, or the
/// largest `usize` where that length does not fit in one.
pub fn estimate_tokens(v: &Json) -> (r: usize)
    ensures
        r == if text_len(v@) <= usize::MAX { text_len(v@) } else { usize::MAX as nat },
{
    match tokens_within(v, usize::MAX) {
        Some(n) => n,
        None => usize::MAX,
    }
}

} // verus!
