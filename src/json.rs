use vstd::prelude::*;

verus! {

/// A JSON document as a tree of plain values.
///
/// Objects keep their members in the order the parser hands them over.
#[derive(Debug, PartialEq)]
pub enum Json {
    Null,
    Bool(bool),
    Number(String),
    Str(String),
    Array(Vec<Json>),
    Object(Vec<(String, Json)>),
}

/// The mathematical model of a [`Json`] tree.
pub enum JsonValue {
    Null,
    Bool(bool),
    Number(Seq<char>),
    Str(Seq<char>),
    Array(Seq<JsonValue>),
    Object(Seq<(Seq<char>, JsonValue)>),
}

impl View for Json {
    type V = JsonValue;

    open spec fn view(&self) -> JsonValue
        decreases self,
    {
        match self {
            Json::Null => JsonValue::Null,
            Json::Bool(b) => JsonValue::Bool(*b),
            Json::Number(n) => JsonValue::Number(n@),
            Json::Str(s) => JsonValue::Str(s@),
            Json::Array(a) => JsonValue::Array(elements_view(a@)),
            Json::Object(o) => JsonValue::Object(members_view(o@)),
        }
    }
}

/// The models of the elements of an array, in order.
pub open spec fn elements_view(s: Seq<Json>) -> Seq<JsonValue>
    decreases s,
{
    if s.len() == 0 {
        Seq::empty()
    } else {
        elements_view(s.drop_last()).push(s.last().view())
    }
}

/// The models of the members of an object, in order.
pub open spec fn members_view(s: Seq<(String, Json)>) -> Seq<(Seq<char>, JsonValue)>
    decreases s,
{
    if s.len() == 0 {
        Seq::empty()
    } else {
        members_view(s.drop_last()).push((s.last().0@, s.last().1.view()))
    }
}

/// The names of a sequence of named entries, in order.
pub open spec fn entry_names<V>(o: Seq<(Seq<char>, V)>) -> Seq<Seq<char>> {
    o.map_values(|e: (Seq<char>, V)| e.0)
}

/// Whether no object anywhere in the tree `j` has two members of one name.
pub open spec fn distinct_names(j: JsonValue) -> bool
    decreases j,
{
    match j {
        JsonValue::Array(a) => forall|i: int| 0 <= i < a.len() ==> distinct_names(#[trigger] a[i]),
        JsonValue::Object(o) => {
            &&& entry_names(o).no_duplicates()
            &&& forall|i: int| 0 <= i < o.len() ==> distinct_names(#[trigger] o[i].1)
        },
        _ => true,
    }
}

/// The tree that serde_json parses out of a text, or `None` where the text is not JSON.
pub uninterp spec fn parsed_json(text: Seq<char>) -> Option<JsonValue>;

/// Relies on `serde_json::from_str::<serde_json::Value>`, a function of the text alone: the
/// same text always gives the same tree, or always fails. The tree is carried over by
/// `tree_of`: each object keeps serde_json's members in serde_json's order, one member per
/// name (serde_json's `Map` is a `BTreeMap`), and each number its printed form.
#[verifier::external_body]
fn parse_value(text: &str) -> (r: Option<Json>)
    ensures
        match r {
            Some(j) => parsed_json(text@) == Some(j@) && distinct_names(j@),
            None => parsed_json(text@) is None,
        },
{
    serde_json::from_str::<serde_json::Value>(text).ok().map(tree_of)
}

/// serde_json's parsed tree; it only passes through `tree_of`.
#[verifier::external_type_specification]
#[verifier::external_body]
pub struct ExValue(serde_json::Value);

/// Moves a `serde_json::Value` into a [`Json`] tree, variant for variant, numbers through
/// their `Display` form. It belongs to the boundary of `parse_value`, its only caller, whose
/// contract covers the tree it builds.
#[verifier::external_body]
fn tree_of(v: serde_json::Value) -> Json {
    match v {
        serde_json::Value::Null => Json::Null,
        serde_json::Value::Bool(b) => Json::Bool(b),
        serde_json::Value::Number(n) => Json::Number(n.to_string()),
        serde_json::Value::String(s) => Json::Str(s),
        serde_json::Value::Array(a) => Json::Array(a.into_iter().map(tree_of).collect()),
        serde_json::Value::Object(o) => Json::Object(o.into_iter().map(|(k, v)| (k, tree_of(v))).collect()),
    }
}

/// Parses a JSON text into a tree; no object in it has two members of one name.
pub fn parse_json(text: &str) -> (r: Option<Json>)
    ensures
        match r {
            Some(j) => parsed_json(text@) == Some(j@) && distinct_names(j@),
            None => parsed_json(text@) is None,
        },
{
    parse_value(text)
}

impl Json {
    /// A copy of the whole tree.
    pub fn deep_copy(&self) -> (r: Json)
        ensures
            r@ == self@,
        decreases self,
    {
        match self {
            Json::Null => Json::Null,
            Json::Bool(b) => Json::Bool(*b),
            Json::Number(n) => Json::Number(n.clone()),
            Json::Str(s) => Json::Str(s.clone()),
            Json::Array(a) => {
                let mut out: Vec<Json> = Vec::new();
                let mut i: usize = 0;
                while i < a.len()
                    invariant
                        0 <= i <= a@.len(),
                        *self == Json::Array(*a),
                        elements_view(out@) == elements_view(a@.take(i as int)),
                    decreases a@.len() - i,
                {
                    proof {
                        vstd::std_specs::vec::axiom_vec_index_decreases(*a, i as int);
                        assert(decreases_to!(*self => self->Array_0));
                    }
                    let c = a[i].deep_copy();
                    let ghost before = out@;
                    out.push(c);
                    proof {
                        assert(out@.drop_last() =~= before);
                        assert(a@.take(i + 1).drop_last() =~= a@.take(i as int));
                    }
                    i += 1;
                }
                proof {
                    assert(a@.take(i as int) =~= a@);
                }
                Json::Array(out)
            },
            Json::Object(o) => {
                let mut out: Vec<(String, Json)> = Vec::new();
                let mut i: usize = 0;
                while i < o.len()
                    invariant
                        0 <= i <= o@.len(),
                        *self == Json::Object(*o),
                        members_view(out@) == members_view(o@.take(i as int)),
                    decreases o@.len() - i,
                {
                    proof {
                        vstd::std_specs::vec::axiom_vec_index_decreases(*o, i as int);
                        assert(decreases_to!(*self => self->Object_0));
                        assert(decreases_to!(o@[i as int] => o@[i as int].1));
                    }
                    let key = o[i].0.clone();
                    let value = o[i].1.deep_copy();
                    let ghost before = out@;
                    out.push((key, value));
                    proof {
                        assert(out@.drop_last() =~= before);
                        assert(o@.take(i + 1).drop_last() =~= o@.take(i as int));
                    }
                    i += 1;
                }
                proof {
                    assert(o@.take(i as int) =~= o@);
                }
                Json::Object(out)
            },
        }
    }
}

} // verus!
