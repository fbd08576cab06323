//! Form properties given as a JSON object: each member becomes a
//! (name, text) pair.
use vstd::prelude::*;
use serde_json::Value;

verus! {

/// A member value of a JSON object, as far as a property needs it.
pub enum JsonScalar {
    /// A JSON string, unescaped.
    Text(String),
    /// `true` or `false`.
    Flag(bool),
    /// A number, as serde_json prints it.
    Number(String),
    /// Any other value (null, array, object), as serde_json prints it.
    Other(String),
}

/// The mathematical value of a [`JsonScalar`].
pub enum JsonScalarView {
    Text(Seq<char>),
    Flag(bool),
    Number(Seq<char>),
    Other(Seq<char>),
}

impl View for JsonScalar {
    type V = JsonScalarView;

    open spec fn view(&self) -> JsonScalarView {
        match self {
            JsonScalar::Text(s) => JsonScalarView::Text(s@),
            JsonScalar::Flag(b) => JsonScalarView::Flag(*b),
            JsonScalar::Number(s) => JsonScalarView::Number(s@),
            JsonScalar::Other(s) => JsonScalarView::Other(s@),
        }
    }
}

/// The members of the JSON object that a text holds, in serde_json's map
/// order; `None` when the text is not JSON or not an object.
pub uninterp spec fn json_object_members(json: Seq<char>) -> Option<Seq<(Seq<char>, JsonScalarView)>>;

pub open spec fn members_view(v: Seq<(String, JsonScalar)>) -> Seq<(Seq<char>, JsonScalarView)> {
    v.map_values(|e: (String, JsonScalar)| (e.0@, e.1@))
}

/// No two members have the same name.
pub open spec fn names_distinct<A>(ms: Seq<(Seq<char>, A)>) -> bool {
    forall|i: int, j: int| 0 <= i < j < ms.len() ==> #[trigger] ms[i].0 != #[trigger] ms[j].0
}

/// Parses `json` with `serde_json::from_str::<serde_json::Value>` and, when
/// it is an object, hands out its members in the map's order. Claimed: the
/// result is `json_object_members(json@)`, a function of the text alone, and
/// no two members share a name (serde_json's map holds each key once); what
/// that function is (JSON grammar, number printing) is not stated here.
#[verifier::external_body]
fn parse_json_object(json: &str) -> (r: Option<Vec<(String, JsonScalar)>>)
    ensures
        json_object_members(json@) == (match r {
            Some(v) => Some(members_view(v@)),
            None => None,
        }),
        match r {
            Some(v) => names_distinct(members_view(v@)),
            None => true,
        },
{
    let Ok(Value::Object(map)) = serde_json::from_str::<Value>(json) else { return None };
    Some(map.into_iter().map(|(k, v)| (k, match v {
        Value::String(s) => JsonScalar::Text(s),
        Value::Bool(b) => JsonScalar::Flag(b),
        Value::Number(n) => JsonScalar::Number(n.to_string()),
        other => JsonScalar::Other(other.to_string()),
    })).collect())
}

/// The text a property keeps for a JSON value: strings as they are, booleans
/// as `1`/`0`, anything else as printed.
pub open spec fn scalar_text(v: JsonScalarView) -> Seq<char> {
    match v {
        JsonScalarView::Text(s) => s,
        JsonScalarView::Flag(b) => if b { seq!['1'] } else { seq!['0'] },
        JsonScalarView::Number(s) => s,
        JsonScalarView::Other(s) => s,
    }
}

/// The properties that `parse_form_properties_json` makes of a JSON text:
/// none unless it is an object.
pub open spec fn props_spec(json: Seq<char>) -> Seq<(Seq<char>, Seq<char>)> {
    match json_object_members(json) {
        Some(ms) => ms.map_values(|m: (Seq<char>, JsonScalarView)| (m.0, scalar_text(m.1))),
        None => Seq::empty(),
    }
}

pub open spec fn props_view(v: Seq<(String, String)>) -> Seq<(Seq<char>, Seq<char>)> {
    v.map_values(|e: (String, String)| (e.0@, e.1@))
}

/// The properties given by a JSON object text (none when it is not one).
pub fn parse_form_properties_json(json: &str) -> (props: Vec<(String, String)>)
    ensures
        props_view(props@) == props_spec(json@),
        names_distinct(props_view(props@)),
{
    let mut props: Vec<(String, String)> = Vec::new();
    let members = match parse_json_object(json) {
        Some(m) => m,
        None => {
            assert(props_view(props@) =~= props_spec(json@));
            return props;
        },
    };
    let ghost ms = members_view(members@);
    let n = members.len();
    let mut rest = members;
    let mut i: usize = 0;
    while i < n
        invariant
            i <= n,
            n == ms.len(),
            ms == members_view(members@),
            rest@.len() == n - i,
            rest@ == members@.skip(i as int),
            props@.len() == i,
            props_view(props@) =~= ms.take(i as int).map_values(
                |m: (Seq<char>, JsonScalarView)| (m.0, scalar_text(m.1)),
            ),
        decreases n - i,
    {
        assert(rest@[0] == members@[i as int]);
        let ghost entry = ms[i as int];
        let (key, value) = rest.remove(0);
        assert(key@ == entry.0 && value@ == entry.1);
        assert(members@.skip(i + 1) =~= rest@);
        let text = match value {
            JsonScalar::Text(s) => s,
            JsonScalar::Flag(b) => if b { String::from_str("1") } else { String::from_str("0") },
            JsonScalar::Number(s) => s,
            JsonScalar::Other(s) => s,
        };
        proof {
            reveal_strlit("1");
            reveal_strlit("0");
        }
        assert(text@ == scalar_text(entry.1));
        let ghost before = props@;
        props.push((key, text));
        i = i + 1;
        proof {
            assert(props@ =~= before.push(props@[i - 1]));
            assert(props_view(props@) =~= props_view(before).push((entry.0, scalar_text(entry.1))));
            assert(ms.take(i as int) =~= ms.take(i - 1).push(ms[i - 1]));
        }
    }
    assert(ms.take(n as int) =~= ms);
    assert forall|a: int, b: int| 0 <= a < b < props_view(props@).len() implies #[trigger] props_view(props@)[a].0
        != #[trigger] props_view(props@)[b].0 by {
        assert(props_view(props@)[a].0 == ms[a].0);
        assert(props_view(props@)[b].0 == ms[b].0);
    }
    props
}

} // verus!
