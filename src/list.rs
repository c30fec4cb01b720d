//! The directory list: every API that the discovery service knows, with the URL of each
//! descriptor.
use vstd::prelude::*;

use crate::decode::{
    fields_of, find, first_unknown, known, lemma_first_unknown_insert, invalid, invalid_value, lemma_elements_view, lemma_members_view, member,
    missing, missing_field, named, nested, object_fields, opt_str, opt_string, opt_view, path_view,
    req_bool, req_boolean, req_str, req_string, str_list, string_list, strings_view, DecodeError,
    Fault, Members, PathSegment, Shape, Step,
};
use crate::json::{elements_view, members_view, parse_json, parsed_json, Json, JsonValue};
use crate::{DiscoveryItemKind, DiscoveryListKind, Error, ErrorView, IconKey, Version};

verus! {

/// The list of the APIs that the directory holds.
#[derive(Debug, PartialEq)]
pub struct DirectoryList {
    pub discovery_version: Version,
    pub kind: DiscoveryListKind,
    pub items: Vec<DirectoryItem>,
}

/// One API, at one version, as the directory lists it.
#[derive(Debug, PartialEq)]
pub struct DirectoryItem {
    pub kind: DiscoveryItemKind,
    pub id: String,
    pub name: String,
    pub version: String,
    pub title: String,
    pub description: String,
    pub discovery_rest_url: String,
    pub discovery_link: Option<String>,
    pub icons: Vec<(IconKey, String)>,
    pub documentation_link: Option<String>,
    pub labels: Vec<String>,
    pub preferred: bool,
}

/// The model of a [`DirectoryList`].
pub struct DirectoryListView {
    pub discovery_version: Version,
    pub kind: DiscoveryListKind,
    pub items: Seq<DirectoryItemView>,
}

/// The model of a [`DirectoryItem`].
pub struct DirectoryItemView {
    pub kind: DiscoveryItemKind,
    pub id: Seq<char>,
    pub name: Seq<char>,
    pub version: Seq<char>,
    pub title: Seq<char>,
    pub description: Seq<char>,
    pub discovery_rest_url: Seq<char>,
    pub discovery_link: Option<Seq<char>>,
    pub icons: Seq<(IconKey, Seq<char>)>,
    pub documentation_link: Option<Seq<char>>,
    pub labels: Seq<Seq<char>>,
    pub preferred: bool,
}

/// The model of a list of icons.
pub open spec fn icons_view(v: Seq<(IconKey, String)>) -> Seq<(IconKey, Seq<char>)> {
    v.map_values(|e: (IconKey, String)| (e.0, e.1@))
}

impl View for DirectoryItem {
    type V = DirectoryItemView;

    open spec fn view(&self) -> DirectoryItemView {
        DirectoryItemView {
            kind: self.kind,
            id: self.id@,
            name: self.name@,
            version: self.version@,
            title: self.title@,
            description: self.description@,
            discovery_rest_url: self.discovery_rest_url@,
            discovery_link: opt_view(self.discovery_link),
            icons: icons_view(self.icons@),
            documentation_link: opt_view(self.documentation_link),
            labels: strings_view(self.labels@),
            preferred: self.preferred,
        }
    }
}

/// The models of a sequence of items.
pub open spec fn items_view(v: Seq<DirectoryItem>) -> Seq<DirectoryItemView> {
    v.map_values(|i: DirectoryItem| i@)
}

impl View for DirectoryList {
    type V = DirectoryListView;

    open spec fn view(&self) -> DirectoryListView {
        DirectoryListView {
            discovery_version: self.discovery_version,
            kind: self.kind,
            items: items_view(self.items@),
        }
    }
}

/// The icons of an icon object, whose members are named by icon size; a name outside the
/// sizes is an invalid value, as any name outside a closed set is.
pub open spec fn icon_entries(m: Members) -> Result<Seq<(IconKey, Seq<char>)>, Fault>
    decreases m.len(),
{
    if m.len() == 0 {
        Ok(Seq::empty())
    } else {
        match icon_entries(m.drop_last()) {
            Err(f) => Err(f),
            Ok(x) => match IconKey::from_name(m.last().0) {
                None => Err(Fault::InvalidValue(seq![Step::Key(m.last().0)], JsonValue::Str(m.last().0))),
                Some(key) => match m.last().1 {
                    JsonValue::Str(s) => Ok(x.push((key, s))),
                    v => Err(invalid(m.last().0, v)),
                },
            },
        }
    }
}

/// The icon member `k`, empty where absent.
pub open spec fn icon_map(o: Members, k: Seq<char>) -> Result<Seq<(IconKey, Seq<char>)>, Fault> {
    match member(o, k) {
        None => Ok(Seq::empty()),
        Some(JsonValue::Object(m)) => match icon_entries(m) {
            Ok(x) => Ok(x),
            Err(f) => Err(nested(f, Step::Key(k))),
        },
        Some(v) => Err(invalid(k, v)),
    }
}

proof fn lemma_icon_entries_prefix(m: Members, n: int)
    requires
        0 <= n <= m.len(),
        icon_entries(m.take(n)) is Err,
    ensures
        icon_entries(m) == icon_entries(m.take(n)),
    decreases m.len(),
{
    if n < m.len() {
        assert(m.drop_last().take(n) =~= m.take(n));
        lemma_icon_entries_prefix(m.drop_last(), n);
    } else {
        assert(m.take(n) =~= m);
    }
}

/// The icon member `k` of `o`.
pub fn icons_of(o: &Vec<(String, Json)>, k: &str) -> (r: Result<Vec<(IconKey, String)>, DecodeError>)
    ensures
        match r {
            Ok(v) => icon_map(members_view(o@), k@) == Ok::<Seq<(IconKey, Seq<char>)>, Fault>(icons_view(v@)),
            Err(e) => icon_map(members_view(o@), k@) == Err::<Seq<(IconKey, Seq<char>)>, Fault>(e@),
        },
{
    let m = match find(o, k) {
        None => {
            let v: Vec<(IconKey, String)> = Vec::new();
            assert(icons_view(v@) =~= Seq::<(IconKey, Seq<char>)>::empty());
            return Ok(v);
        },
        Some(Json::Object(m)) => m,
        Some(v) => return Err(invalid_value(k, v)),
    };
    let ghost mv = members_view(m@);
    proof {
        lemma_members_view(m@);
        assert(mv.take(0) =~= Seq::<(Seq<char>, JsonValue)>::empty());
        assert(icons_view(Seq::<(IconKey, String)>::empty()) =~= Seq::<(IconKey, Seq<char>)>::empty());
    }
    let mut out: Vec<(IconKey, String)> = Vec::new();
    let mut i: usize = 0;
    while i < m.len()
        invariant
            0 <= i <= m@.len(),
            member(members_view(o@), k@) == Some(JsonValue::Object(mv)),
            mv == members_view(m@),
            mv.len() == m@.len(),
            forall|n: int| 0 <= n < m@.len() ==> #[trigger] mv[n] == (m@[n].0@, m@[n].1@),
            icon_entries(mv.take(i as int)) == Ok::<Seq<(IconKey, Seq<char>)>, Fault>(icons_view(out@)),
        decreases m@.len() - i,
    {
        assert(mv.take(i + 1).drop_last() =~= mv.take(i as int));
        assert(mv.take(i + 1).last() == mv[i as int]);
        let name = &m[i].0;
        let key = match IconKey::parse(name) {
            Some(key) => key,
            None => {
                let mut p: Vec<PathSegment> = Vec::new();
                p.push(PathSegment::Key(name.clone()));
                assert(path_view(p@) =~= seq![Step::Key(name@)]);
                proof {
                    lemma_icon_entries_prefix(mv, i + 1);
                }
                return Err(
                    DecodeError::InvalidValue(p, Json::Str(name.clone())).nest(
                        PathSegment::Key(k.to_owned()),
                    ),
                );
            },
        };
        match &m[i].1 {
            Json::Str(s) => {
                let ghost before = out@;
                out.push((key, s.clone()));
                assert(icons_view(out@) =~= icons_view(before).push((key, s@)));
            },
            v => {
                let mut p: Vec<PathSegment> = Vec::new();
                p.push(PathSegment::Key(name.clone()));
                assert(path_view(p@) =~= seq![Step::Key(name@)]);
                proof {
                    lemma_icon_entries_prefix(mv, i + 1);
                }
                return Err(DecodeError::InvalidValue(p, v.deep_copy()).nest(PathSegment::Key(k.to_owned())));
            },
        }
        i += 1;
    }
    assert(mv.take(i as int) =~= mv);
    Ok(out)
}

/// What the JSON value `j` decodes to as a directory item.
pub open spec fn item_spec(j: JsonValue) -> Result<DirectoryItemView, Fault> {
    match fields_of(j, Shape::DirectoryItem) {
        Err(f) => Err(f),
        Ok(o) => {
            let kind = named(
                req_str(o, "kind"@),
                "kind"@,
                DiscoveryItemKind::from_name(req_str(o, "kind"@)->Ok_0),
            );
            let id = req_str(o, "id"@);
            let name = req_str(o, "name"@);
            let version = req_str(o, "version"@);
            let title = req_str(o, "title"@);
            let description = req_str(o, "description"@);
            let discovery_rest_url = req_str(o, "discoveryRestUrl"@);
            let discovery_link = opt_str(o, "discoveryLink"@);
            let icons = icon_map(o, "icons"@);
            let documentation_link = opt_str(o, "documentationLink"@);
            let labels = str_list(o, "labels"@);
            let preferred = req_bool(o, "preferred"@);
            if kind is Err {
                Err(kind->Err_0)
            } else if id is Err {
                Err(id->Err_0)
            } else if name is Err {
                Err(name->Err_0)
            } else if version is Err {
                Err(version->Err_0)
            } else if title is Err {
                Err(title->Err_0)
            } else if description is Err {
                Err(description->Err_0)
            } else if discovery_rest_url is Err {
                Err(discovery_rest_url->Err_0)
            } else if discovery_link is Err {
                Err(discovery_link->Err_0)
            } else if icons is Err {
                Err(icons->Err_0)
            } else if documentation_link is Err {
                Err(documentation_link->Err_0)
            } else if labels is Err {
                Err(labels->Err_0)
            } else if preferred is Err {
                Err(preferred->Err_0)
            } else {
                Ok(
                    DirectoryItemView {
                        kind: kind->Ok_0,
                        id: id->Ok_0,
                        name: name->Ok_0,
                        version: version->Ok_0,
                        title: title->Ok_0,
                        description: description->Ok_0,
                        discovery_rest_url: discovery_rest_url->Ok_0,
                        discovery_link: discovery_link->Ok_0,
                        icons: icons->Ok_0,
                        documentation_link: documentation_link->Ok_0,
                        labels: labels->Ok_0,
                        preferred: preferred->Ok_0,
                    },
                )
            }
        },
    }
}

/// Decodes a directory item.
pub fn decode_item(j: &Json) -> (r: Result<DirectoryItem, DecodeError>)
    ensures
        match r {
            Ok(d) => item_spec(j@) == Ok::<DirectoryItemView, Fault>(d@),
            Err(e) => item_spec(j@) == Err::<DirectoryItemView, Fault>(e@),
        },
{
    let o = match object_fields(j, Shape::DirectoryItem) {
        Ok(o) => o,
        Err(e) => return Err(e),
    };
    let kind_name = match req_string(o, "kind") {
        Ok(s) => s,
        Err(e) => return Err(e),
    };
    let kind = match DiscoveryItemKind::parse(&kind_name) {
        Some(k) => k,
        None => return Err(invalid_value("kind", &Json::Str(kind_name))),
    };
    let id = match req_string(o, "id") {
        Ok(s) => s,
        Err(e) => return Err(e),
    };
    let name = match req_string(o, "name") {
        Ok(s) => s,
        Err(e) => return Err(e),
    };
    let version = match req_string(o, "version") {
        Ok(s) => s,
        Err(e) => return Err(e),
    };
    let title = match req_string(o, "title") {
        Ok(s) => s,
        Err(e) => return Err(e),
    };
    let description = match req_string(o, "description") {
        Ok(s) => s,
        Err(e) => return Err(e),
    };
    let discovery_rest_url = match req_string(o, "discoveryRestUrl") {
        Ok(s) => s,
        Err(e) => return Err(e),
    };
    let discovery_link = match opt_string(o, "discoveryLink") {
        Ok(s) => s,
        Err(e) => return Err(e),
    };
    let icons = match icons_of(o, "icons") {
        Ok(v) => v,
        Err(e) => return Err(e),
    };
    let documentation_link = match opt_string(o, "documentationLink") {
        Ok(s) => s,
        Err(e) => return Err(e),
    };
    let labels = match string_list(o, "labels") {
        Ok(v) => v,
        Err(e) => return Err(e),
    };
    let preferred = match req_boolean(o, "preferred") {
        Ok(b) => b,
        Err(e) => return Err(e),
    };
    Ok(
        DirectoryItem {
            kind,
            id,
            name,
            version,
            title,
            description,
            discovery_rest_url,
            discovery_link,
            icons,
            documentation_link,
            labels,
            preferred,
        },
    )
}

/// The items of an array of directory items.
pub open spec fn item_seq(a: Seq<JsonValue>) -> Result<Seq<DirectoryItemView>, Fault>
    decreases a.len(),
{
    if a.len() == 0 {
        Ok(Seq::empty())
    } else {
        match item_seq(a.drop_last()) {
            Err(f) => Err(f),
            Ok(x) => match item_spec(a.last()) {
                Ok(d) => Ok(x.push(d)),
                Err(f) => Err(nested(f, Step::Index(a.len() - 1))),
            },
        }
    }
}

proof fn lemma_item_seq_prefix(a: Seq<JsonValue>, n: int)
    requires
        0 <= n <= a.len(),
        item_seq(a.take(n)) is Err,
    ensures
        item_seq(a) == item_seq(a.take(n)),
    decreases a.len(),
{
    if n < a.len() {
        assert(a.drop_last().take(n) =~= a.take(n));
        lemma_item_seq_prefix(a.drop_last(), n);
    } else {
        assert(a.take(n) =~= a);
    }
}

/// The required member `k` that holds the array of directory items.
pub open spec fn items_spec(o: Members, k: Seq<char>) -> Result<Seq<DirectoryItemView>, Fault> {
    match member(o, k) {
        None => Err(missing(k)),
        Some(JsonValue::Array(a)) => match item_seq(a) {
            Ok(x) => Ok(x),
            Err(f) => Err(nested(f, Step::Key(k))),
        },
        Some(v) => Err(invalid(k, v)),
    }
}

/// Decodes the required member `k` of `o` as an array of directory items.
pub fn decode_items(o: &Vec<(String, Json)>, k: &str) -> (r: Result<Vec<DirectoryItem>, DecodeError>)
    ensures
        match r {
            Ok(v) => items_spec(members_view(o@), k@) == Ok::<Seq<DirectoryItemView>, Fault>(items_view(v@)),
            Err(e) => items_spec(members_view(o@), k@) == Err::<Seq<DirectoryItemView>, Fault>(e@),
        },
{
    let a = match find(o, k) {
        None => return Err(missing_field(k)),
        Some(Json::Array(a)) => a,
        Some(v) => return Err(invalid_value(k, v)),
    };
    let ghost ev = elements_view(a@);
    proof {
        lemma_elements_view(a@);
        assert(ev.take(0) =~= Seq::<JsonValue>::empty());
        assert(items_view(Seq::<DirectoryItem>::empty()) =~= Seq::<DirectoryItemView>::empty());
    }
    let mut out: Vec<DirectoryItem> = Vec::new();
    let mut i: usize = 0;
    while i < a.len()
        invariant
            0 <= i <= a@.len(),
            member(members_view(o@), k@) == Some(JsonValue::Array(ev)),
            ev == elements_view(a@),
            ev.len() == a@.len(),
            forall|n: int| 0 <= n < a@.len() ==> #[trigger] ev[n] == a@[n]@,
            item_seq(ev.take(i as int)) == Ok::<Seq<DirectoryItemView>, Fault>(items_view(out@)),
        decreases a@.len() - i,
    {
        assert(ev.take(i + 1).drop_last() =~= ev.take(i as int));
        assert(ev.take(i + 1).last() == a@[i as int]@);
        match decode_item(&a[i]) {
            Ok(d) => {
                let ghost before = out@;
                out.push(d);
                assert(items_view(out@) =~= items_view(before).push(d@));
            },
            Err(e) => {
                proof {
                    lemma_item_seq_prefix(ev, i + 1);
                }
                return Err(e.nest(PathSegment::Index(i)).nest(PathSegment::Key(k.to_owned())));
            },
        }
        i += 1;
    }
    assert(ev.take(i as int) =~= ev);
    Ok(out)
}

/// What the JSON value `j` decodes to as a directory list.
pub open spec fn list_spec(j: JsonValue) -> Result<DirectoryListView, Fault> {
    match fields_of(j, Shape::DirectoryList) {
        Err(f) => Err(f),
        Ok(o) => {
            let discovery_version = named(
                req_str(o, "discoveryVersion"@),
                "discoveryVersion"@,
                Version::from_name(req_str(o, "discoveryVersion"@)->Ok_0),
            );
            let kind = named(
                req_str(o, "kind"@),
                "kind"@,
                DiscoveryListKind::from_name(req_str(o, "kind"@)->Ok_0),
            );
            let items = items_spec(o, "items"@);
            if discovery_version is Err {
                Err(discovery_version->Err_0)
            } else if kind is Err {
                Err(kind->Err_0)
            } else if items is Err {
                Err(items->Err_0)
            } else {
                Ok(
                    DirectoryListView {
                        discovery_version: discovery_version->Ok_0,
                        kind: kind->Ok_0,
                        items: items->Ok_0,
                    },
                )
            }
        },
    }
}

/// Decodes a directory list.
pub fn decode_list(j: &Json) -> (r: Result<DirectoryList, DecodeError>)
    ensures
        match r {
            Ok(d) => list_spec(j@) == Ok::<DirectoryListView, Fault>(d@),
            Err(e) => list_spec(j@) == Err::<DirectoryListView, Fault>(e@),
        },
{
    let o = match object_fields(j, Shape::DirectoryList) {
        Ok(o) => o,
        Err(e) => return Err(e),
    };
    let version_name = match req_string(o, "discoveryVersion") {
        Ok(s) => s,
        Err(e) => return Err(e),
    };
    let discovery_version = match Version::parse(&version_name) {
        Some(v) => v,
        None => return Err(invalid_value("discoveryVersion", &Json::Str(version_name))),
    };
    let kind_name = match req_string(o, "kind") {
        Ok(s) => s,
        Err(e) => return Err(e),
    };
    let kind = match DiscoveryListKind::parse(&kind_name) {
        Some(k) => k,
        None => return Err(invalid_value("kind", &Json::Str(kind_name))),
    };
    let items = match decode_items(o, "items") {
        Ok(v) => v,
        Err(e) => return Err(e),
    };
    Ok(DirectoryList { discovery_version, kind, items })
}

/// In a directory list or in one of its items, one member added whose name is outside the
/// object's known set makes the object fail with `UnexpectedField` at that member,
/// wherever it stands.
pub proof fn lemma_unknown_member_is_rejected_in_list(
    s: Shape,
    o: Members,
    i: int,
    k: Seq<char>,
    v: JsonValue,
)
    requires
        first_unknown(o, s) is None,
        !known(s, k),
        0 <= i <= o.len(),
    ensures
        ({
            let j = JsonValue::Object(o.insert(i, (k, v)));
            let f = Fault::UnexpectedField(seq![Step::Key(k)]);
            &&& s == Shape::DirectoryList ==> list_spec(j) == Err::<DirectoryListView, Fault>(f)
            &&& s == Shape::DirectoryItem ==> item_spec(j) == Err::<DirectoryItemView, Fault>(f)
        }),
{
    lemma_first_unknown_insert(o, s, i, k, v);
}

/// An error in one item, after items that all decode, is the error of the whole array,
/// with the item's position in front of its path.
pub proof fn lemma_item_error(a: Seq<JsonValue>, j: int)
    requires
        0 <= j < a.len(),
        item_seq(a.take(j)) is Ok,
        item_spec(a[j]) is Err,
    ensures
        item_seq(a) == Err::<Seq<DirectoryItemView>, Fault>(
            nested(item_spec(a[j])->Err_0, Step::Index(j)),
        ),
{
    assert(a.take(j + 1).drop_last() =~= a.take(j));
    assert(a.take(j + 1).last() == a[j]);
    lemma_item_seq_prefix(a, j + 1);
}

/// What the text `t` decodes to as a directory list.
pub open spec fn list_from_text(t: Seq<char>) -> Result<DirectoryListView, Fault> {
    match parsed_json(t) {
        None => Err(Fault::Syntax),
        Some(j) => list_spec(j),
    }
}

/// What the text `t` decodes to as a directory list, where the JSON tree `j` is what
/// serde_json parses out of `t`.
pub fn decode_list_text(j: Option<Json>) -> (r: Result<DirectoryList, DecodeError>)
    ensures
        match j {
            None => r matches Err(e) && e@ == Fault::Syntax,
            Some(tree) => match r {
                Ok(d) => list_spec(tree@) == Ok::<DirectoryListView, Fault>(d@),
                Err(e) => list_spec(tree@) == Err::<DirectoryListView, Fault>(e@),
            },
        },
{
    match j {
        None => Err(DecodeError::Syntax),
        Some(tree) => decode_list(&tree),
    }
}

/// What decoding the text `t` as a directory list may give: the document that the text decodes to,
/// or the error that says why it does not, together with the text itself.
pub open spec fn list_outcome(t: Seq<char>, r: Result<DirectoryList, Error>) -> bool {
    match r {
        Ok(d) => list_from_text(t) == Ok::<DirectoryListView, Fault>(d@),
        Err(Error::JsonError { message, json, source }) => {
            &&& list_from_text(t) == Err::<DirectoryListView, Fault>(source@)
            &&& json@ == t
            &&& message@ == LIST_PARSE_MESSAGE@
        },
        Err(_) => false,
    }
}

/// The model of what decoding gives.
pub open spec fn list_outcome_view(r: Result<DirectoryList, Error>) -> Result<DirectoryListView, ErrorView> {
    match r {
        Ok(d) => Ok(d@),
        Err(e) => Err(e@),
    }
}

/// Decoding is a function of the text: two decodings of the same text give equal results.
pub proof fn lemma_list_decoding_is_deterministic(t: Seq<char>, a: Result<DirectoryList, Error>, b: Result<DirectoryList, Error>)
    requires
        list_outcome(t, a),
        list_outcome(t, b),
    ensures
        list_outcome_view(a) == list_outcome_view(b),
{
}

/// Decodes the body of a directory list response. On failure the error keeps the body.
pub fn from_str(response: String) -> (r: Result<DirectoryList, Error>)
    ensures
        list_outcome(response@, r),
{
    let parsed = parse_json(response.as_str());
    match decode_list_text(parsed) {
        Ok(d) => Ok(d),
        Err(source) => Err(
            Error::JsonError { message: LIST_PARSE_MESSAGE.to_owned(), json: response, source },
        ),
    }
}

/// The message of a [`Error::JsonError`] from [`from_str`].
pub const LIST_PARSE_MESSAGE: &'static str = "couldn't parse service list";

/// The endpoint of the directory list.
pub const LIST_URL: &'static str = "https://discovery.googleapis.com/discovery/v1/apis";

/// A GET request: a URL and the query parameters to add to it, in order.
#[derive(Debug, PartialEq)]
pub struct Request {
    pub url: String,
    pub query: Vec<(String, String)>,
}

/// The model of the query of a [`Request`].
pub open spec fn query_view(q: Seq<(String, String)>) -> Seq<(Seq<char>, Seq<char>)> {
    q.map_values(|p: (String, String)| (p.0@, p.1@))
}

/// The query that asks the directory for the API `name`, and for its preferred version
/// only where `preferred` holds.
pub open spec fn list_query(name: Option<Seq<char>>, preferred: bool) -> Seq<(Seq<char>, Seq<char>)> {
    let by_name = match name {
        Some(n) => seq![("name"@, n)],
        None => Seq::empty(),
    };
    if preferred {
        by_name.push(("preferred"@, "true"@))
    } else {
        by_name
    }
}

/// The request for the directory list, filtered by `name` where given and to preferred
/// versions where `preferred` holds.
pub fn list_request(name: Option<&str>, preferred: bool) -> (r: Request)
    ensures
        r.url@ == LIST_URL@,
        query_view(r.query@) == list_query(
            match name {
                Some(n) => Some(n@),
                None => None,
            },
            preferred,
        ),
{
    let mut query: Vec<(String, String)> = Vec::new();
    if let Some(n) = name {
        query.push(("name".to_owned(), n.to_owned()));
    }
    if preferred {
        query.push(("preferred".to_owned(), "true".to_owned()));
    }
    let r = Request { url: LIST_URL.to_owned(), query };
    assert(query_view(r.query@) =~= list_query(
        match name {
            Some(n) => Some(n@),
            None => None,
        },
        preferred,
    ));
    r
}

} // verus!
