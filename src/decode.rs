//! Field-closed decoding of JSON objects: member lookup, the check for members outside a
//! known set, and decoders for the plain field shapes that the documents share.
use vstd::prelude::*;

use crate::json::{elements_view, members_view, Json, JsonValue};

verus! {

/// One step of a path from the root of a document down to a value.
#[derive(Debug, PartialEq)]
pub enum PathSegment {
    Key(String),
    Index(usize),
}

/// The model of a [`PathSegment`].
pub enum Step {
    Key(Seq<char>),
    Index(int),
}

impl View for PathSegment {
    type V = Step;

    open spec fn view(&self) -> Step {
        match self {
            PathSegment::Key(k) => Step::Key(k@),
            PathSegment::Index(i) => Step::Index(*i as int),
        }
    }
}

/// The model of a path.
pub open spec fn path_view(p: Seq<PathSegment>) -> Seq<Step> {
    p.map_values(|s: PathSegment| s@)
}

/// Why a JSON value is not the document that was asked for.
#[derive(Debug, PartialEq)]
pub enum DecodeError {
    /// The text is not JSON at all.
    Syntax,
    /// A required member is absent.
    MissingField(Vec<PathSegment>),
    /// A member outside the document's known set is present.
    UnexpectedField(Vec<PathSegment>),
    /// A value has the wrong shape, or a name outside its closed set.
    InvalidValue(Vec<PathSegment>, Json),
}

/// The model of a [`DecodeError`].
pub enum Fault {
    Syntax,
    MissingField(Seq<Step>),
    UnexpectedField(Seq<Step>),
    InvalidValue(Seq<Step>, JsonValue),
}

impl View for DecodeError {
    type V = Fault;

    open spec fn view(&self) -> Fault {
        match self {
            DecodeError::Syntax => Fault::Syntax,
            DecodeError::MissingField(p) => Fault::MissingField(path_view(p@)),
            DecodeError::UnexpectedField(p) => Fault::UnexpectedField(path_view(p@)),
            DecodeError::InvalidValue(p, v) => Fault::InvalidValue(path_view(p@), v@),
        }
    }
}

/// The fault `f`, seen from one level further up: `s` leads from there to where `f` was.
pub open spec fn nested(f: Fault, s: Step) -> Fault {
    match f {
        Fault::Syntax => Fault::Syntax,
        Fault::MissingField(p) => Fault::MissingField(seq![s] + p),
        Fault::UnexpectedField(p) => Fault::UnexpectedField(seq![s] + p),
        Fault::InvalidValue(p, v) => Fault::InvalidValue(seq![s] + p, v),
    }
}

/// A fault at the member `k` of the value being decoded.
pub open spec fn missing(k: Seq<char>) -> Fault {
    Fault::MissingField(seq![Step::Key(k)])
}

/// The value `v` is not accepted at the member `k`.
pub open spec fn invalid(k: Seq<char>, v: JsonValue) -> Fault {
    Fault::InvalidValue(seq![Step::Key(k)], v)
}

fn prepend(p: &mut Vec<PathSegment>, s: PathSegment)
    ensures
        path_view(final(p)@) == seq![s@] + path_view(old(p)@),
{
    let ghost before = p@;
    p.insert(0, s);
    assert(path_view(p@) =~= seq![s@] + path_view(before));
}

impl DecodeError {
    /// The same error, with its path extended at the front by `s`.
    pub fn nest(self, s: PathSegment) -> (r: DecodeError)
        ensures
            r@ == nested(self@, s@),
    {
        match self {
            DecodeError::Syntax => DecodeError::Syntax,
            DecodeError::MissingField(mut p) => {
                prepend(&mut p, s);
                DecodeError::MissingField(p)
            },
            DecodeError::UnexpectedField(mut p) => {
                prepend(&mut p, s);
                DecodeError::UnexpectedField(p)
            },
            DecodeError::InvalidValue(mut p, v) => {
                prepend(&mut p, s);
                DecodeError::InvalidValue(p, v)
            },
        }
    }
}

fn key_path(k: &str) -> (r: Vec<PathSegment>)
    ensures
        path_view(r@) == seq![Step::Key(k@)],
{
    let mut p: Vec<PathSegment> = Vec::new();
    p.push(PathSegment::Key(k.to_owned()));
    assert(path_view(p@) =~= seq![Step::Key(k@)]);
    p
}

/// The error for a required member `k` that is absent.
pub fn missing_field(k: &str) -> (r: DecodeError)
    ensures
        r@ == missing(k@),
{
    DecodeError::MissingField(key_path(k))
}

/// The error for a value `v` that the member `k` does not accept.
pub fn invalid_value(k: &str, v: &Json) -> (r: DecodeError)
    ensures
        r@ == invalid(k@, v@),
{
    DecodeError::InvalidValue(key_path(k), v.deep_copy())
}

/// Whether the string `a` reads `k`.
pub fn key_is(a: &String, k: &str) -> (r: bool)
    ensures
        r == (a@ == k@),
{
    let owned = k.to_owned();
    *a == owned
}

/// The members of an object, as the models of name and value.
pub type Members = Seq<(Seq<char>, JsonValue)>;

/// Whether the member at `i` is the first one of `o` named `k`.
pub open spec fn is_first(o: Members, k: Seq<char>, i: int) -> bool {
    &&& 0 <= i < o.len()
    &&& o[i].0 == k
    &&& forall|n: int| 0 <= n < i ==> #[trigger] o[n].0 != k
}

/// The position of the first member of `o` named `k`, or -1 where there is none.
pub open spec fn member_pos(o: Members, k: Seq<char>) -> int {
    if exists|i: int| is_first(o, k, i) {
        choose|i: int| is_first(o, k, i)
    } else {
        -1
    }
}

/// The value of the first member of `o` named `k`.
pub open spec fn member(o: Members, k: Seq<char>) -> Option<JsonValue> {
    let i = member_pos(o, k);
    if 0 <= i < o.len() {
        Some(o[i].1)
    } else {
        None
    }
}

/// The indexed form of [`members_view`].
pub proof fn lemma_members_view(s: Seq<(String, Json)>)
    ensures
        members_view(s).len() == s.len(),
        forall|i: int| 0 <= i < s.len() ==> #[trigger] members_view(s)[i] == (s[i].0@, s[i].1@),
    decreases s.len(),
{
    if s.len() > 0 {
        lemma_members_view(s.drop_last());
        assert(members_view(s) == members_view(s.drop_last()).push((s.last().0@, s.last().1@)));
    } else {
        assert(members_view(s) == Seq::<(Seq<char>, JsonValue)>::empty());
    }
}

/// The indexed form of [`elements_view`].
pub proof fn lemma_elements_view(s: Seq<Json>)
    ensures
        elements_view(s).len() == s.len(),
        forall|i: int| 0 <= i < s.len() ==> #[trigger] elements_view(s)[i] == s[i]@,
    decreases s.len(),
{
    if s.len() > 0 {
        lemma_elements_view(s.drop_last());
        assert(elements_view(s) == elements_view(s.drop_last()).push(s.last()@));
    } else {
        assert(elements_view(s) == Seq::<JsonValue>::empty());
    }
}

/// The value of the first member of `o` named `k`.
pub fn find<'a>(o: &'a Vec<(String, Json)>, k: &str) -> (r: Option<&'a Json>)
    ensures
        match r {
            Some(v) => member(members_view(o@), k@) == Some(v@),
            None => member(members_view(o@), k@) is None,
        },
{
    proof {
        lemma_members_view(o@);
    }
    match find_index(o, k) {
        Some(i) => Some(&o[i].1),
        None => None,
    }
}

/// The documents whose members form a closed set.
#[derive(Clone, Copy, PartialEq, Eq, Structural, Debug)]
pub enum Shape {
    /// The members of a directory list.
    DirectoryList,
    /// The members of an item of a directory list.
    DirectoryItem,
    /// The members of a service descriptor.
    Descriptor,
    /// The members of a parameter or schema definition.
    Parameter,
    /// The members of the annotations of a parameter.
    Annotations,
    /// The members of the `auth` member of a descriptor.
    Auth,
    /// The members of the OAuth 2.0 section of `auth`.
    OAuth2,
    /// The members of the description of one OAuth 2.0 scope.
    ScopeDescription,
    /// The members of a method.
    Method,
    /// The members of a resource.
    Resource,
}

/// Whether `k` names a member of the shape `s`.
pub open spec fn known(s: Shape, k: Seq<char>) -> bool {
    match s {
        Shape::DirectoryList => {
            k == "discoveryVersion"@
                || k == "kind"@
                || k == "items"@
        },
        Shape::DirectoryItem => {
            k == "kind"@
                || k == "id"@
                || k == "name"@
                || k == "version"@
                || k == "title"@
                || k == "description"@
                || k == "discoveryRestUrl"@
                || k == "discoveryLink"@
                || k == "icons"@
                || k == "documentationLink"@
                || k == "labels"@
                || k == "preferred"@
        },
        Shape::Descriptor => {
            k == "kind"@
                || k == "discoveryVersion"@
                || k == "id"@
                || k == "name"@
                || k == "version"@
                || k == "revision"@
                || k == "title"@
                || k == "description"@
                || k == "protocol"@
                || k == "baseUrl"@
                || k == "basePath"@
                || k == "rootUrl"@
                || k == "servicePath"@
                || k == "batchPath"@
                || k == "parameters"@
                || k == "schemas"@
                || k == "methods"@
                || k == "resources"@
                || k == "auth"@
                || k == "canonicalName"@
                || k == "fullyEncodeReservedExpansion"@
                || k == "mtlsRootUrl"@
                || k == "ownerDomain"@
                || k == "ownerName"@
                || k == "etag"@
                || k == "packagePath"@
                || k == "icons"@
                || k == "documentationLink"@
                || k == "labels"@
                || k == "features"@
                || k == "version_module"@
        },
        Shape::Parameter => {
            k == "id"@
                || k == "type"@
                || k == "$ref"@
                || k == "description"@
                || k == "default"@
                || k == "required"@
                || k == "format"@
                || k == "pattern"@
                || k == "minimum"@
                || k == "maximum"@
                || k == "enum"@
                || k == "enumDescriptions"@
                || k == "repeated"@
                || k == "location"@
                || k == "properties"@
                || k == "additionalProperties"@
                || k == "items"@
                || k == "annotations"@
        },
        Shape::Annotations => {
            k == "required"@
        },
        Shape::Auth => {
            k == "oauth2"@
        },
        Shape::OAuth2 => {
            k == "scopes"@
        },
        Shape::ScopeDescription => {
            k == "description"@
        },
        Shape::Method => {
            k == "id"@
                || k == "path"@
                || k == "httpMethod"@
                || k == "parameterOrder"@
                || k == "description"@
                || k == "parameters"@
                || k == "request"@
                || k == "response"@
                || k == "scopes"@
                || k == "supportsMediaUpload"@
                || k == "supportsMediaDownload"@
                || k == "useMediaDownloadService"@
                || k == "supportsSubscription"@
                || k == "flatPath"@
                || k == "streamingType"@
                || k == "mediaUpload"@
        },
        Shape::Resource => {
            k == "methods"@
                || k == "resources"@
        },
    }
}

/// Whether `k` names a member of the shape `s`.
pub fn is_known(s: Shape, k: &String) -> (r: bool)
    ensures
        r == known(s, k@),
{
    match s {
        Shape::DirectoryList => {
            key_is(k, "discoveryVersion")
                || key_is(k, "kind")
                || key_is(k, "items")
        },
        Shape::DirectoryItem => {
            key_is(k, "kind")
                || key_is(k, "id")
                || key_is(k, "name")
                || key_is(k, "version")
                || key_is(k, "title")
                || key_is(k, "description")
                || key_is(k, "discoveryRestUrl")
                || key_is(k, "discoveryLink")
                || key_is(k, "icons")
                || key_is(k, "documentationLink")
                || key_is(k, "labels")
                || key_is(k, "preferred")
        },
        Shape::Descriptor => {
            key_is(k, "kind")
                || key_is(k, "discoveryVersion")
                || key_is(k, "id")
                || key_is(k, "name")
                || key_is(k, "version")
                || key_is(k, "revision")
                || key_is(k, "title")
                || key_is(k, "description")
                || key_is(k, "protocol")
                || key_is(k, "baseUrl")
                || key_is(k, "basePath")
                || key_is(k, "rootUrl")
                || key_is(k, "servicePath")
                || key_is(k, "batchPath")
                || key_is(k, "parameters")
                || key_is(k, "schemas")
                || key_is(k, "methods")
                || key_is(k, "resources")
                || key_is(k, "auth")
                || key_is(k, "canonicalName")
                || key_is(k, "fullyEncodeReservedExpansion")
                || key_is(k, "mtlsRootUrl")
                || key_is(k, "ownerDomain")
                || key_is(k, "ownerName")
                || key_is(k, "etag")
                || key_is(k, "packagePath")
                || key_is(k, "icons")
                || key_is(k, "documentationLink")
                || key_is(k, "labels")
                || key_is(k, "features")
                || key_is(k, "version_module")
        },
        Shape::Parameter => {
            key_is(k, "id")
                || key_is(k, "type")
                || key_is(k, "$ref")
                || key_is(k, "description")
                || key_is(k, "default")
                || key_is(k, "required")
                || key_is(k, "format")
                || key_is(k, "pattern")
                || key_is(k, "minimum")
                || key_is(k, "maximum")
                || key_is(k, "enum")
                || key_is(k, "enumDescriptions")
                || key_is(k, "repeated")
                || key_is(k, "location")
                || key_is(k, "properties")
                || key_is(k, "additionalProperties")
                || key_is(k, "items")
                || key_is(k, "annotations")
        },
        Shape::Annotations => {
            key_is(k, "required")
        },
        Shape::Auth => {
            key_is(k, "oauth2")
        },
        Shape::OAuth2 => {
            key_is(k, "scopes")
        },
        Shape::ScopeDescription => {
            key_is(k, "description")
        },
        Shape::Method => {
            key_is(k, "id")
                || key_is(k, "path")
                || key_is(k, "httpMethod")
                || key_is(k, "parameterOrder")
                || key_is(k, "description")
                || key_is(k, "parameters")
                || key_is(k, "request")
                || key_is(k, "response")
                || key_is(k, "scopes")
                || key_is(k, "supportsMediaUpload")
                || key_is(k, "supportsMediaDownload")
                || key_is(k, "useMediaDownloadService")
                || key_is(k, "supportsSubscription")
                || key_is(k, "flatPath")
                || key_is(k, "streamingType")
                || key_is(k, "mediaUpload")
        },
        Shape::Resource => {
            key_is(k, "methods")
                || key_is(k, "resources")
        },
    }
}

/// The first member of `o`, in order, whose name is outside the shape `s`.
pub open spec fn first_unknown(o: Members, s: Shape) -> Option<Seq<char>>
    decreases o.len(),
{
    if o.len() == 0 {
        None
    } else if !known(s, o[0].0) {
        Some(o[0].0)
    } else {
        first_unknown(o.subrange(1, o.len() as int), s)
    }
}

/// A member of an unknown name, put anywhere among members whose names are all known, is
/// the first unknown one.
pub proof fn lemma_first_unknown_insert(o: Members, s: Shape, i: int, k: Seq<char>, v: JsonValue)
    requires
        first_unknown(o, s) is None,
        !known(s, k),
        0 <= i <= o.len(),
    ensures
        first_unknown(o.insert(i, (k, v)), s) == Some(k),
    decreases o.len(),
{
    let p = o.insert(i, (k, v));
    if i > 0 {
        let rest = o.subrange(1, o.len() as int);
        assert(p[0] == o[0]);
        assert(p.subrange(1, p.len() as int) =~= rest.insert(i - 1, (k, v)));
        lemma_first_unknown_insert(rest, s, i - 1, k, v);
    } else {
        assert(p[0] == (k, v));
    }
}

/// The members of `j`, where `j` is an object whose members all belong to the shape `s`.
pub open spec fn fields_of(j: JsonValue, s: Shape) -> Result<Members, Fault> {
    match j {
        JsonValue::Object(o) => match first_unknown(o, s) {
            Some(k) => Err(Fault::UnexpectedField(seq![Step::Key(k)])),
            None => Ok(o),
        },
        _ => Err(Fault::InvalidValue(seq![], j)),
    }
}

/// The members of `j`, where `j` is an object with members of any name.
pub open spec fn open_fields_of(j: JsonValue) -> Result<Members, Fault> {
    match j {
        JsonValue::Object(o) => Ok(o),
        _ => Err(Fault::InvalidValue(seq![], j)),
    }
}

/// The members of `j`, which must be an object whose members all belong to the shape `s`.
pub fn object_fields(j: &Json, s: Shape) -> (r: Result<&Vec<(String, Json)>, DecodeError>)
    ensures
        match r {
            Ok(o) => *j == Json::Object(*o) && fields_of(j@, s) == Ok::<Members, Fault>(members_view(o@)),
            Err(e) => fields_of(j@, s) == Err::<Members, Fault>(e@),
        },
{
    match j {
        Json::Object(o) => {
            let ghost m = members_view(o@);
            proof {
                lemma_members_view(o@);
                assert(m.subrange(0, m.len() as int) =~= m);
            }
            let mut i: usize = 0;
            while i < o.len()
                invariant
                    0 <= i <= o@.len(),
                    *j == Json::Object(*o),
                    m == members_view(o@),
                    m.len() == o@.len(),
                    forall|n: int| 0 <= n < o@.len() ==> #[trigger] m[n] == (o@[n].0@, o@[n].1@),
                    first_unknown(m, s) == first_unknown(m.subrange(i as int, m.len() as int), s),
                decreases o@.len() - i,
            {
                let ghost rest = m.subrange(i as int, m.len() as int);
                assert(rest[0] == m[i as int]);
                if !is_known(s, &o[i].0) {
                    let mut p: Vec<PathSegment> = Vec::new();
                    p.push(PathSegment::Key(o[i].0.clone()));
                    assert(path_view(p@) =~= seq![Step::Key(o@[i as int].0@)]);
                    return Err(DecodeError::UnexpectedField(p));
                }
                assert(rest.subrange(1, rest.len() as int) =~= m.subrange(i + 1, m.len() as int));
                i += 1;
            }
            Ok(o)
        },
        _ => {
            let p: Vec<PathSegment> = Vec::new();
            assert(path_view(p@) =~= Seq::<Step>::empty());
            Err(DecodeError::InvalidValue(p, j.deep_copy()))
        },
    }
}

/// The members of `j`, which must be an object.
pub fn open_object_fields(j: &Json) -> (r: Result<&Vec<(String, Json)>, DecodeError>)
    ensures
        match r {
            Ok(o) => *j == Json::Object(*o) && open_fields_of(j@) == Ok::<Members, Fault>(members_view(o@)),
            Err(e) => open_fields_of(j@) == Err::<Members, Fault>(e@),
        },
{
    match j {
        Json::Object(o) => Ok(o),
        _ => {
            let p: Vec<PathSegment> = Vec::new();
            assert(path_view(p@) =~= Seq::<Step>::empty());
            Err(DecodeError::InvalidValue(p, j.deep_copy()))
        },
    }
}

/// The models of a sequence of strings.
pub open spec fn strings_view(v: Seq<String>) -> Seq<Seq<char>> {
    v.map_values(|s: String| s@)
}

/// The model of an optional string.
pub open spec fn opt_view(v: Option<String>) -> Option<Seq<char>> {
    match v {
        Some(s) => Some(s@),
        None => None,
    }
}

/// The value of a closed-set name read from the member `k`: `v` is what the name stands
/// for, if anything.
pub open spec fn named<T>(r: Result<Seq<char>, Fault>, k: Seq<char>, v: Option<T>) -> Result<T, Fault> {
    match r {
        Err(f) => Err(f),
        Ok(s) => match v {
            Some(x) => Ok(x),
            None => Err(invalid(k, JsonValue::Str(s))),
        },
    }
}

/// The value of an optional closed-set name read from the member `k`: `v` is what the
/// name stands for, if anything.
pub open spec fn opt_named<T>(r: Result<Option<Seq<char>>, Fault>, k: Seq<char>, v: Option<T>) -> Result<Option<T>, Fault> {
    match r {
        Err(f) => Err(f),
        Ok(None) => Ok(None),
        Ok(Some(s)) => match v {
            Some(x) => Ok(Some(x)),
            None => Err(invalid(k, JsonValue::Str(s))),
        },
    }
}

/// The model of an optional untyped tree.
pub open spec fn opt_json_view(v: Option<Json>) -> Option<JsonValue> {
    match v {
        Some(j) => Some(j@),
        None => None,
    }
}

/// The model of an optional sequence of strings.
pub open spec fn opt_strings_view(v: Option<Vec<String>>) -> Option<Seq<Seq<char>>> {
    match v {
        Some(s) => Some(strings_view(s@)),
        None => None,
    }
}

/// The required string member `k`.
pub open spec fn req_str(o: Members, k: Seq<char>) -> Result<Seq<char>, Fault> {
    match member(o, k) {
        None => Err(missing(k)),
        Some(JsonValue::Str(s)) => Ok(s),
        Some(v) => Err(invalid(k, v)),
    }
}

/// The optional string member `k`; `null` counts as absent.
pub open spec fn opt_str(o: Members, k: Seq<char>) -> Result<Option<Seq<char>>, Fault> {
    match member(o, k) {
        None => Ok(None),
        Some(JsonValue::Null) => Ok(None),
        Some(JsonValue::Str(s)) => Ok(Some(s)),
        Some(v) => Err(invalid(k, v)),
    }
}

/// The required boolean member `k`.
pub open spec fn req_bool(o: Members, k: Seq<char>) -> Result<bool, Fault> {
    match member(o, k) {
        None => Err(missing(k)),
        Some(JsonValue::Bool(b)) => Ok(b),
        Some(v) => Err(invalid(k, v)),
    }
}

/// The optional boolean member `k`; `null` counts as absent.
pub open spec fn opt_bool(o: Members, k: Seq<char>) -> Result<Option<bool>, Fault> {
    match member(o, k) {
        None => Ok(None),
        Some(JsonValue::Null) => Ok(None),
        Some(JsonValue::Bool(b)) => Ok(Some(b)),
        Some(v) => Err(invalid(k, v)),
    }
}

/// The boolean member `k`, false where absent.
pub open spec fn flag(o: Members, k: Seq<char>) -> Result<bool, Fault> {
    match member(o, k) {
        None => Ok(false),
        Some(JsonValue::Bool(b)) => Ok(b),
        Some(v) => Err(invalid(k, v)),
    }
}

/// The elements of an array that must hold strings only.
pub open spec fn strings(a: Seq<JsonValue>) -> Result<Seq<Seq<char>>, Fault>
    decreases a.len(),
{
    if a.len() == 0 {
        Ok(Seq::empty())
    } else {
        match strings(a.drop_last()) {
            Err(f) => Err(f),
            Ok(x) => match a.last() {
                JsonValue::Str(s) => Ok(x.push(s)),
                v => Err(Fault::InvalidValue(seq![Step::Index(a.len() - 1)], v)),
            },
        }
    }
}

/// The string array member `k`, empty where absent.
pub open spec fn str_list(o: Members, k: Seq<char>) -> Result<Seq<Seq<char>>, Fault> {
    match member(o, k) {
        None => Ok(Seq::empty()),
        Some(JsonValue::Array(a)) => match strings(a) {
            Ok(x) => Ok(x),
            Err(f) => Err(nested(f, Step::Key(k))),
        },
        Some(v) => Err(invalid(k, v)),
    }
}

/// The optional string array member `k`; `null` counts as absent.
pub open spec fn opt_str_list(o: Members, k: Seq<char>) -> Result<Option<Seq<Seq<char>>>, Fault> {
    match member(o, k) {
        None => Ok(None),
        Some(JsonValue::Null) => Ok(None),
        Some(JsonValue::Array(a)) => match strings(a) {
            Ok(x) => Ok(Some(x)),
            Err(f) => Err(nested(f, Step::Key(k))),
        },
        Some(v) => Err(invalid(k, v)),
    }
}

proof fn lemma_strings_prefix(a: Seq<JsonValue>, n: int)
    requires
        0 <= n <= a.len(),
        strings(a.take(n)) is Err,
    ensures
        strings(a) == strings(a.take(n)),
    decreases a.len(),
{
    if n < a.len() {
        assert(a.drop_last().take(n) =~= a.take(n));
        lemma_strings_prefix(a.drop_last(), n);
    } else {
        assert(a.take(n) =~= a);
    }
}

/// The strings of an array that must hold strings only.
pub fn string_elements(a: &Vec<Json>) -> (r: Result<Vec<String>, DecodeError>)
    ensures
        match r {
            Ok(v) => strings(elements_view(a@)) == Ok::<Seq<Seq<char>>, Fault>(strings_view(v@)),
            Err(e) => strings(elements_view(a@)) == Err::<Seq<Seq<char>>, Fault>(e@),
        },
{
    let ghost ev = elements_view(a@);
    proof {
        lemma_elements_view(a@);
        assert(ev.take(0) =~= Seq::<JsonValue>::empty());
        assert(strings_view(Seq::<String>::empty()) =~= Seq::<Seq<char>>::empty());
    }
    let mut out: Vec<String> = Vec::new();
    let mut i: usize = 0;
    while i < a.len()
        invariant
            0 <= i <= a@.len(),
            ev == elements_view(a@),
            ev.len() == a@.len(),
            forall|j: int| 0 <= j < a@.len() ==> #[trigger] ev[j] == a@[j]@,
            strings(ev.take(i as int)) == Ok::<Seq<Seq<char>>, Fault>(strings_view(out@)),
        decreases a@.len() - i,
    {
        assert(ev.take(i + 1).drop_last() =~= ev.take(i as int));
        assert(ev.take(i + 1).last() == a@[i as int]@);
        match &a[i] {
            Json::Str(s) => {
                let ghost before = out@;
                out.push(s.clone());
                assert(strings_view(out@) =~= strings_view(before).push(s@));
            },
            v => {
                let mut p: Vec<PathSegment> = Vec::new();
                p.push(PathSegment::Index(i));
                assert(path_view(p@) =~= seq![Step::Index(i as int)]);
                proof {
                    lemma_strings_prefix(ev, i + 1);
                }
                return Err(DecodeError::InvalidValue(p, v.deep_copy()));
            },
        }
        i += 1;
    }
    assert(ev.take(i as int) =~= ev);
    Ok(out)
}

/// The required string member `k` of `o`.
pub fn req_string(o: &Vec<(String, Json)>, k: &str) -> (r: Result<String, DecodeError>)
    ensures
        match r {
            Ok(s) => req_str(members_view(o@), k@) == Ok::<Seq<char>, Fault>(s@),
            Err(e) => req_str(members_view(o@), k@) == Err::<Seq<char>, Fault>(e@),
        },
{
    match find(o, k) {
        None => Err(missing_field(k)),
        Some(Json::Str(s)) => Ok(s.clone()),
        Some(v) => Err(invalid_value(k, v)),
    }
}

/// The optional string member `k` of `o`.
pub fn opt_string(o: &Vec<(String, Json)>, k: &str) -> (r: Result<Option<String>, DecodeError>)
    ensures
        match r {
            Ok(s) => opt_str(members_view(o@), k@) == Ok::<Option<Seq<char>>, Fault>(opt_view(s)),
            Err(e) => opt_str(members_view(o@), k@) == Err::<Option<Seq<char>>, Fault>(e@),
        },
{
    match find(o, k) {
        None => Ok(None),
        Some(Json::Null) => Ok(None),
        Some(Json::Str(s)) => Ok(Some(s.clone())),
        Some(v) => Err(invalid_value(k, v)),
    }
}

/// The required boolean member `k` of `o`.
pub fn req_boolean(o: &Vec<(String, Json)>, k: &str) -> (r: Result<bool, DecodeError>)
    ensures
        match r {
            Ok(b) => req_bool(members_view(o@), k@) == Ok::<bool, Fault>(b),
            Err(e) => req_bool(members_view(o@), k@) == Err::<bool, Fault>(e@),
        },
{
    match find(o, k) {
        None => Err(missing_field(k)),
        Some(Json::Bool(b)) => Ok(*b),
        Some(v) => Err(invalid_value(k, v)),
    }
}

/// The optional boolean member `k` of `o`.
pub fn opt_boolean(o: &Vec<(String, Json)>, k: &str) -> (r: Result<Option<bool>, DecodeError>)
    ensures
        match r {
            Ok(b) => opt_bool(members_view(o@), k@) == Ok::<Option<bool>, Fault>(b),
            Err(e) => opt_bool(members_view(o@), k@) == Err::<Option<bool>, Fault>(e@),
        },
{
    match find(o, k) {
        None => Ok(None),
        Some(Json::Null) => Ok(None),
        Some(Json::Bool(b)) => Ok(Some(*b)),
        Some(v) => Err(invalid_value(k, v)),
    }
}

/// The boolean member `k` of `o`, false where absent.
pub fn flag_or_false(o: &Vec<(String, Json)>, k: &str) -> (r: Result<bool, DecodeError>)
    ensures
        match r {
            Ok(b) => flag(members_view(o@), k@) == Ok::<bool, Fault>(b),
            Err(e) => flag(members_view(o@), k@) == Err::<bool, Fault>(e@),
        },
{
    match find(o, k) {
        None => Ok(false),
        Some(Json::Bool(b)) => Ok(*b),
        Some(v) => Err(invalid_value(k, v)),
    }
}

/// The string array member `k` of `o`, empty where absent.
pub fn string_list(o: &Vec<(String, Json)>, k: &str) -> (r: Result<Vec<String>, DecodeError>)
    ensures
        match r {
            Ok(v) => str_list(members_view(o@), k@) == Ok::<Seq<Seq<char>>, Fault>(strings_view(v@)),
            Err(e) => str_list(members_view(o@), k@) == Err::<Seq<Seq<char>>, Fault>(e@),
        },
{
    match find(o, k) {
        None => {
            let v: Vec<String> = Vec::new();
            assert(strings_view(v@) =~= Seq::<Seq<char>>::empty());
            Ok(v)
        },
        Some(Json::Array(a)) => match string_elements(a) {
            Ok(v) => Ok(v),
            Err(e) => Err(e.nest(PathSegment::Key(k.to_owned()))),
        },
        Some(v) => Err(invalid_value(k, v)),
    }
}

/// The optional string array member `k` of `o`.
pub fn opt_string_list(o: &Vec<(String, Json)>, k: &str) -> (r: Result<Option<Vec<String>>, DecodeError>)
    ensures
        match r {
            Ok(Some(v)) => opt_str_list(members_view(o@), k@) == Ok::<Option<Seq<Seq<char>>>, Fault>(Some(strings_view(v@))),
            Ok(None) => opt_str_list(members_view(o@), k@) == Ok::<Option<Seq<Seq<char>>>, Fault>(None),
            Err(e) => opt_str_list(members_view(o@), k@) == Err::<Option<Seq<Seq<char>>>, Fault>(e@),
        },
{
    match find(o, k) {
        None => Ok(None),
        Some(Json::Null) => Ok(None),
        Some(Json::Array(a)) => match string_elements(a) {
            Ok(v) => Ok(Some(v)),
            Err(e) => Err(e.nest(PathSegment::Key(k.to_owned()))),
        },
        Some(v) => Err(invalid_value(k, v)),
    }
}

/// The position of the first member of `o` named `k`.
pub fn find_index(o: &Vec<(String, Json)>, k: &str) -> (r: Option<usize>)
    ensures
        match r {
            Some(i) => i < o@.len() && member_pos(members_view(o@), k@) == i,
            None => member(members_view(o@), k@) is None,
        },
{
    let ghost m = members_view(o@);
    proof {
        lemma_members_view(o@);
    }
    let mut i: usize = 0;
    while i < o.len()
        invariant
            0 <= i <= o@.len(),
            m == members_view(o@),
            m.len() == o@.len(),
            forall|n: int| 0 <= n < o@.len() ==> #[trigger] m[n] == (o@[n].0@, o@[n].1@),
            forall|n: int| 0 <= n < i ==> #[trigger] m[n].0 != k@,
        decreases o@.len() - i,
    {
        if key_is(&o[i].0, k) {
            assert(is_first(m, k@, i as int));
            let ghost c = member_pos(m, k@);
            assert(is_first(m, k@, c));
            assert(c == i) by {
                if c < i {
                    assert(m[c].0 != k@);
                }
                if c > i {
                    assert(m[i as int].0 != k@);
                }
            }
            return Some(i);
        }
        i += 1;
    }
    assert(!exists|c: int| is_first(m, k@, c)) by {
        if exists|c: int| is_first(m, k@, c) {
            let c = choose|c: int| is_first(m, k@, c);
            assert(m[c].0 != k@);
        }
    }
    None
}

/// The member `k` of `o` kept as an untyped tree, where present.
pub fn opaque(o: &Vec<(String, Json)>, k: &str) -> (r: Option<Json>)
    ensures
        match r {
            Some(v) => member(members_view(o@), k@) == Some(v@),
            None => member(members_view(o@), k@) is None,
        },
{
    match find(o, k) {
        None => None,
        Some(v) => Some(v.deep_copy()),
    }
}

} // verus!
