//! The descriptor of one API: its parameters, schemas, methods and nested resources.
use vstd::prelude::*;

use crate::decode::{
    fields_of, find, find_index, first_unknown, flag, flag_or_false, invalid, invalid_value, known,
    lemma_first_unknown_insert, lemma_members_view, member, member_pos, missing, named, nested,
    object_fields, opaque, open_fields_of, open_object_fields, opt_bool, opt_boolean,
    opt_json_view, opt_named, opt_str, opt_str_list, opt_string, opt_string_list,
    opt_strings_view, opt_view, req_str, req_string, str_list, string_list, strings_view,
    DecodeError, Fault, Members, PathSegment, Shape, Step,
};
use crate::json::{distinct_names, entry_names, members_view, parse_json, parsed_json, Json, JsonValue};
use crate::list::{icon_map, icons_of, icons_view, DirectoryItem, Request};
use crate::{
    Error, ErrorView, IconKey, ParameterFormat, ParameterType, Ref, RestDescriptionKind,
    RestProtocol, Version,
};

verus! {

/// Annotations of a parameter.
#[derive(Debug, PartialEq)]
pub struct Annotations {
    pub required: Vec<String>,
}

/// The model of [`Annotations`]: the methods that require the parameter.
pub struct AnnotationsView {
    pub required: Seq<Seq<char>>,
}

impl View for Annotations {
    type V = AnnotationsView;

    open spec fn view(&self) -> AnnotationsView {
        AnnotationsView { required: strings_view(self.required@) }
    }
}

impl View for Ref {
    type V = Option<Seq<char>>;

    open spec fn view(&self) -> Option<Seq<char>> {
        opt_view(self.ref_)
    }
}

/// A parameter of a method or of the whole service, or a named schema: a JSON-Schema-like
/// definition whose nested subtrees are kept untyped.
#[derive(Debug, PartialEq)]
pub struct Parameter {
    pub id: Option<String>,
    pub type_: Option<ParameterType>,
    pub ref_: Ref,
    pub description: Option<String>,
    pub default: Option<String>,
    pub required: bool,
    pub format: Option<ParameterFormat>,
    pub pattern: Option<String>,
    pub minimum: Option<String>,
    pub maximum: Option<String>,
    pub enum_: Option<Vec<String>>,
    pub enum_descriptions: Option<Vec<String>>,
    pub repeated: bool,
    pub location: Option<String>,
    pub properties: Option<Json>,
    pub additional_properties: Option<Json>,
    pub items: Option<Json>,
    pub annotations: Option<Annotations>,
}

/// The model of a [`Parameter`].
pub struct ParameterView {
    pub id: Option<Seq<char>>,
    pub type_: Option<ParameterType>,
    pub ref_: Option<Seq<char>>,
    pub description: Option<Seq<char>>,
    pub default: Option<Seq<char>>,
    pub required: bool,
    pub format: Option<ParameterFormat>,
    pub pattern: Option<Seq<char>>,
    pub minimum: Option<Seq<char>>,
    pub maximum: Option<Seq<char>>,
    pub enum_: Option<Seq<Seq<char>>>,
    pub enum_descriptions: Option<Seq<Seq<char>>>,
    pub repeated: bool,
    pub location: Option<Seq<char>>,
    pub properties: Option<JsonValue>,
    pub additional_properties: Option<JsonValue>,
    pub items: Option<JsonValue>,
    pub annotations: Option<AnnotationsView>,
}

impl View for Parameter {
    type V = ParameterView;

    open spec fn view(&self) -> ParameterView {
        ParameterView {
            id: opt_view(self.id),
            type_: self.type_,
            ref_: self.ref_@,
            description: opt_view(self.description),
            default: opt_view(self.default),
            required: self.required,
            format: self.format,
            pattern: opt_view(self.pattern),
            minimum: opt_view(self.minimum),
            maximum: opt_view(self.maximum),
            enum_: opt_strings_view(self.enum_),
            enum_descriptions: opt_strings_view(self.enum_descriptions),
            repeated: self.repeated,
            location: opt_view(self.location),
            properties: opt_json_view(self.properties),
            additional_properties: opt_json_view(self.additional_properties),
            items: opt_json_view(self.items),
            annotations: match self.annotations {
                Some(a) => Some(a@),
                None => None,
            },
        }
    }
}

/// What the JSON value `j` decodes to as annotations.
pub open spec fn annotations_spec(j: JsonValue) -> Result<AnnotationsView, Fault> {
    match fields_of(j, Shape::Annotations) {
        Err(f) => Err(f),
        Ok(o) => match str_list(o, "required"@) {
            Err(f) => Err(f),
            Ok(r) => Ok(AnnotationsView { required: r }),
        },
    }
}

/// Decodes annotations.
pub fn decode_annotations(j: &Json) -> (r: Result<Annotations, DecodeError>)
    ensures
        match r {
            Ok(a) => annotations_spec(j@) == Ok::<AnnotationsView, Fault>(a@),
            Err(e) => annotations_spec(j@) == Err::<AnnotationsView, Fault>(e@),
        },
{
    let o = match object_fields(j, Shape::Annotations) {
        Ok(o) => o,
        Err(e) => return Err(e),
    };
    match string_list(o, "required") {
        Ok(required) => Ok(Annotations { required }),
        Err(e) => Err(e),
    }
}

/// The optional annotations member `k`; `null` counts as absent.
pub open spec fn opt_annotations(o: Members, k: Seq<char>) -> Result<Option<AnnotationsView>, Fault> {
    match member(o, k) {
        None => Ok(None),
        Some(JsonValue::Null) => Ok(None),
        Some(v) => match annotations_spec(v) {
            Ok(a) => Ok(Some(a)),
            Err(f) => Err(nested(f, Step::Key(k))),
        },
    }
}

/// What the JSON value `j` decodes to as a reference: an object whose `$ref` member, if
/// any, names a schema. Other members are ignored.
pub open spec fn ref_spec(j: JsonValue) -> Result<Option<Seq<char>>, Fault> {
    match open_fields_of(j) {
        Err(f) => Err(f),
        Ok(o) => opt_str(o, "$ref"@),
    }
}

/// Decodes a reference.
pub fn decode_ref(j: &Json) -> (r: Result<Ref, DecodeError>)
    ensures
        match r {
            Ok(x) => ref_spec(j@) == Ok::<Option<Seq<char>>, Fault>(x@),
            Err(e) => ref_spec(j@) == Err::<Option<Seq<char>>, Fault>(e@),
        },
{
    let o = match open_object_fields(j) {
        Ok(o) => o,
        Err(e) => return Err(e),
    };
    match opt_string(o, "$ref") {
        Ok(ref_) => Ok(Ref { ref_ }),
        Err(e) => Err(e),
    }
}

/// The optional reference member `k`; `null` counts as absent.
pub open spec fn opt_ref(o: Members, k: Seq<char>) -> Result<Option<Option<Seq<char>>>, Fault> {
    match member(o, k) {
        None => Ok(None),
        Some(JsonValue::Null) => Ok(None),
        Some(v) => match ref_spec(v) {
            Ok(a) => Ok(Some(a)),
            Err(f) => Err(nested(f, Step::Key(k))),
        },
    }
}

/// The model of an optional reference.
pub open spec fn opt_ref_view(v: Option<Ref>) -> Option<Option<Seq<char>>> {
    match v {
        Some(x) => Some(x@),
        None => None,
    }
}

/// Decodes the optional reference member `k` of `o`.
pub fn ref_of(o: &Vec<(String, Json)>, k: &str) -> (r: Result<Option<Ref>, DecodeError>)
    ensures
        match r {
            Ok(x) => opt_ref(members_view(o@), k@) == Ok::<Option<Option<Seq<char>>>, Fault>(opt_ref_view(x)),
            Err(e) => opt_ref(members_view(o@), k@) == Err::<Option<Option<Seq<char>>>, Fault>(e@),
        },
{
    match find(o, k) {
        None => Ok(None),
        Some(Json::Null) => Ok(None),
        Some(v) => match decode_ref(v) {
            Ok(x) => Ok(Some(x)),
            Err(e) => Err(e.nest(PathSegment::Key(k.to_owned()))),
        },
    }
}

/// What the JSON value `j` decodes to as a parameter.
pub open spec fn parameter_spec(j: JsonValue) -> Result<ParameterView, Fault> {
    match fields_of(j, Shape::Parameter) {
        Err(f) => Err(f),
        Ok(o) => {
            let id = opt_str(o, "id"@);
            let type_ = opt_named(
                opt_str(o, "type"@),
                "type"@,
                ParameterType::from_name(opt_str(o, "type"@)->Ok_0->Some_0),
            );
            let ref_ = opt_str(o, "$ref"@);
            let description = opt_str(o, "description"@);
            let default = opt_str(o, "default"@);
            let required = flag(o, "required"@);
            let format = opt_named(
                opt_str(o, "format"@),
                "format"@,
                ParameterFormat::from_name(opt_str(o, "format"@)->Ok_0->Some_0),
            );
            let pattern = opt_str(o, "pattern"@);
            let minimum = opt_str(o, "minimum"@);
            let maximum = opt_str(o, "maximum"@);
            let enum_ = opt_str_list(o, "enum"@);
            let enum_descriptions = opt_str_list(o, "enumDescriptions"@);
            let repeated = flag(o, "repeated"@);
            let location = opt_str(o, "location"@);
            let annotations = opt_annotations(o, "annotations"@);
            if id is Err {
                Err(id->Err_0)
            } else if type_ is Err {
                Err(type_->Err_0)
            } else if ref_ is Err {
                Err(ref_->Err_0)
            } else if description is Err {
                Err(description->Err_0)
            } else if default is Err {
                Err(default->Err_0)
            } else if required is Err {
                Err(required->Err_0)
            } else if format is Err {
                Err(format->Err_0)
            } else if pattern is Err {
                Err(pattern->Err_0)
            } else if minimum is Err {
                Err(minimum->Err_0)
            } else if maximum is Err {
                Err(maximum->Err_0)
            } else if enum_ is Err {
                Err(enum_->Err_0)
            } else if enum_descriptions is Err {
                Err(enum_descriptions->Err_0)
            } else if repeated is Err {
                Err(repeated->Err_0)
            } else if location is Err {
                Err(location->Err_0)
            } else if annotations is Err {
                Err(annotations->Err_0)
            } else {
                Ok(
                    ParameterView {
                        id: id->Ok_0,
                        type_: type_->Ok_0,
                        ref_: ref_->Ok_0,
                        description: description->Ok_0,
                        default: default->Ok_0,
                        required: required->Ok_0,
                        format: format->Ok_0,
                        pattern: pattern->Ok_0,
                        minimum: minimum->Ok_0,
                        maximum: maximum->Ok_0,
                        enum_: enum_->Ok_0,
                        enum_descriptions: enum_descriptions->Ok_0,
                        repeated: repeated->Ok_0,
                        location: location->Ok_0,
                        properties: member(o, "properties"@),
                        additional_properties: member(o, "additionalProperties"@),
                        items: member(o, "items"@),
                        annotations: annotations->Ok_0,
                    },
                )
            }
        },
    }
}

/// Decodes a parameter.
pub fn decode_parameter(j: &Json) -> (r: Result<Parameter, DecodeError>)
    ensures
        match r {
            Ok(p) => parameter_spec(j@) == Ok::<ParameterView, Fault>(p@),
            Err(e) => parameter_spec(j@) == Err::<ParameterView, Fault>(e@),
        },
{
    let o = match object_fields(j, Shape::Parameter) {
        Ok(o) => o,
        Err(e) => return Err(e),
    };
    let id = match opt_string(o, "id") {
        Ok(s) => s,
        Err(e) => return Err(e),
    };
    let type_ = match opt_string(o, "type") {
        Ok(None) => None,
        Ok(Some(s)) => match ParameterType::parse(&s) {
            Some(t) => Some(t),
            None => return Err(invalid_value("type", &Json::Str(s))),
        },
        Err(e) => return Err(e),
    };
    let ref_ = match opt_string(o, "$ref") {
        Ok(s) => Ref { ref_: s },
        Err(e) => return Err(e),
    };
    let description = match opt_string(o, "description") {
        Ok(s) => s,
        Err(e) => return Err(e),
    };
    let default = match opt_string(o, "default") {
        Ok(s) => s,
        Err(e) => return Err(e),
    };
    let required = match flag_or_false(o, "required") {
        Ok(b) => b,
        Err(e) => return Err(e),
    };
    let format = match opt_string(o, "format") {
        Ok(None) => None,
        Ok(Some(s)) => match ParameterFormat::parse(&s) {
            Some(f) => Some(f),
            None => return Err(invalid_value("format", &Json::Str(s))),
        },
        Err(e) => return Err(e),
    };
    let pattern = match opt_string(o, "pattern") {
        Ok(s) => s,
        Err(e) => return Err(e),
    };
    let minimum = match opt_string(o, "minimum") {
        Ok(s) => s,
        Err(e) => return Err(e),
    };
    let maximum = match opt_string(o, "maximum") {
        Ok(s) => s,
        Err(e) => return Err(e),
    };
    let enum_ = match opt_string_list(o, "enum") {
        Ok(v) => v,
        Err(e) => return Err(e),
    };
    let enum_descriptions = match opt_string_list(o, "enumDescriptions") {
        Ok(v) => v,
        Err(e) => return Err(e),
    };
    let repeated = match flag_or_false(o, "repeated") {
        Ok(b) => b,
        Err(e) => return Err(e),
    };
    let location = match opt_string(o, "location") {
        Ok(s) => s,
        Err(e) => return Err(e),
    };
    let annotations = match find(o, "annotations") {
        None => None,
        Some(Json::Null) => None,
        Some(v) => match decode_annotations(v) {
            Ok(a) => Some(a),
            Err(e) => return Err(e.nest(PathSegment::Key("annotations".to_owned()))),
        },
    };
    let properties = opaque(o, "properties");
    let additional_properties = opaque(o, "additionalProperties");
    let items = opaque(o, "items");
    let r = Parameter {
        id,
        type_,
        ref_,
        description,
        default,
        required,
        format,
        pattern,
        minimum,
        maximum,
        enum_,
        enum_descriptions,
        repeated,
        location,
        properties,
        additional_properties,
        items,
        annotations,
    };
    assert(opt_json_view(r.properties) == member(members_view(o@), "properties"@));
    assert(opt_json_view(r.additional_properties) == member(members_view(o@), "additionalProperties"@));
    assert(opt_json_view(r.items) == member(members_view(o@), "items"@));
    Ok(r)
}

/// The parameters of an object whose members each hold one, by name, in order.
pub open spec fn parameter_entries(m: Members) -> Result<Seq<(Seq<char>, ParameterView)>, Fault>
    decreases m.len(),
{
    if m.len() == 0 {
        Ok(Seq::empty())
    } else {
        match parameter_entries(m.drop_last()) {
            Err(f) => Err(f),
            Ok(x) => match parameter_spec(m.last().1) {
                Ok(v) => Ok(x.push((m.last().0, v))),
                Err(f) => Err(nested(f, Step::Key(m.last().0))),
            },
        }
    }
}

proof fn lemma_parameter_entries_prefix(m: Members, n: int)
    requires
        0 <= n <= m.len(),
        parameter_entries(m.take(n)) is Err,
    ensures
        parameter_entries(m) == parameter_entries(m.take(n)),
    decreases m.len(),
{
    if n < m.len() {
        assert(m.drop_last().take(n) =~= m.take(n));
        lemma_parameter_entries_prefix(m.drop_last(), n);
    } else {
        assert(m.take(n) =~= m);
    }
}

/// The member `k` that maps names to parameters, empty where absent.
pub open spec fn parameter_map(o: Members, k: Seq<char>) -> Result<Seq<(Seq<char>, ParameterView)>, Fault> {
    match member(o, k) {
        None => Ok(Seq::empty()),
        Some(JsonValue::Object(m)) => match parameter_entries(m) {
            Ok(x) => Ok(x),
            Err(f) => Err(nested(f, Step::Key(k))),
        },
        Some(v) => Err(invalid(k, v)),
    }
}

/// The models of named parameters.
pub open spec fn parameters_view(v: Seq<(String, Parameter)>) -> Seq<(Seq<char>, ParameterView)> {
    v.map_values(|e: (String, Parameter)| (e.0@, e.1@))
}

/// Decodes the member `k` of `o` that maps names to parameters.
pub fn parameters_of(o: &Vec<(String, Json)>, k: &str) -> (r: Result<Vec<(String, Parameter)>, DecodeError>)
    ensures
        match r {
            Ok(v) => parameter_map(members_view(o@), k@) == Ok::<Seq<(Seq<char>, ParameterView)>, Fault>(parameters_view(v@)),
            Err(e) => parameter_map(members_view(o@), k@) == Err::<Seq<(Seq<char>, ParameterView)>, Fault>(e@),
        },
{
    let m = match find(o, k) {
        None => {
            let v: Vec<(String, Parameter)> = Vec::new();
            assert(parameters_view(v@) =~= Seq::<(Seq<char>, ParameterView)>::empty());
            return Ok(v);
        },
        Some(Json::Object(m)) => m,
        Some(v) => return Err(invalid_value(k, v)),
    };
    let ghost mv = members_view(m@);
    proof {
        lemma_members_view(m@);
        assert(mv.take(0) =~= Seq::<(Seq<char>, JsonValue)>::empty());
        assert(parameters_view(Seq::<(String, Parameter)>::empty()) =~= Seq::<(Seq<char>, ParameterView)>::empty());
    }
    let mut out: Vec<(String, Parameter)> = Vec::new();
    let mut i: usize = 0;
    while i < m.len()
        invariant
            0 <= i <= m@.len(),
            member(members_view(o@), k@) == Some(JsonValue::Object(mv)),
            mv == members_view(m@),
            mv.len() == m@.len(),
            forall|n: int| 0 <= n < m@.len() ==> #[trigger] mv[n] == (m@[n].0@, m@[n].1@),
            parameter_entries(mv.take(i as int)) == Ok::<Seq<(Seq<char>, ParameterView)>, Fault>(parameters_view(out@)),
        decreases m@.len() - i,
    {
        assert(mv.take(i + 1).drop_last() =~= mv.take(i as int));
        assert(mv.take(i + 1).last() == mv[i as int]);
        match decode_parameter(&m[i].1) {
            Ok(v) => {
                let ghost before = out@;
                let name = m[i].0.clone();
                out.push((name, v));
                assert(parameters_view(out@) =~= parameters_view(before).push((name@, v@)));
            },
            Err(e) => {
                proof {
                    lemma_parameter_entries_prefix(mv, i + 1);
                }
                return Err(e.nest(PathSegment::Key(m[i].0.clone())).nest(PathSegment::Key(k.to_owned())));
            },
        }
        i += 1;
    }
    assert(mv.take(i as int) =~= mv);
    Ok(out)
}

/// The identifier of an OAuth 2.0 scope.
#[derive(Debug, PartialEq)]
pub struct OAuth2Scope(pub String);

/// The models of a sequence of scopes.
pub open spec fn scope_names(v: Seq<OAuth2Scope>) -> Seq<Seq<char>> {
    v.map_values(|s: OAuth2Scope| s.0@)
}

fn as_scopes(v: &Vec<String>) -> (r: Vec<OAuth2Scope>)
    ensures
        scope_names(r@) == strings_view(v@),
{
    let mut out: Vec<OAuth2Scope> = Vec::new();
    let mut i: usize = 0;
    while i < v.len()
        invariant
            0 <= i <= v@.len(),
            out@.len() == i,
            forall|n: int| 0 <= n < i ==> #[trigger] out@[n].0@ == v@[n]@,
        decreases v@.len() - i,
    {
        out.push(OAuth2Scope(v[i].clone()));
        i += 1;
    }
    assert(scope_names(out@) =~= strings_view(v@));
    out
}

/// One callable operation of the service.
#[derive(Debug, PartialEq)]
pub struct Method {
    pub id: String,
    pub path: String,
    pub http_method: String,
    pub description: Option<String>,
    pub parameters: Vec<(String, Parameter)>,
    pub parameter_order: Vec<String>,
    pub request: Option<Ref>,
    pub response: Option<Ref>,
    pub scopes: Vec<OAuth2Scope>,
    pub supports_media_download: Option<bool>,
    pub supports_media_upload: Option<bool>,
    pub use_media_download_service: Option<bool>,
    pub supports_subscription: Option<bool>,
    pub flat_path: Option<String>,
    pub streaming_type: Option<String>,
    pub media_upload: Option<Json>,
}

/// The model of a [`Method`].
pub struct MethodView {
    pub id: Seq<char>,
    pub path: Seq<char>,
    pub http_method: Seq<char>,
    pub description: Option<Seq<char>>,
    pub parameters: Seq<(Seq<char>, ParameterView)>,
    pub parameter_order: Seq<Seq<char>>,
    pub request: Option<Option<Seq<char>>>,
    pub response: Option<Option<Seq<char>>>,
    pub scopes: Seq<Seq<char>>,
    pub supports_media_download: Option<bool>,
    pub supports_media_upload: Option<bool>,
    pub use_media_download_service: Option<bool>,
    pub supports_subscription: Option<bool>,
    pub flat_path: Option<Seq<char>>,
    pub streaming_type: Option<Seq<char>>,
    pub media_upload: Option<JsonValue>,
}

impl View for Method {
    type V = MethodView;

    open spec fn view(&self) -> MethodView {
        MethodView {
            id: self.id@,
            path: self.path@,
            http_method: self.http_method@,
            description: opt_view(self.description),
            parameters: parameters_view(self.parameters@),
            parameter_order: strings_view(self.parameter_order@),
            request: opt_ref_view(self.request),
            response: opt_ref_view(self.response),
            scopes: scope_names(self.scopes@),
            supports_media_download: self.supports_media_download,
            supports_media_upload: self.supports_media_upload,
            use_media_download_service: self.use_media_download_service,
            supports_subscription: self.supports_subscription,
            flat_path: opt_view(self.flat_path),
            streaming_type: opt_view(self.streaming_type),
            media_upload: opt_json_view(self.media_upload),
        }
    }
}

/// What the JSON value `j` decodes to as a method.
pub open spec fn method_spec(j: JsonValue) -> Result<MethodView, Fault> {
    match fields_of(j, Shape::Method) {
        Err(f) => Err(f),
        Ok(o) => {
            let id = req_str(o, "id"@);
            let path = req_str(o, "path"@);
            let http_method = req_str(o, "httpMethod"@);
            let description = opt_str(o, "description"@);
            let parameters = parameter_map(o, "parameters"@);
            let parameter_order = str_list(o, "parameterOrder"@);
            let request = opt_ref(o, "request"@);
            let response = opt_ref(o, "response"@);
            let scopes = str_list(o, "scopes"@);
            let supports_media_download = opt_bool(o, "supportsMediaDownload"@);
            let supports_media_upload = opt_bool(o, "supportsMediaUpload"@);
            let use_media_download_service = opt_bool(o, "useMediaDownloadService"@);
            let supports_subscription = opt_bool(o, "supportsSubscription"@);
            let flat_path = opt_str(o, "flatPath"@);
            let streaming_type = opt_str(o, "streamingType"@);
            if id is Err {
                Err(id->Err_0)
            } else if path is Err {
                Err(path->Err_0)
            } else if http_method is Err {
                Err(http_method->Err_0)
            } else if description is Err {
                Err(description->Err_0)
            } else if parameters is Err {
                Err(parameters->Err_0)
            } else if parameter_order is Err {
                Err(parameter_order->Err_0)
            } else if request is Err {
                Err(request->Err_0)
            } else if response is Err {
                Err(response->Err_0)
            } else if scopes is Err {
                Err(scopes->Err_0)
            } else if supports_media_download is Err {
                Err(supports_media_download->Err_0)
            } else if supports_media_upload is Err {
                Err(supports_media_upload->Err_0)
            } else if use_media_download_service is Err {
                Err(use_media_download_service->Err_0)
            } else if supports_subscription is Err {
                Err(supports_subscription->Err_0)
            } else if flat_path is Err {
                Err(flat_path->Err_0)
            } else if streaming_type is Err {
                Err(streaming_type->Err_0)
            } else {
                Ok(
                    MethodView {
                        id: id->Ok_0,
                        path: path->Ok_0,
                        http_method: http_method->Ok_0,
                        description: description->Ok_0,
                        parameters: parameters->Ok_0,
                        parameter_order: parameter_order->Ok_0,
                        request: request->Ok_0,
                        response: response->Ok_0,
                        scopes: scopes->Ok_0,
                        supports_media_download: supports_media_download->Ok_0,
                        supports_media_upload: supports_media_upload->Ok_0,
                        use_media_download_service: use_media_download_service->Ok_0,
                        supports_subscription: supports_subscription->Ok_0,
                        flat_path: flat_path->Ok_0,
                        streaming_type: streaming_type->Ok_0,
                        media_upload: member(o, "mediaUpload"@),
                    },
                )
            }
        },
    }
}

/// Decodes a method.
pub fn decode_method(j: &Json) -> (r: Result<Method, DecodeError>)
    ensures
        match r {
            Ok(m) => method_spec(j@) == Ok::<MethodView, Fault>(m@),
            Err(e) => method_spec(j@) == Err::<MethodView, Fault>(e@),
        },
{
    let o = match object_fields(j, Shape::Method) {
        Ok(o) => o,
        Err(e) => return Err(e),
    };
    let id = match req_string(o, "id") {
        Ok(s) => s,
        Err(e) => return Err(e),
    };
    let path = match req_string(o, "path") {
        Ok(s) => s,
        Err(e) => return Err(e),
    };
    let http_method = match req_string(o, "httpMethod") {
        Ok(s) => s,
        Err(e) => return Err(e),
    };
    let description = match opt_string(o, "description") {
        Ok(s) => s,
        Err(e) => return Err(e),
    };
    let parameters = match parameters_of(o, "parameters") {
        Ok(v) => v,
        Err(e) => return Err(e),
    };
    let parameter_order = match string_list(o, "parameterOrder") {
        Ok(v) => v,
        Err(e) => return Err(e),
    };
    let request = match ref_of(o, "request") {
        Ok(x) => x,
        Err(e) => return Err(e),
    };
    let response = match ref_of(o, "response") {
        Ok(x) => x,
        Err(e) => return Err(e),
    };
    let scopes = match string_list(o, "scopes") {
        Ok(v) => as_scopes(&v),
        Err(e) => return Err(e),
    };
    let supports_media_download = match opt_boolean(o, "supportsMediaDownload") {
        Ok(b) => b,
        Err(e) => return Err(e),
    };
    let supports_media_upload = match opt_boolean(o, "supportsMediaUpload") {
        Ok(b) => b,
        Err(e) => return Err(e),
    };
    let use_media_download_service = match opt_boolean(o, "useMediaDownloadService") {
        Ok(b) => b,
        Err(e) => return Err(e),
    };
    let supports_subscription = match opt_boolean(o, "supportsSubscription") {
        Ok(b) => b,
        Err(e) => return Err(e),
    };
    let flat_path = match opt_string(o, "flatPath") {
        Ok(s) => s,
        Err(e) => return Err(e),
    };
    let streaming_type = match opt_string(o, "streamingType") {
        Ok(s) => s,
        Err(e) => return Err(e),
    };
    let media_upload = opaque(o, "mediaUpload");
    let r = Method {
        id,
        path,
        http_method,
        description,
        parameters,
        parameter_order,
        request,
        response,
        scopes,
        supports_media_download,
        supports_media_upload,
        use_media_download_service,
        supports_subscription,
        flat_path,
        streaming_type,
        media_upload,
    };
    assert(opt_json_view(r.media_upload) == member(members_view(o@), "mediaUpload"@));
    Ok(r)
}

/// The methods of an object whose members each hold one, by name, in order.
pub open spec fn method_entries(m: Members) -> Result<Seq<(Seq<char>, MethodView)>, Fault>
    decreases m.len(),
{
    if m.len() == 0 {
        Ok(Seq::empty())
    } else {
        match method_entries(m.drop_last()) {
            Err(f) => Err(f),
            Ok(x) => match method_spec(m.last().1) {
                Ok(v) => Ok(x.push((m.last().0, v))),
                Err(f) => Err(nested(f, Step::Key(m.last().0))),
            },
        }
    }
}

proof fn lemma_method_entries_prefix(m: Members, n: int)
    requires
        0 <= n <= m.len(),
        method_entries(m.take(n)) is Err,
    ensures
        method_entries(m) == method_entries(m.take(n)),
    decreases m.len(),
{
    if n < m.len() {
        assert(m.drop_last().take(n) =~= m.take(n));
        lemma_method_entries_prefix(m.drop_last(), n);
    } else {
        assert(m.take(n) =~= m);
    }
}

/// The member `k` that maps names to methods, empty where absent.
pub open spec fn method_map(o: Members, k: Seq<char>) -> Result<Seq<(Seq<char>, MethodView)>, Fault> {
    match member(o, k) {
        None => Ok(Seq::empty()),
        Some(JsonValue::Object(m)) => match method_entries(m) {
            Ok(x) => Ok(x),
            Err(f) => Err(nested(f, Step::Key(k))),
        },
        Some(v) => Err(invalid(k, v)),
    }
}

/// The models of named methods.
pub open spec fn methods_view(v: Seq<(String, Method)>) -> Seq<(Seq<char>, MethodView)> {
    v.map_values(|e: (String, Method)| (e.0@, e.1@))
}

/// Decodes the member `k` of `o` that maps names to methods.
pub fn methods_of(o: &Vec<(String, Json)>, k: &str) -> (r: Result<Vec<(String, Method)>, DecodeError>)
    ensures
        match r {
            Ok(v) => method_map(members_view(o@), k@) == Ok::<Seq<(Seq<char>, MethodView)>, Fault>(methods_view(v@)),
            Err(e) => method_map(members_view(o@), k@) == Err::<Seq<(Seq<char>, MethodView)>, Fault>(e@),
        },
{
    let m = match find(o, k) {
        None => {
            let v: Vec<(String, Method)> = Vec::new();
            assert(methods_view(v@) =~= Seq::<(Seq<char>, MethodView)>::empty());
            return Ok(v);
        },
        Some(Json::Object(m)) => m,
        Some(v) => return Err(invalid_value(k, v)),
    };
    let ghost mv = members_view(m@);
    proof {
        lemma_members_view(m@);
        assert(mv.take(0) =~= Seq::<(Seq<char>, JsonValue)>::empty());
        assert(methods_view(Seq::<(String, Method)>::empty()) =~= Seq::<(Seq<char>, MethodView)>::empty());
    }
    let mut out: Vec<(String, Method)> = Vec::new();
    let mut i: usize = 0;
    while i < m.len()
        invariant
            0 <= i <= m@.len(),
            member(members_view(o@), k@) == Some(JsonValue::Object(mv)),
            mv == members_view(m@),
            mv.len() == m@.len(),
            forall|n: int| 0 <= n < m@.len() ==> #[trigger] mv[n] == (m@[n].0@, m@[n].1@),
            method_entries(mv.take(i as int)) == Ok::<Seq<(Seq<char>, MethodView)>, Fault>(methods_view(out@)),
        decreases m@.len() - i,
    {
        assert(mv.take(i + 1).drop_last() =~= mv.take(i as int));
        assert(mv.take(i + 1).last() == mv[i as int]);
        match decode_method(&m[i].1) {
            Ok(v) => {
                let ghost before = out@;
                let name = m[i].0.clone();
                out.push((name, v));
                assert(methods_view(out@) =~= methods_view(before).push((name@, v@)));
            },
            Err(e) => {
                proof {
                    lemma_method_entries_prefix(mv, i + 1);
                }
                return Err(e.nest(PathSegment::Key(m[i].0.clone())).nest(PathSegment::Key(k.to_owned())));
            },
        }
        i += 1;
    }
    assert(mv.take(i as int) =~= mv);
    Ok(out)
}

/// The description of one OAuth 2.0 scope.
#[derive(Debug, PartialEq)]
pub struct OAuth2ScopeDesciption {
    pub description: String,
}

impl View for OAuth2ScopeDesciption {
    type V = Seq<char>;

    open spec fn view(&self) -> Seq<char> {
        self.description@
    }
}

/// What the JSON value `j` decodes to as the description of a scope.
pub open spec fn scope_description_spec(j: JsonValue) -> Result<Seq<char>, Fault> {
    match fields_of(j, Shape::ScopeDescription) {
        Err(f) => Err(f),
        Ok(o) => req_str(o, "description"@),
    }
}

/// Decodes the description of a scope.
pub fn decode_scope_description(j: &Json) -> (r: Result<OAuth2ScopeDesciption, DecodeError>)
    ensures
        match r {
            Ok(d) => scope_description_spec(j@) == Ok::<Seq<char>, Fault>(d@),
            Err(e) => scope_description_spec(j@) == Err::<Seq<char>, Fault>(e@),
        },
{
    let o = match object_fields(j, Shape::ScopeDescription) {
        Ok(o) => o,
        Err(e) => return Err(e),
    };
    match req_string(o, "description") {
        Ok(description) => Ok(OAuth2ScopeDesciption { description }),
        Err(e) => Err(e),
    }
}

/// The scope descriptions of an object whose members each hold one, by name, in order.
pub open spec fn scope_entries(m: Members) -> Result<Seq<(Seq<char>, Seq<char>)>, Fault>
    decreases m.len(),
{
    if m.len() == 0 {
        Ok(Seq::empty())
    } else {
        match scope_entries(m.drop_last()) {
            Err(f) => Err(f),
            Ok(x) => match scope_description_spec(m.last().1) {
                Ok(v) => Ok(x.push((m.last().0, v))),
                Err(f) => Err(nested(f, Step::Key(m.last().0))),
            },
        }
    }
}

proof fn lemma_scope_entries_prefix(m: Members, n: int)
    requires
        0 <= n <= m.len(),
        scope_entries(m.take(n)) is Err,
    ensures
        scope_entries(m) == scope_entries(m.take(n)),
    decreases m.len(),
{
    if n < m.len() {
        assert(m.drop_last().take(n) =~= m.take(n));
        lemma_scope_entries_prefix(m.drop_last(), n);
    } else {
        assert(m.take(n) =~= m);
    }
}

/// The member `k` that maps names to scope descriptions, empty where absent.
pub open spec fn scope_map(o: Members, k: Seq<char>) -> Result<Seq<(Seq<char>, Seq<char>)>, Fault> {
    match member(o, k) {
        None => Ok(Seq::empty()),
        Some(JsonValue::Object(m)) => match scope_entries(m) {
            Ok(x) => Ok(x),
            Err(f) => Err(nested(f, Step::Key(k))),
        },
        Some(v) => Err(invalid(k, v)),
    }
}

/// The models of named scope descriptions.
pub open spec fn scopes_view(v: Seq<(String, OAuth2ScopeDesciption)>) -> Seq<(Seq<char>, Seq<char>)> {
    v.map_values(|e: (String, OAuth2ScopeDesciption)| (e.0@, e.1@))
}

/// Decodes the member `k` of `o` that maps names to scope descriptions.
pub fn scopes_of(o: &Vec<(String, Json)>, k: &str) -> (r: Result<Vec<(String, OAuth2ScopeDesciption)>, DecodeError>)
    ensures
        match r {
            Ok(v) => scope_map(members_view(o@), k@) == Ok::<Seq<(Seq<char>, Seq<char>)>, Fault>(scopes_view(v@)),
            Err(e) => scope_map(members_view(o@), k@) == Err::<Seq<(Seq<char>, Seq<char>)>, Fault>(e@),
        },
{
    let m = match find(o, k) {
        None => {
            let v: Vec<(String, OAuth2ScopeDesciption)> = Vec::new();
            assert(scopes_view(v@) =~= Seq::<(Seq<char>, Seq<char>)>::empty());
            return Ok(v);
        },
        Some(Json::Object(m)) => m,
        Some(v) => return Err(invalid_value(k, v)),
    };
    let ghost mv = members_view(m@);
    proof {
        lemma_members_view(m@);
        assert(mv.take(0) =~= Seq::<(Seq<char>, JsonValue)>::empty());
        assert(scopes_view(Seq::<(String, OAuth2ScopeDesciption)>::empty()) =~= Seq::<(Seq<char>, Seq<char>)>::empty());
    }
    let mut out: Vec<(String, OAuth2ScopeDesciption)> = Vec::new();
    let mut i: usize = 0;
    while i < m.len()
        invariant
            0 <= i <= m@.len(),
            member(members_view(o@), k@) == Some(JsonValue::Object(mv)),
            mv == members_view(m@),
            mv.len() == m@.len(),
            forall|n: int| 0 <= n < m@.len() ==> #[trigger] mv[n] == (m@[n].0@, m@[n].1@),
            scope_entries(mv.take(i as int)) == Ok::<Seq<(Seq<char>, Seq<char>)>, Fault>(scopes_view(out@)),
        decreases m@.len() - i,
    {
        assert(mv.take(i + 1).drop_last() =~= mv.take(i as int));
        assert(mv.take(i + 1).last() == mv[i as int]);
        match decode_scope_description(&m[i].1) {
            Ok(v) => {
                let ghost before = out@;
                let name = m[i].0.clone();
                out.push((name, v));
                assert(scopes_view(out@) =~= scopes_view(before).push((name@, v@)));
            },
            Err(e) => {
                proof {
                    lemma_scope_entries_prefix(mv, i + 1);
                }
                return Err(e.nest(PathSegment::Key(m[i].0.clone())).nest(PathSegment::Key(k.to_owned())));
            },
        }
        i += 1;
    }
    assert(mv.take(i as int) =~= mv);
    Ok(out)
}

/// The OAuth 2.0 section of a descriptor: the scopes that its methods may ask for.
#[derive(Debug, PartialEq)]
pub struct OAuth2 {
    pub scopes: Vec<(String, OAuth2ScopeDesciption)>,
}

/// How a service is authorised.
#[derive(Debug, PartialEq)]
pub struct Auth {
    pub oauth2: OAuth2,
}

impl View for Auth {
    type V = Seq<(Seq<char>, Seq<char>)>;

    /// The scopes, each with its description.
    open spec fn view(&self) -> Seq<(Seq<char>, Seq<char>)> {
        scopes_view(self.oauth2.scopes@)
    }
}

/// What the JSON value `j` decodes to as the OAuth 2.0 section.
pub open spec fn oauth2_spec(j: JsonValue) -> Result<Seq<(Seq<char>, Seq<char>)>, Fault> {
    match fields_of(j, Shape::OAuth2) {
        Err(f) => Err(f),
        Ok(o) => scope_map(o, "scopes"@),
    }
}

/// What the JSON value `j` decodes to as the `auth` member.
pub open spec fn auth_spec(j: JsonValue) -> Result<Seq<(Seq<char>, Seq<char>)>, Fault> {
    match fields_of(j, Shape::Auth) {
        Err(f) => Err(f),
        Ok(o) => match member(o, "oauth2"@) {
            None => Err(missing("oauth2"@)),
            Some(v) => match oauth2_spec(v) {
                Ok(x) => Ok(x),
                Err(f) => Err(nested(f, Step::Key("oauth2"@))),
            },
        },
    }
}

/// Decodes the `auth` member of a descriptor.
pub fn decode_auth(j: &Json) -> (r: Result<Auth, DecodeError>)
    ensures
        match r {
            Ok(a) => auth_spec(j@) == Ok::<Seq<(Seq<char>, Seq<char>)>, Fault>(a@),
            Err(e) => auth_spec(j@) == Err::<Seq<(Seq<char>, Seq<char>)>, Fault>(e@),
        },
{
    let o = match object_fields(j, Shape::Auth) {
        Ok(o) => o,
        Err(e) => return Err(e),
    };
    let v = match find(o, "oauth2") {
        None => return Err(crate::decode::missing_field("oauth2")),
        Some(v) => v,
    };
    let inner = match object_fields(v, Shape::OAuth2) {
        Ok(inner) => inner,
        Err(e) => return Err(e.nest(PathSegment::Key("oauth2".to_owned()))),
    };
    match scopes_of(inner, "scopes") {
        Ok(scopes) => Ok(Auth { oauth2: OAuth2 { scopes } }),
        Err(e) => Err(e.nest(PathSegment::Key("oauth2".to_owned()))),
    }
}

/// The optional `auth` member `k`; `null` counts as absent.
pub open spec fn opt_auth(o: Members, k: Seq<char>) -> Result<Option<Seq<(Seq<char>, Seq<char>)>>, Fault> {
    match member(o, k) {
        None => Ok(None),
        Some(JsonValue::Null) => Ok(None),
        Some(v) => match auth_spec(v) {
            Ok(a) => Ok(Some(a)),
            Err(f) => Err(nested(f, Step::Key(k))),
        },
    }
}

/// A group of methods, with groups nested inside it to any depth.
#[derive(Debug, PartialEq)]
pub struct Resource {
    pub methods: Vec<(String, Method)>,
    pub resources: Vec<(String, Resource)>,
}

/// The model of a [`Resource`].
pub struct ResourceView {
    pub methods: Seq<(Seq<char>, MethodView)>,
    pub resources: Seq<(Seq<char>, ResourceView)>,
}

impl View for Resource {
    type V = ResourceView;

    open spec fn view(&self) -> ResourceView
        decreases self,
    {
        ResourceView {
            methods: methods_view(self.methods@),
            resources: resources_view(self.resources@),
        }
    }
}

/// The models of named resources.
pub open spec fn resources_view(s: Seq<(String, Resource)>) -> Seq<(Seq<char>, ResourceView)>
    decreases s,
{
    if s.len() == 0 {
        Seq::empty()
    } else {
        resources_view(s.drop_last()).push((s.last().0@, s.last().1.view()))
    }
}

/// What the JSON value `j` decodes to as a resource.
pub open spec fn resource_spec(j: JsonValue) -> Result<ResourceView, Fault>
    decreases j,
{
    match j {
        JsonValue::Object(o) => match first_unknown(o, Shape::Resource) {
            Some(k) => Err(Fault::UnexpectedField(seq![Step::Key(k)])),
            None => {
                let methods = method_map(o, "methods"@);
                let i = member_pos(o, "resources"@);
                let resources = if 0 <= i < o.len() {
                    match o[i].1 {
                        JsonValue::Object(m) => match resource_entries(m) {
                            Ok(x) => Ok(x),
                            Err(f) => Err(nested(f, Step::Key("resources"@))),
                        },
                        v => Err(invalid("resources"@, v)),
                    }
                } else {
                    Ok(Seq::empty())
                };
                if methods is Err {
                    Err(methods->Err_0)
                } else if resources is Err {
                    Err(resources->Err_0)
                } else {
                    Ok(ResourceView { methods: methods->Ok_0, resources: resources->Ok_0 })
                }
            },
        },
        _ => Err(Fault::InvalidValue(seq![], j)),
    }
}

/// The resources of an object whose members each hold one, by name, in order.
pub open spec fn resource_entries(m: Members) -> Result<Seq<(Seq<char>, ResourceView)>, Fault>
    decreases m,
{
    if m.len() == 0 {
        Ok(Seq::empty())
    } else {
        match resource_entries(m.drop_last()) {
            Err(f) => Err(f),
            Ok(x) => match resource_spec(m.last().1) {
                Ok(v) => Ok(x.push((m.last().0, v))),
                Err(f) => Err(nested(f, Step::Key(m.last().0))),
            },
        }
    }
}

proof fn lemma_resource_entries_prefix(m: Members, n: int)
    requires
        0 <= n <= m.len(),
        resource_entries(m.take(n)) is Err,
    ensures
        resource_entries(m) == resource_entries(m.take(n)),
    decreases m.len(),
{
    if n < m.len() {
        assert(m.drop_last().take(n) =~= m.take(n));
        lemma_resource_entries_prefix(m.drop_last(), n);
    } else {
        assert(m.take(n) =~= m);
    }
}

/// The member `k` that maps names to resources, empty where absent.
pub open spec fn resource_map(o: Members, k: Seq<char>) -> Result<Seq<(Seq<char>, ResourceView)>, Fault> {
    match member(o, k) {
        None => Ok(Seq::empty()),
        Some(JsonValue::Object(m)) => match resource_entries(m) {
            Ok(x) => Ok(x),
            Err(f) => Err(nested(f, Step::Key(k))),
        },
        Some(v) => Err(invalid(k, v)),
    }
}

/// Decodes a resource and everything nested in it.
pub fn decode_resource(j: &Json) -> (r: Result<Resource, DecodeError>)
    ensures
        match r {
            Ok(x) => resource_spec(j@) == Ok::<ResourceView, Fault>(x@),
            Err(e) => resource_spec(j@) == Err::<ResourceView, Fault>(e@),
        },
    decreases j,
{
    let o = match object_fields(j, Shape::Resource) {
        Ok(o) => o,
        Err(e) => return Err(e),
    };
    let methods = match methods_of(o, "methods") {
        Ok(v) => v,
        Err(e) => return Err(e),
    };
    proof {
        lemma_members_view(o@);
    }
    let resources = match find_index(o, "resources") {
        None => {
            let v: Vec<(String, Resource)> = Vec::new();
            assert(resources_view(v@) =~= Seq::<(Seq<char>, ResourceView)>::empty());
            v
        },
        Some(idx) => match &o[idx].1 {
            Json::Object(m) => {
                proof {
                    vstd::std_specs::vec::axiom_vec_index_decreases(*o, idx as int);
                    assert(decreases_to!(*j => j->Object_0));
                    assert(decreases_to!(o@[idx as int] => o@[idx as int].1));
                    assert(decreases_to!(o@[idx as int].1 => o@[idx as int].1->Object_0));
                }
                match decode_resources(m) {
                    Ok(v) => v,
                    Err(e) => return Err(e.nest(PathSegment::Key("resources".to_owned()))),
                }
            },
            v => return Err(invalid_value("resources", v)),
        },
    };
    Ok(Resource { methods, resources })
}

/// Decodes the members of an object, each a resource, in order.
pub fn decode_resources(m: &Vec<(String, Json)>) -> (r: Result<Vec<(String, Resource)>, DecodeError>)
    ensures
        match r {
            Ok(v) => resource_entries(members_view(m@)) == Ok::<Seq<(Seq<char>, ResourceView)>, Fault>(resources_view(v@)),
            Err(e) => resource_entries(members_view(m@)) == Err::<Seq<(Seq<char>, ResourceView)>, Fault>(e@),
        },
    decreases m,
{
    let ghost mv = members_view(m@);
    proof {
        lemma_members_view(m@);
        assert(mv.take(0) =~= Seq::<(Seq<char>, JsonValue)>::empty());
    }
    let mut out: Vec<(String, Resource)> = Vec::new();
    let mut i: usize = 0;
    while i < m.len()
        invariant
            0 <= i <= m@.len(),
            mv == members_view(m@),
            mv.len() == m@.len(),
            forall|n: int| 0 <= n < m@.len() ==> #[trigger] mv[n] == (m@[n].0@, m@[n].1@),
            resource_entries(mv.take(i as int)) == Ok::<Seq<(Seq<char>, ResourceView)>, Fault>(resources_view(out@)),
        decreases m@.len() - i,
    {
        assert(mv.take(i + 1).drop_last() =~= mv.take(i as int));
        assert(mv.take(i + 1).last() == mv[i as int]);
        proof {
            vstd::std_specs::vec::axiom_vec_index_decreases(*m, i as int);
            assert(decreases_to!(m@[i as int] => m@[i as int].1));
        }
        match decode_resource(&m[i].1) {
            Ok(v) => {
                let ghost before = out@;
                let name = m[i].0.clone();
                out.push((name, v));
                assert(out@.drop_last() =~= before);
            },
            Err(e) => {
                proof {
                    lemma_resource_entries_prefix(mv, i + 1);
                }
                return Err(e.nest(PathSegment::Key(m[i].0.clone())));
            },
        }
        i += 1;
    }
    assert(mv.take(i as int) =~= mv);
    Ok(out)
}

/// Decodes the member `k` of `o` that maps names to resources.
pub fn resources_of(o: &Vec<(String, Json)>, k: &str) -> (r: Result<Vec<(String, Resource)>, DecodeError>)
    ensures
        match r {
            Ok(v) => resource_map(members_view(o@), k@) == Ok::<Seq<(Seq<char>, ResourceView)>, Fault>(resources_view(v@)),
            Err(e) => resource_map(members_view(o@), k@) == Err::<Seq<(Seq<char>, ResourceView)>, Fault>(e@),
        },
{
    match find(o, k) {
        None => {
            let v: Vec<(String, Resource)> = Vec::new();
            assert(resources_view(v@) =~= Seq::<(Seq<char>, ResourceView)>::empty());
            Ok(v)
        },
        Some(Json::Object(m)) => match decode_resources(m) {
            Ok(v) => Ok(v),
            Err(e) => Err(e.nest(PathSegment::Key(k.to_owned()))),
        },
        Some(v) => Err(invalid_value(k, v)),
    }
}

/// The descriptor of one API at one version.
#[derive(Debug, PartialEq)]
pub struct RestDescription {
    pub kind: RestDescriptionKind,
    pub discovery_version: Version,
    pub id: String,
    pub name: String,
    pub version: String,
    pub revision: String,
    pub title: String,
    pub description: String,
    pub protocol: RestProtocol,
    pub base_url: String,
    pub base_path: String,
    pub root_url: String,
    pub service_path: String,
    pub batch_path: String,
    pub parameters: Vec<(String, Parameter)>,
    pub schemas: Vec<(String, Parameter)>,
    pub methods: Vec<(String, Method)>,
    pub resources: Vec<(String, Resource)>,
    pub auth: Option<Auth>,
    pub canonical_name: Option<String>,
    pub fully_encode_reserved_expansion: Option<bool>,
    pub mtls_root_url: Option<String>,
    pub owner_domain: Option<String>,
    pub owner_name: Option<String>,
    pub etag: Option<String>,
    pub package_path: Option<String>,
    pub documentation_link: Option<String>,
    pub icons: Vec<(IconKey, String)>,
    pub labels: Vec<String>,
    pub features: Vec<String>,
    pub version_module: Option<bool>,
}

/// The model of a [`RestDescription`].
pub struct RestDescriptionView {
    pub kind: RestDescriptionKind,
    pub discovery_version: Version,
    pub id: Seq<char>,
    pub name: Seq<char>,
    pub version: Seq<char>,
    pub revision: Seq<char>,
    pub title: Seq<char>,
    pub description: Seq<char>,
    pub protocol: RestProtocol,
    pub base_url: Seq<char>,
    pub base_path: Seq<char>,
    pub root_url: Seq<char>,
    pub service_path: Seq<char>,
    pub batch_path: Seq<char>,
    pub parameters: Seq<(Seq<char>, ParameterView)>,
    pub schemas: Seq<(Seq<char>, ParameterView)>,
    pub methods: Seq<(Seq<char>, MethodView)>,
    pub resources: Seq<(Seq<char>, ResourceView)>,
    pub auth: Option<Seq<(Seq<char>, Seq<char>)>>,
    pub canonical_name: Option<Seq<char>>,
    pub fully_encode_reserved_expansion: Option<bool>,
    pub mtls_root_url: Option<Seq<char>>,
    pub owner_domain: Option<Seq<char>>,
    pub owner_name: Option<Seq<char>>,
    pub etag: Option<Seq<char>>,
    pub package_path: Option<Seq<char>>,
    pub documentation_link: Option<Seq<char>>,
    pub icons: Seq<(IconKey, Seq<char>)>,
    pub labels: Seq<Seq<char>>,
    pub features: Seq<Seq<char>>,
    pub version_module: Option<bool>,
}

impl View for RestDescription {
    type V = RestDescriptionView;

    open spec fn view(&self) -> RestDescriptionView {
        RestDescriptionView {
            kind: self.kind,
            discovery_version: self.discovery_version,
            id: self.id@,
            name: self.name@,
            version: self.version@,
            revision: self.revision@,
            title: self.title@,
            description: self.description@,
            protocol: self.protocol,
            base_url: self.base_url@,
            base_path: self.base_path@,
            root_url: self.root_url@,
            service_path: self.service_path@,
            batch_path: self.batch_path@,
            parameters: parameters_view(self.parameters@),
            schemas: parameters_view(self.schemas@),
            methods: methods_view(self.methods@),
            resources: resources_view(self.resources@),
            auth: match self.auth {
                Some(a) => Some(a@),
                None => None,
            },
            canonical_name: opt_view(self.canonical_name),
            fully_encode_reserved_expansion: self.fully_encode_reserved_expansion,
            mtls_root_url: opt_view(self.mtls_root_url),
            owner_domain: opt_view(self.owner_domain),
            owner_name: opt_view(self.owner_name),
            etag: opt_view(self.etag),
            package_path: opt_view(self.package_path),
            documentation_link: opt_view(self.documentation_link),
            icons: icons_view(self.icons@),
            labels: strings_view(self.labels@),
            features: strings_view(self.features@),
            version_module: self.version_module,
        }
    }
}

/// What the JSON value `j` decodes to as a descriptor.
pub open spec fn descriptor_spec(j: JsonValue) -> Result<RestDescriptionView, Fault> {
    match fields_of(j, Shape::Descriptor) {
        Err(f) => Err(f),
        Ok(o) => {
            let kind = named(
                req_str(o, "kind"@),
                "kind"@,
                RestDescriptionKind::from_name(req_str(o, "kind"@)->Ok_0),
            );
            let discovery_version = named(
                req_str(o, "discoveryVersion"@),
                "discoveryVersion"@,
                Version::from_name(req_str(o, "discoveryVersion"@)->Ok_0),
            );
            let id = req_str(o, "id"@);
            let name = req_str(o, "name"@);
            let version = req_str(o, "version"@);
            let revision = req_str(o, "revision"@);
            let title = req_str(o, "title"@);
            let description = req_str(o, "description"@);
            let protocol = named(
                req_str(o, "protocol"@),
                "protocol"@,
                RestProtocol::from_name(req_str(o, "protocol"@)->Ok_0),
            );
            let base_url = req_str(o, "baseUrl"@);
            let base_path = req_str(o, "basePath"@);
            let root_url = req_str(o, "rootUrl"@);
            let service_path = req_str(o, "servicePath"@);
            let batch_path = req_str(o, "batchPath"@);
            let parameters = parameter_map(o, "parameters"@);
            let schemas = parameter_map(o, "schemas"@);
            let methods = method_map(o, "methods"@);
            let resources = resource_map(o, "resources"@);
            let auth = opt_auth(o, "auth"@);
            let canonical_name = opt_str(o, "canonicalName"@);
            let fully_encode_reserved_expansion = opt_bool(o, "fullyEncodeReservedExpansion"@);
            let mtls_root_url = opt_str(o, "mtlsRootUrl"@);
            let owner_domain = opt_str(o, "ownerDomain"@);
            let owner_name = opt_str(o, "ownerName"@);
            let etag = opt_str(o, "etag"@);
            let package_path = opt_str(o, "packagePath"@);
            let documentation_link = opt_str(o, "documentationLink"@);
            let icons = icon_map(o, "icons"@);
            let labels = str_list(o, "labels"@);
            let features = str_list(o, "features"@);
            let version_module = opt_bool(o, "version_module"@);
            if kind is Err {
                Err(kind->Err_0)
            } else if discovery_version is Err {
                Err(discovery_version->Err_0)
            } else if id is Err {
                Err(id->Err_0)
            } else if name is Err {
                Err(name->Err_0)
            } else if version is Err {
                Err(version->Err_0)
            } else if revision is Err {
                Err(revision->Err_0)
            } else if title is Err {
                Err(title->Err_0)
            } else if description is Err {
                Err(description->Err_0)
            } else if protocol is Err {
                Err(protocol->Err_0)
            } else if base_url is Err {
                Err(base_url->Err_0)
            } else if base_path is Err {
                Err(base_path->Err_0)
            } else if root_url is Err {
                Err(root_url->Err_0)
            } else if service_path is Err {
                Err(service_path->Err_0)
            } else if batch_path is Err {
                Err(batch_path->Err_0)
            } else if parameters is Err {
                Err(parameters->Err_0)
            } else if schemas is Err {
                Err(schemas->Err_0)
            } else if methods is Err {
                Err(methods->Err_0)
            } else if resources is Err {
                Err(resources->Err_0)
            } else if auth is Err {
                Err(auth->Err_0)
            } else if canonical_name is Err {
                Err(canonical_name->Err_0)
            } else if fully_encode_reserved_expansion is Err {
                Err(fully_encode_reserved_expansion->Err_0)
            } else if mtls_root_url is Err {
                Err(mtls_root_url->Err_0)
            } else if owner_domain is Err {
                Err(owner_domain->Err_0)
            } else if owner_name is Err {
                Err(owner_name->Err_0)
            } else if etag is Err {
                Err(etag->Err_0)
            } else if package_path is Err {
                Err(package_path->Err_0)
            } else if documentation_link is Err {
                Err(documentation_link->Err_0)
            } else if icons is Err {
                Err(icons->Err_0)
            } else if labels is Err {
                Err(labels->Err_0)
            } else if features is Err {
                Err(features->Err_0)
            } else if version_module is Err {
                Err(version_module->Err_0)
            } else {
                Ok(
                    RestDescriptionView {
                        kind: kind->Ok_0,
                        discovery_version: discovery_version->Ok_0,
                        id: id->Ok_0,
                        name: name->Ok_0,
                        version: version->Ok_0,
                        revision: revision->Ok_0,
                        title: title->Ok_0,
                        description: description->Ok_0,
                        protocol: protocol->Ok_0,
                        base_url: base_url->Ok_0,
                        base_path: base_path->Ok_0,
                        root_url: root_url->Ok_0,
                        service_path: service_path->Ok_0,
                        batch_path: batch_path->Ok_0,
                        parameters: parameters->Ok_0,
                        schemas: schemas->Ok_0,
                        methods: methods->Ok_0,
                        resources: resources->Ok_0,
                        auth: auth->Ok_0,
                        canonical_name: canonical_name->Ok_0,
                        fully_encode_reserved_expansion: fully_encode_reserved_expansion->Ok_0,
                        mtls_root_url: mtls_root_url->Ok_0,
                        owner_domain: owner_domain->Ok_0,
                        owner_name: owner_name->Ok_0,
                        etag: etag->Ok_0,
                        package_path: package_path->Ok_0,
                        documentation_link: documentation_link->Ok_0,
                        icons: icons->Ok_0,
                        labels: labels->Ok_0,
                        features: features->Ok_0,
                        version_module: version_module->Ok_0,
                    },
                )
            }
        },
    }
}

/// Decodes a descriptor.
#[verifier::rlimit(100)]
pub fn decode_descriptor(j: &Json) -> (r: Result<RestDescription, DecodeError>)
    ensures
        match r {
            Ok(d) => descriptor_spec(j@) == Ok::<RestDescriptionView, Fault>(d@),
            Err(e) => descriptor_spec(j@) == Err::<RestDescriptionView, Fault>(e@),
        },
{
    let o = match object_fields(j, Shape::Descriptor) {
        Ok(o) => o,
        Err(e) => return Err(e),
    };
    let kind_name = match req_string(o, "kind") {
        Ok(s) => s,
        Err(e) => return Err(e),
    };
    let kind = match RestDescriptionKind::parse(&kind_name) {
        Some(x) => x,
        None => return Err(invalid_value("kind", &Json::Str(kind_name))),
    };
    let discovery_version_name = match req_string(o, "discoveryVersion") {
        Ok(s) => s,
        Err(e) => return Err(e),
    };
    let discovery_version = match Version::parse(&discovery_version_name) {
        Some(x) => x,
        None => return Err(invalid_value("discoveryVersion", &Json::Str(discovery_version_name))),
    };
    let id = match req_string(o, "id") {
        Ok(x) => x,
        Err(e) => return Err(e),
    };
    let name = match req_string(o, "name") {
        Ok(x) => x,
        Err(e) => return Err(e),
    };
    let version = match req_string(o, "version") {
        Ok(x) => x,
        Err(e) => return Err(e),
    };
    let revision = match req_string(o, "revision") {
        Ok(x) => x,
        Err(e) => return Err(e),
    };
    let title = match req_string(o, "title") {
        Ok(x) => x,
        Err(e) => return Err(e),
    };
    let description = match req_string(o, "description") {
        Ok(x) => x,
        Err(e) => return Err(e),
    };
    let protocol_name = match req_string(o, "protocol") {
        Ok(s) => s,
        Err(e) => return Err(e),
    };
    let protocol = match RestProtocol::parse(&protocol_name) {
        Some(x) => x,
        None => return Err(invalid_value("protocol", &Json::Str(protocol_name))),
    };
    let base_url = match req_string(o, "baseUrl") {
        Ok(x) => x,
        Err(e) => return Err(e),
    };
    let base_path = match req_string(o, "basePath") {
        Ok(x) => x,
        Err(e) => return Err(e),
    };
    let root_url = match req_string(o, "rootUrl") {
        Ok(x) => x,
        Err(e) => return Err(e),
    };
    let service_path = match req_string(o, "servicePath") {
        Ok(x) => x,
        Err(e) => return Err(e),
    };
    let batch_path = match req_string(o, "batchPath") {
        Ok(x) => x,
        Err(e) => return Err(e),
    };
    let parameters = match parameters_of(o, "parameters") {
        Ok(x) => x,
        Err(e) => return Err(e),
    };
    let schemas = match parameters_of(o, "schemas") {
        Ok(x) => x,
        Err(e) => return Err(e),
    };
    let methods = match methods_of(o, "methods") {
        Ok(x) => x,
        Err(e) => return Err(e),
    };
    let resources = match resources_of(o, "resources") {
        Ok(x) => x,
        Err(e) => return Err(e),
    };
    let auth = match find(o, "auth") {
        None => None,
        Some(Json::Null) => None,
        Some(v) => match decode_auth(v) {
            Ok(a) => Some(a),
            Err(e) => return Err(e.nest(PathSegment::Key("auth".to_owned()))),
        },
    };
    let canonical_name = match opt_string(o, "canonicalName") {
        Ok(x) => x,
        Err(e) => return Err(e),
    };
    let fully_encode_reserved_expansion = match opt_boolean(o, "fullyEncodeReservedExpansion") {
        Ok(x) => x,
        Err(e) => return Err(e),
    };
    let mtls_root_url = match opt_string(o, "mtlsRootUrl") {
        Ok(x) => x,
        Err(e) => return Err(e),
    };
    let owner_domain = match opt_string(o, "ownerDomain") {
        Ok(x) => x,
        Err(e) => return Err(e),
    };
    let owner_name = match opt_string(o, "ownerName") {
        Ok(x) => x,
        Err(e) => return Err(e),
    };
    let etag = match opt_string(o, "etag") {
        Ok(x) => x,
        Err(e) => return Err(e),
    };
    let package_path = match opt_string(o, "packagePath") {
        Ok(x) => x,
        Err(e) => return Err(e),
    };
    let documentation_link = match opt_string(o, "documentationLink") {
        Ok(x) => x,
        Err(e) => return Err(e),
    };
    let icons = match icons_of(o, "icons") {
        Ok(x) => x,
        Err(e) => return Err(e),
    };
    let labels = match string_list(o, "labels") {
        Ok(x) => x,
        Err(e) => return Err(e),
    };
    let features = match string_list(o, "features") {
        Ok(x) => x,
        Err(e) => return Err(e),
    };
    let version_module = match opt_boolean(o, "version_module") {
        Ok(x) => x,
        Err(e) => return Err(e),
    };
    Ok(
        RestDescription {
            kind,
            discovery_version,
            id,
            name,
            version,
            revision,
            title,
            description,
            protocol,
            base_url,
            base_path,
            root_url,
            service_path,
            batch_path,
            parameters,
            schemas,
            methods,
            resources,
            auth,
            canonical_name,
            fully_encode_reserved_expansion,
            mtls_root_url,
            owner_domain,
            owner_name,
            etag,
            package_path,
            documentation_link,
            icons,
            labels,
            features,
            version_module,
        },
    )
}

/// What the text `t` decodes to as a descriptor.
pub open spec fn descriptor_from_text(t: Seq<char>) -> Result<RestDescriptionView, Fault> {
    match parsed_json(t) {
        None => Err(Fault::Syntax),
        Some(j) => descriptor_spec(j),
    }
}

/// What the text `t` decodes to as a descriptor, where the JSON tree `j` is what serde_json
/// parses out of `t`.
pub fn decode_descriptor_text(j: Option<Json>) -> (r: Result<RestDescription, DecodeError>)
    ensures
        match j {
            None => r matches Err(e) && e@ == Fault::Syntax,
            Some(tree) => match r {
                Ok(d) => descriptor_spec(tree@) == Ok::<RestDescriptionView, Fault>(d@),
                Err(e) => descriptor_spec(tree@) == Err::<RestDescriptionView, Fault>(e@),
            },
        },
{
    match j {
        None => Err(DecodeError::Syntax),
        Some(tree) => decode_descriptor(&tree),
    }
}

/// In any closed object of a descriptor (a parameter or schema, a method, a resource, the
/// `auth` member, its OAuth 2.0 section, a scope's description, a parameter's annotations,
/// or the descriptor itself), one member added whose name is outside the object's known
/// set makes the object fail with `UnexpectedField` at that member, wherever it stands.
pub proof fn lemma_unknown_member_is_rejected_in_any_object(
    s: Shape,
    o: Members,
    i: int,
    k: Seq<char>,
    v: JsonValue,
)
    requires
        first_unknown(o, s) is None,
        !known(s, k),
        0 <= i <= o.len(),
    ensures
        ({
            let j = JsonValue::Object(o.insert(i, (k, v)));
            let f = Fault::UnexpectedField(seq![Step::Key(k)]);
            &&& s == Shape::Descriptor ==> descriptor_spec(j) == Err::<RestDescriptionView, Fault>(f)
            &&& s == Shape::Parameter ==> parameter_spec(j) == Err::<ParameterView, Fault>(f)
            &&& s == Shape::Method ==> method_spec(j) == Err::<MethodView, Fault>(f)
            &&& s == Shape::Resource ==> resource_spec(j) == Err::<ResourceView, Fault>(f)
            &&& s == Shape::Auth ==> auth_spec(j) == Err::<Seq<(Seq<char>, Seq<char>)>, Fault>(f)
            &&& s == Shape::OAuth2 ==> oauth2_spec(j) == Err::<Seq<(Seq<char>, Seq<char>)>, Fault>(f)
            &&& s == Shape::ScopeDescription ==> scope_description_spec(j) == Err::<Seq<char>, Fault>(f)
            &&& s == Shape::Annotations ==> annotations_spec(j) == Err::<AnnotationsView, Fault>(f)
        }),
{
    lemma_first_unknown_insert(o, s, i, k, v);
}

/// An error in the value of one named parameter, after values that all decode, is the
/// error of the whole map, with that name in front of its path.
pub proof fn lemma_parameter_entry_error(m: Members, j: int)
    requires
        0 <= j < m.len(),
        parameter_entries(m.take(j)) is Ok,
        parameter_spec(m[j].1) is Err,
    ensures
        parameter_entries(m) == Err::<Seq<(Seq<char>, ParameterView)>, Fault>(
            nested(parameter_spec(m[j].1)->Err_0, Step::Key(m[j].0)),
        ),
{
    assert(m.take(j + 1).drop_last() =~= m.take(j));
    assert(m.take(j + 1).last() == m[j]);
    lemma_parameter_entries_prefix(m, j + 1);
}

/// An error in the value of one named method, after values that all decode, is the error
/// of the whole map, with that name in front of its path.
pub proof fn lemma_method_entry_error(m: Members, j: int)
    requires
        0 <= j < m.len(),
        method_entries(m.take(j)) is Ok,
        method_spec(m[j].1) is Err,
    ensures
        method_entries(m) == Err::<Seq<(Seq<char>, MethodView)>, Fault>(
            nested(method_spec(m[j].1)->Err_0, Step::Key(m[j].0)),
        ),
{
    assert(m.take(j + 1).drop_last() =~= m.take(j));
    assert(m.take(j + 1).last() == m[j]);
    lemma_method_entries_prefix(m, j + 1);
}

/// An error in one named resource, after resources that all decode, is the error of the
/// whole map, with that name in front of its path.
pub proof fn lemma_resource_entry_error(m: Members, j: int)
    requires
        0 <= j < m.len(),
        resource_entries(m.take(j)) is Ok,
        resource_spec(m[j].1) is Err,
    ensures
        resource_entries(m) == Err::<Seq<(Seq<char>, ResourceView)>, Fault>(
            nested(resource_spec(m[j].1)->Err_0, Step::Key(m[j].0)),
        ),
{
    assert(m.take(j + 1).drop_last() =~= m.take(j));
    assert(m.take(j + 1).last() == m[j]);
    lemma_resource_entries_prefix(m, j + 1);
}

/// An error in the description of one scope, after descriptions that all decode, is the
/// error of the whole map, with the scope in front of its path.
pub proof fn lemma_scope_entry_error(m: Members, j: int)
    requires
        0 <= j < m.len(),
        scope_entries(m.take(j)) is Ok,
        scope_description_spec(m[j].1) is Err,
    ensures
        scope_entries(m) == Err::<Seq<(Seq<char>, Seq<char>)>, Fault>(
            nested(scope_description_spec(m[j].1)->Err_0, Step::Key(m[j].0)),
        ),
{
    assert(m.take(j + 1).drop_last() =~= m.take(j));
    assert(m.take(j + 1).last() == m[j]);
    lemma_scope_entries_prefix(m, j + 1);
}

/// Decoded entries keep the names of the object's members, in order.
pub proof fn lemma_parameter_entries_names(m: Members)
    requires
        parameter_entries(m) is Ok,
    ensures
        entry_names(parameter_entries(m)->Ok_0) == entry_names(m),
    decreases m.len(),
{
    if m.len() > 0 {
        lemma_parameter_entries_names(m.drop_last());
        let prev = parameter_entries(m.drop_last())->Ok_0;
        let r = parameter_entries(m)->Ok_0;
        assert(r == prev.push((m.last().0, parameter_spec(m.last().1)->Ok_0)));
        assert(entry_names(prev).len() == prev.len());
        assert(entry_names(m.drop_last()).len() == m.drop_last().len());
        assert(prev.len() == m.len() - 1);
        assert(entry_names(r).len() == entry_names(m).len());
        assert forall|n: int| 0 <= n < r.len() implies #[trigger] entry_names(r)[n] == entry_names(m)[n] by {
            if n < r.len() - 1 {
                assert(entry_names(prev)[n] == entry_names(m.drop_last())[n]);
            }
        }
        assert(entry_names(r) =~= entry_names(m));
    } else {
        assert(entry_names(parameter_entries(m)->Ok_0) =~= entry_names(m));
    }
}

/// Decoded entries keep the names of the object's members, in order.
pub proof fn lemma_method_entries_names(m: Members)
    requires
        method_entries(m) is Ok,
    ensures
        entry_names(method_entries(m)->Ok_0) == entry_names(m),
    decreases m.len(),
{
    if m.len() > 0 {
        lemma_method_entries_names(m.drop_last());
        let prev = method_entries(m.drop_last())->Ok_0;
        let r = method_entries(m)->Ok_0;
        assert(r == prev.push((m.last().0, method_spec(m.last().1)->Ok_0)));
        assert(entry_names(prev).len() == prev.len());
        assert(entry_names(m.drop_last()).len() == m.drop_last().len());
        assert(prev.len() == m.len() - 1);
        assert(entry_names(r).len() == entry_names(m).len());
        assert forall|n: int| 0 <= n < r.len() implies #[trigger] entry_names(r)[n] == entry_names(m)[n] by {
            if n < r.len() - 1 {
                assert(entry_names(prev)[n] == entry_names(m.drop_last())[n]);
            }
        }
        assert(entry_names(r) =~= entry_names(m));
    } else {
        assert(entry_names(method_entries(m)->Ok_0) =~= entry_names(m));
    }
}

/// Decoded entries keep the names of the object's members, in order.
pub proof fn lemma_resource_entries_names(m: Members)
    requires
        resource_entries(m) is Ok,
    ensures
        entry_names(resource_entries(m)->Ok_0) == entry_names(m),
    decreases m.len(),
{
    if m.len() > 0 {
        lemma_resource_entries_names(m.drop_last());
        let prev = resource_entries(m.drop_last())->Ok_0;
        let r = resource_entries(m)->Ok_0;
        assert(r == prev.push((m.last().0, resource_spec(m.last().1)->Ok_0)));
        assert(entry_names(prev).len() == prev.len());
        assert(entry_names(m.drop_last()).len() == m.drop_last().len());
        assert(prev.len() == m.len() - 1);
        assert(entry_names(r).len() == entry_names(m).len());
        assert forall|n: int| 0 <= n < r.len() implies #[trigger] entry_names(r)[n] == entry_names(m)[n] by {
            if n < r.len() - 1 {
                assert(entry_names(prev)[n] == entry_names(m.drop_last())[n]);
            }
        }
        assert(entry_names(r) =~= entry_names(m));
    } else {
        assert(entry_names(resource_entries(m)->Ok_0) =~= entry_names(m));
    }
}

/// Each map of a descriptor has one entry per name.
pub open spec fn maps_have_distinct_names(d: RestDescriptionView) -> bool {
    &&& entry_names(d.parameters).no_duplicates()
    &&& entry_names(d.schemas).no_duplicates()
    &&& entry_names(d.methods).no_duplicates()
    &&& entry_names(d.resources).no_duplicates()
}

/// A descriptor decoded from a tree in which no object has two members of one name (every
/// tree that serde_json parses) has one entry per name in each of its maps.
pub proof fn lemma_descriptor_maps_have_distinct_names(j: JsonValue)
    requires
        distinct_names(j),
        descriptor_spec(j) is Ok,
    ensures
        maps_have_distinct_names(descriptor_spec(j)->Ok_0),
{
    let o = j->Object_0;
    let d = descriptor_spec(j)->Ok_0;
    let p = member_pos(o, "parameters"@);
    if 0 <= p < o.len() {
        assert(distinct_names(o[p].1));
        lemma_parameter_entries_names(o[p].1->Object_0);
    }
    let q = member_pos(o, "schemas"@);
    if 0 <= q < o.len() {
        assert(distinct_names(o[q].1));
        lemma_parameter_entries_names(o[q].1->Object_0);
    }
    let r = member_pos(o, "methods"@);
    if 0 <= r < o.len() {
        assert(distinct_names(o[r].1));
        lemma_method_entries_names(o[r].1->Object_0);
    }
    let t = member_pos(o, "resources"@);
    if 0 <= t < o.len() {
        assert(distinct_names(o[t].1));
        lemma_resource_entries_names(o[t].1->Object_0);
    }
    assert(entry_names(Seq::<(Seq<char>, ParameterView)>::empty()) =~= Seq::<Seq<char>>::empty());
    assert(entry_names(Seq::<(Seq<char>, MethodView)>::empty()) =~= Seq::<Seq<char>>::empty());
    assert(entry_names(Seq::<(Seq<char>, ResourceView)>::empty()) =~= Seq::<Seq<char>>::empty());
}

/// The message of a [`Error::JsonError`] from [`from_str`].
pub const DESCRIPTOR_PARSE_MESSAGE: &'static str = "couldn't parse service descriptor";

/// What decoding the text `t` as a descriptor may give: the document that the text decodes to,
/// or the error that says why it does not, together with the text itself.
pub open spec fn descriptor_outcome(t: Seq<char>, r: Result<RestDescription, Error>) -> bool {
    match r {
        Ok(d) => descriptor_from_text(t) == Ok::<RestDescriptionView, Fault>(d@),
        Err(Error::JsonError { message, json, source }) => {
            &&& descriptor_from_text(t) == Err::<RestDescriptionView, Fault>(source@)
            &&& json@ == t
            &&& message@ == DESCRIPTOR_PARSE_MESSAGE@
        },
        Err(_) => false,
    }
}

/// The model of what decoding gives.
pub open spec fn descriptor_outcome_view(r: Result<RestDescription, Error>) -> Result<RestDescriptionView, ErrorView> {
    match r {
        Ok(d) => Ok(d@),
        Err(e) => Err(e@),
    }
}

/// Decoding is a function of the text: two decodings of the same text give equal results.
pub proof fn lemma_descriptor_decoding_is_deterministic(t: Seq<char>, a: Result<RestDescription, Error>, b: Result<RestDescription, Error>)
    requires
        descriptor_outcome(t, a),
        descriptor_outcome(t, b),
    ensures
        descriptor_outcome_view(a) == descriptor_outcome_view(b),
{
}

/// Decodes the body of a descriptor response. On failure the error keeps the body.
pub fn from_str(response: String) -> (r: Result<RestDescription, Error>)
    ensures
        descriptor_outcome(response@, r),
        r is Ok ==> maps_have_distinct_names(r->Ok_0@),
{
    let parsed = parse_json(response.as_str());
    proof {
        if parsed is Some && descriptor_spec(parsed->Some_0@) is Ok {
            lemma_descriptor_maps_have_distinct_names(parsed->Some_0@);
        }
    }
    match decode_descriptor_text(parsed) {
        Ok(d) => Ok(d),
        Err(source) => Err(
            Error::JsonError {
                message: DESCRIPTOR_PARSE_MESSAGE.to_owned(),
                json: response,
                source,
            },
        ),
    }
}

/// The request for the descriptor at `discovery_rest_url`: the URL as given, with no
/// query parameters.
pub fn url_request(discovery_rest_url: &str) -> (r: Request)
    ensures
        r.url@ == discovery_rest_url@,
        r.query@.len() == 0,
{
    Request { url: discovery_rest_url.to_owned(), query: Vec::new() }
}

/// The request for the descriptor of `item`.
pub fn item_request(item: &DirectoryItem) -> (r: Request)
    ensures
        r.url@ == item.discovery_rest_url@,
        r.query@.len() == 0,
{
    url_request(item.discovery_rest_url.as_str())
}

} // verus!
