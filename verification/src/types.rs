//! Data types of endpoints, requests, responses and UI modes.
use vstd::prelude::*;
use crate::strmap::{lookup, StringMap};

verus! {

/// A parameter of an operation, as the specification describes it.
#[derive(Debug)]
pub struct Parameter {
    pub name: String,
    /// Where the parameter goes: "query", "path", "header", ...
    pub location: String,
    pub required: Option<bool>,
    pub schema: Option<ParameterSchema>,
    pub description: Option<String>,
}

/// The schema of a parameter.
#[derive(Debug)]
pub struct ParameterSchema {
    /// "string", "integer", "boolean", ...
    pub param_type: Option<String>,
    /// "int32", "int64", "date-time", ...
    pub format: Option<String>,
    pub default: Option<DefaultValue>,
}

/// A default value of a parameter: a JSON string, or any other JSON value
/// as its compact JSON text.
#[derive(Debug)]
pub enum DefaultValue {
    Text(String),
    Json(String),
}

impl Clone for DefaultValue {
    fn clone(&self) -> (r: Self)
        ensures
            r == *self,
    {
        match self {
            DefaultValue::Text(s) => DefaultValue::Text(s.clone()),
            DefaultValue::Json(s) => DefaultValue::Json(s.clone()),
        }
    }
}

impl Clone for ParameterSchema {
    fn clone(&self) -> (r: Self)
        ensures
            r == *self,
    {
        ParameterSchema {
            param_type: self.param_type.clone(),
            format: self.format.clone(),
            default: self.default.clone(),
        }
    }
}

impl Clone for Parameter {
    fn clone(&self) -> (r: Self)
        ensures
            r == *self,
    {
        Parameter {
            name: self.name.clone(),
            location: self.location.clone(),
            required: self.required,
            schema: self.schema.clone(),
            description: self.description.clone(),
        }
    }
}

/// An operation of the specification: a method on a path.
#[derive(Debug)]
pub struct ApiEndpoint {
    pub method: String,
    pub path: String,
    pub summary: Option<String>,
    pub tags: Vec<String>,
    pub parameters: Vec<Parameter>,
}

/// The abstract value of an endpoint.
pub struct EndpointView {
    pub method: Seq<char>,
    pub path: Seq<char>,
    pub summary: Option<Seq<char>>,
    pub tags: Seq<String>,
    pub parameters: Seq<Parameter>,
}

impl View for ApiEndpoint {
    type V = EndpointView;

    open spec fn view(&self) -> EndpointView {
        EndpointView {
            method: self.method@,
            path: self.path@,
            summary: opt_view(self.summary),
            tags: self.tags@,
            parameters: self.parameters@,
        }
    }
}

pub fn clone_strings(v: &Vec<String>) -> (r: Vec<String>)
    ensures
        r@ == v@,
{
    let r = v.clone();
    assert(r@ =~= v@);
    r
}

pub fn clone_parameters(v: &Vec<Parameter>) -> (r: Vec<Parameter>)
    ensures
        r@ == v@,
{
    let r = v.clone();
    assert(r@ =~= v@);
    r
}

impl Clone for ApiEndpoint {
    fn clone(&self) -> (r: Self)
        ensures
            r@ == self@,
    {
        ApiEndpoint {
            method: self.method.clone(),
            path: self.path.clone(),
            summary: self.summary.clone(),
            tags: clone_strings(&self.tags),
            parameters: clone_parameters(&self.parameters),
        }
    }
}

/// The text of an optional string.
pub open spec fn opt_view(o: Option<String>) -> Option<Seq<char>> {
    match o {
        Some(s) => Some(s@),
        None => None,
    }
}

/// The views of a list of endpoints.
pub open spec fn endpoint_views(v: Seq<ApiEndpoint>) -> Seq<EndpointView> {
    v.map_values(|e: ApiEndpoint| e@)
}

/// A copy of a list of endpoints.
pub fn clone_endpoints(v: &Vec<ApiEndpoint>) -> (r: Vec<ApiEndpoint>)
    ensures
        endpoint_views(r@) == endpoint_views(v@),
{
    let mut r: Vec<ApiEndpoint> = Vec::new();
    let mut i: usize = 0;
    while i < v.len()
        invariant
            i <= v@.len(),
            endpoint_views(r@) == endpoint_views(v@).take(i as int),
        decreases v@.len() - i,
    {
        let ghost before = r@;
        r.push(v[i].clone());
        assert(endpoint_views(r@) =~= endpoint_views(before).push(v@[i as int]@));
        i = i + 1;
        assert(endpoint_views(v@).take(i as int) =~= endpoint_views(v@).take(i - 1).push(
            v@[i - 1]@,
        ));
    }
    assert(endpoint_views(v@).take(i as int) =~= endpoint_views(v@));
    r
}

/// The parameters of `params` whose location is `loc`, in order.
pub open spec fn params_at(params: Seq<Parameter>, loc: Seq<char>) -> Seq<Parameter> {
    params.filter(|p: Parameter| p.location@ == loc)
}

/// Parameters at two different locations are never more than all of them.
pub proof fn lemma_params_at_two_len(params: Seq<Parameter>, a: Seq<char>, b: Seq<char>)
    requires
        a != b,
    ensures
        params_at(params, a).len() + params_at(params, b).len() <= params.len(),
    decreases params.len(),
{
    reveal_with_fuel(Seq::filter, 1);
    if params.len() > 0 {
        lemma_params_at_two_len(params.drop_last(), a, b);
    }
}

/// Whether a configuration holds a non-empty value for a path parameter.
pub open spec fn has_value(config: ConfigView, name: Seq<char>) -> bool {
    match lookup(config.path_params, name) {
        Some(v) => v.len() > 0,
        None => false,
    }
}

/// Names of the path parameters of `params` that have no non-empty value in `config`.
pub open spec fn missing_names(params: Seq<Parameter>, config: ConfigView) -> Seq<Seq<char>> {
    params_at(params, "path"@).filter(|p: Parameter| !has_value(config, p.name@)).map_values(
        |p: Parameter| p.name@,
    )
}

/// `s` in upper case, as `str::to_uppercase` gives it.
pub uninterp spec fn upper(s: Seq<char>) -> Seq<char>;

/// `s` in lower case, as `str::to_lowercase` gives it.
pub uninterp spec fn lower(s: Seq<char>) -> Seq<char>;

/// Calls `str::to_uppercase`; the contract claims the result is the text
/// that `upper` names (Unicode case mapping, independent of locale).
#[verifier::external_body]
pub(crate) fn to_uppercase(s: &str) -> (r: String)
    ensures
        r@ == upper(s@),
{
    s.to_uppercase()
}

/// Calls `str::to_lowercase`; the contract claims the result is the text
/// that `lower` names (Unicode case mapping, independent of locale).
#[verifier::external_body]
pub(crate) fn to_lowercase(s: &str) -> (r: String)
    ensures
        r@ == lower(s@),
{
    s.to_lowercase()
}

/// Methods that carry a request body.
pub open spec fn is_body_method(m: Seq<char>) -> bool {
    m == "POST"@ || m == "PUT"@ || m == "PATCH"@
}

impl ApiEndpoint {
    fn params_with_location(&self, loc: &str) -> (r: Vec<&Parameter>)
        ensures
            r@.map_values(|p: &Parameter| *p) == params_at(self.parameters@, loc@),
    {
        let mut r: Vec<&Parameter> = Vec::new();
        let mut i: usize = 0;
        while i < self.parameters.len()
            invariant
                i <= self.parameters@.len(),
                r@.map_values(|p: &Parameter| *p) == params_at(self.parameters@.take(i as int), loc@),
            decreases self.parameters@.len() - i,
        {
            let ghost before = r@;
            let p = &self.parameters[i];
            assert(self.parameters@.take(i + 1).drop_last() =~= self.parameters@.take(i as int));
            reveal_with_fuel(Seq::filter, 1);
            if crate::text::str_eq(p.location.as_str(), loc) {
                r.push(p);
                assert(r@.map_values(|p: &Parameter| *p) =~= before.map_values(|p: &Parameter| *p).push(*p));
            }
            i = i + 1;
        }
        assert(self.parameters@.take(i as int) =~= self.parameters@);
        r
    }

    /// The path parameters, in order.
    pub fn path_params(&self) -> (r: Vec<&Parameter>)
        ensures
            r@.map_values(|p: &Parameter| *p) == params_at(self.parameters@, "path"@),
    {
        self.params_with_location("path")
    }

    /// The query parameters, in order.
    pub fn query_params(&self) -> (r: Vec<&Parameter>)
        ensures
            r@.map_values(|p: &Parameter| *p) == params_at(self.parameters@, "query"@),
    {
        self.params_with_location("query")
    }

    /// Whether every path parameter has a non-empty value in `config`.
    pub fn has_all_required_path_params(&self, config: &RequestConfig) -> (r: bool)
        ensures
            r == forall|i: int|
                0 <= i < params_at(self.parameters@, "path"@).len() ==> has_value(
                    config@,
                    #[trigger] params_at(self.parameters@, "path"@)[i].name@,
                ),
    {
        let ps = self.path_params();
        let ghost q = ps@.map_values(|p: &Parameter| *p);
        let mut i: usize = 0;
        while i < ps.len()
            invariant
                q == params_at(self.parameters@, "path"@),
                q == ps@.map_values(|p: &Parameter| *p),
                q.len() == ps@.len(),
                i <= ps@.len(),
                forall|j: int| 0 <= j < i ==> has_value(config@, #[trigger] q[j].name@),
            decreases ps@.len() - i,
        {
            assert(q[i as int] == *ps@[i as int]);
            let ok = match config.path_params.get(ps[i].name.as_str()) {
                Some(v) => !v.as_str().is_empty(),
                None => false,
            };
            if !ok {
                return false;
            }
            i = i + 1;
        }
        true
    }

    /// Names of the path parameters without a non-empty value in `config`, in order.
    pub fn missing_path_params(&self, config: &RequestConfig) -> (r: Vec<String>)
        ensures
            r@.map_values(|s: String| s@) == missing_names(self.parameters@, config@),
    {
        let ps = self.path_params();
        let ghost q = ps@.map_values(|p: &Parameter| *p);
        let ghost keep = |p: Parameter| !has_value(config@, p.name@);
        let mut r: Vec<String> = Vec::new();
        let mut i: usize = 0;
        while i < ps.len()
            invariant
                q == params_at(self.parameters@, "path"@),
                q == ps@.map_values(|p: &Parameter| *p),
                q.len() == ps@.len(),
                i <= ps@.len(),
                keep == (|p: Parameter| !has_value(config@, p.name@)),
                r@.map_values(|s: String| s@) == q.take(i as int).filter(keep).map_values(
                    |p: Parameter| p.name@,
                ),
            decreases ps@.len() - i,
        {
            assert(q[i as int] == *ps@[i as int]);
            assert(q.take(i + 1).drop_last() =~= q.take(i as int));
            reveal_with_fuel(Seq::filter, 1);
            let missing = match config.path_params.get(ps[i].name.as_str()) {
                Some(v) => v.as_str().is_empty(),
                None => true,
            };
            let ghost before = r@;
            if missing {
                r.push(ps[i].name.clone());
                assert(r@.map_values(|s: String| s@) =~= before.map_values(|s: String| s@).push(
                    q[i as int].name@,
                ));
                assert(q.take(i + 1).filter(keep) =~= q.take(i as int).filter(keep).push(q[i as int]));
                assert(q.take(i + 1).filter(keep).map_values(|p: Parameter| p.name@) =~= q.take(
                    i as int,
                ).filter(keep).map_values(|p: Parameter| p.name@).push(q[i as int].name@));
            } else {
                assert(q.take(i + 1).filter(keep) =~= q.take(i as int).filter(keep));
            }
            i = i + 1;
        }
        assert(q.take(i as int) =~= q);
        r
    }

    /// Whether the method carries a request body (POST, PUT or PATCH, in any case).
    pub fn supports_body(&self) -> (r: bool)
        ensures
            r == is_body_method(upper(self.method@)),
    {
        let m = to_uppercase(self.method.as_str());
        crate::text::str_eq(m.as_str(), "POST") || crate::text::str_eq(m.as_str(), "PUT")
            || crate::text::str_eq(m.as_str(), "PATCH")
    }
}

/// Parameter values chosen for one endpoint.
#[derive(Debug)]
pub struct RequestConfig {
    pub query_params: StringMap,
    pub path_params: StringMap,
    pub body: Option<String>,
}

/// The abstract value of a request configuration.
pub struct ConfigView {
    pub query_params: crate::strmap::Entries,
    pub path_params: crate::strmap::Entries,
    pub body: Option<String>,
}

impl View for RequestConfig {
    type V = ConfigView;

    open spec fn view(&self) -> ConfigView {
        ConfigView {
            query_params: self.query_params@,
            path_params: self.path_params@,
            body: self.body,
        }
    }
}

impl Clone for RequestConfig {
    fn clone(&self) -> (r: Self)
        ensures
            r@ == self@,
    {
        RequestConfig {
            query_params: self.query_params.clone(),
            path_params: self.path_params.clone(),
            body: self.body.clone(),
        }
    }
}

impl RequestConfig {
    /// An empty configuration.
    pub fn default() -> (r: Self)
        ensures
            r@ == (ConfigView { query_params: Seq::empty(), path_params: Seq::empty(), body: None }),
    {
        RequestConfig { query_params: StringMap::new(), path_params: StringMap::new(), body: None }
    }

    /// The value of a parameter: from the path parameters, else from the query parameters.
    pub fn get_param_value(&self, name: &str) -> (r: Option<&str>)
        ensures
            match lookup(self@.path_params, name@) {
                Some(v) => r matches Some(s) && s@ == v,
                None => match lookup(self@.query_params, name@) {
                    Some(v) => r matches Some(s) && s@ == v,
                    None => r is None,
                },
            },
    {
        match self.path_params.get(name) {
            Some(v) => Some(v.as_str()),
            None => match self.query_params.get(name) {
                Some(v) => Some(v.as_str()),
                None => None,
            },
        }
    }
}

/// An HTTP response, or a failure to get one.
#[derive(Debug)]
pub struct ApiResponse {
    /// HTTP status code (0 when no response came).
    pub status: u16,
    /// Reason phrase of the status.
    pub status_text: String,
    /// Response headers, names in lower case.
    pub headers: StringMap,
    /// Raw response body.
    pub body: String,
    /// How long the request took, in milliseconds.
    pub duration_ms: u64,
    /// True when no HTTP response came (network failure, refused request, ...).
    pub is_error: bool,
    /// What went wrong, when `is_error` holds.
    pub error_message: Option<String>,
}

impl ApiResponse {
    /// A response that records a failure with the given message.
    pub fn error(error_message: String) -> (r: Self)
        ensures
            r.status == 0,
            r.status_text@.len() == 0,
            r.headers@.len() == 0,
            r.body@.len() == 0,
            r.duration_ms == 0,
            r.is_error,
            r.error_message == Some(error_message),
    {
        ApiResponse {
            status: 0,
            status_text: String::new(),
            headers: StringMap::new(),
            body: String::new(),
            duration_ms: 0,
            is_error: true,
            error_message: Some(error_message),
        }
    }
}

/// How the endpoint list is shown.
#[derive(Debug, Clone, Copy, PartialEq, Eq, Structural)]
pub enum ViewMode {
    Flat,
    Grouped,
}

/// Progress of loading the specification.
#[derive(Debug)]
pub enum LoadingState {
    Idle,
    Fetching,
    Parsing,
    Complete,
    Error(String),
}

/// One row of the grouped endpoint list.
#[derive(Debug)]
pub enum RenderItem {
    GroupHeader { name: String, count: usize, expanded: bool },
    Endpoint { endpoint: ApiEndpoint },
}

/// Which input the keyboard goes to.
#[derive(Debug, Clone, Copy, PartialEq, Eq, Structural)]
pub enum InputMode {
    Normal,
    EnteringToken,
    ConfirmClearToken,
    EnteringUrl,
    Searching,
    EnteringBody,
}

/// The field of the URL dialog that has focus.
#[derive(Debug, Clone, Copy, PartialEq, Eq, Structural)]
pub enum UrlInputField {
    SwaggerUrl,
    BaseUrl,
}

/// URLs entered in the URL dialog.
#[derive(Debug)]
pub struct UrlSubmission {
    pub swagger_url: String,
    pub base_url: Option<String>,
}

/// Which main panel has focus.
#[derive(Debug, Clone, Copy, PartialEq, Eq, Structural)]
pub enum PanelFocus {
    EndpointsList,
    Details,
}

/// Which tab of the details panel is shown.
#[derive(Debug, Clone, Copy, PartialEq, Eq, Structural)]
pub enum DetailTab {
    Endpoint,
    Request,
    Headers,
    Response,
}

/// Whether a parameter of the Request tab is being edited, and which.
#[derive(Debug)]
pub enum RequestEditMode {
    Viewing,
    Editing(String),
}

impl Clone for RequestEditMode {
    fn clone(&self) -> (r: Self)
        ensures
            r == *self,
    {
        match self {
            RequestEditMode::Viewing => RequestEditMode::Viewing,
            RequestEditMode::Editing(s) => RequestEditMode::Editing(s.clone()),
        }
    }
}

/// The part of an OpenAPI document that is read: the operations of each path.
#[derive(Debug)]
pub struct SwaggerSpec {
    /// Paths with their operations, in document order.
    pub paths: Vec<(String, PathItem)>,
}

/// The operations of one path.
#[derive(Debug)]
pub struct PathItem {
    pub get: Option<Operation>,
    pub post: Option<Operation>,
    pub put: Option<Operation>,
    pub delete: Option<Operation>,
    pub patch: Option<Operation>,
}

/// One operation.
#[derive(Debug)]
pub struct Operation {
    pub summary: Option<String>,
    pub tags: Option<Vec<String>>,
    pub parameters: Option<Vec<Parameter>>,
}

} // verus!
