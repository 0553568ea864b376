//! Running requests: whether an endpoint can run, what Space does on the
//! list, what a request is made of, and how its outcome is recorded.
use vstd::prelude::*;
use crate::actions::apply_action;
use crate::actions::AppAction;
use crate::request::{build_url_with_params, full_url_text, non_empty};
use crate::state::{
    count_visible_items, index_of_key, lemma_index_of_key, selected_endpoint, shown_rows,
    string_set, visible_count, AppState, RequestState, UiState, DataState,
};
use crate::strmap::{insert_entry, Entries, StringMap};
use crate::text::{chars_of, join, push_all, push_joined, string_from_chars};
use crate::types::{
    lower, missing_names, params_at, to_lowercase, to_uppercase, upper, ApiEndpoint,
    ApiResponse, ConfigView, EndpointView, LoadingState, Parameter, RenderItem, RequestConfig,
    ViewMode, };

verus! {

/// The names of the path parameters of `e`, in order.
pub open spec fn path_param_names(e: EndpointView) -> Seq<Seq<char>> {
    params_at(e.parameters, "path"@).map_values(|p: Parameter| p.name@)
}

/// Whether the endpoint can run with the configuration `config`: always when
/// it has no path parameter; otherwise the configuration must give each path
/// parameter a non-empty value. The error lists the parameters to fill in.
pub open spec fn execute_check(e: EndpointView, config: Option<ConfigView>) -> Result<(), Seq<char>> {
    if params_at(e.parameters, "path"@).len() == 0 {
        Ok(())
    } else {
        match config {
            None => Err("Please configure path parameter(s): "@ + join(path_param_names(e), ", "@)),
            Some(c) => if missing_names(e.parameters, c).len() == 0 {
                Ok(())
            } else {
                Err("Missing required path parameter(s): "@ + join(missing_names(e.parameters, c), ", "@))
            },
        }
    }
}

/// Decides `execute_check` for `endpoint` and `config`.
pub fn can_execute_endpoint(endpoint: &ApiEndpoint, config: Option<&RequestConfig>) -> (r: Result<(), String>)
    ensures
        match execute_check(endpoint@, match config { Some(c) => Some(c@), None => None }) {
            Ok(()) => r is Ok,
            Err(m) => r matches Err(x) && x@ == m,
        },
{
    let path_params = endpoint.path_params();
    let ghost pp = params_at(endpoint.parameters@, "path"@);
    assert(path_params@.len() == path_params@.map_values(|p: &Parameter| *p).len());
    if path_params.len() == 0 {
        return Ok(());
    }
    match config {
        None => {
            let mut names: Vec<String> = Vec::new();
            let mut i: usize = 0;
            while i < path_params.len()
                invariant
                    pp == path_params@.map_values(|p: &Parameter| *p),
                    i <= path_params@.len(),
                    names@.map_values(|s: String| s@) == pp.take(i as int).map_values(|p: Parameter| p.name@),
                decreases path_params@.len() - i,
            {
                assert(*path_params@[i as int] == pp[i as int]);
                let ghost before = names@;
                names.push(path_params[i].name.clone());
                assert(pp.take(i + 1) =~= pp.take(i as int).push(pp[i as int]));
                assert(names@.map_values(|s: String| s@) =~= before.map_values(|s: String| s@).push(pp[i as int].name@));
                i = i + 1;
                assert(names@.map_values(|s: String| s@) =~= pp.take(i as int).map_values(|p: Parameter| p.name@));
            }
            assert(pp.take(i as int) =~= pp);
            let mut m = chars_of("Please configure path parameter(s): ");
            push_joined(&mut m, names.as_slice(), ", ");
            Err(string_from_chars(m.as_slice()))
        },
        Some(c) => {
            let missing = endpoint.missing_path_params(c);
            assert(missing@.len() == missing@.map_values(|s: String| s@).len());
            if missing.len() == 0 {
                Ok(())
            } else {
                let mut m = chars_of("Missing required path parameter(s): ");
                push_joined(&mut m, missing.as_slice(), ", ");
                Err(string_from_chars(m.as_slice()))
            }
        },
    }
}

/// The configuration stored for `path`, if any.
pub open spec fn config_of(s: AppState, path: Seq<char>) -> Option<ConfigView> {
    let cs = s.request.configs@;
    let i = index_of_key(cs, path);
    if i < cs.len() {
        Some(cs[i].1)
    } else {
        None
    }
}

/// Whether the request of the endpoint at `path` is running.
pub open spec fn is_executing(s: AppState, path: Seq<char>) -> bool {
    s.request.executing_endpoint matches Some(p) && p@ == path
}

/// `pre` with the failure `m` recorded as the current response.
pub open spec fn with_error_response(pre: AppState, post: AppState, m: Seq<char>) -> bool {
    &&& post.data == pre.data && post.ui == pre.ui && post.input == pre.input && post.search == pre.search
    &&& post.request == RequestState { current_response: post.request.current_response, ..pre.request }
    &&& post.request.current_response matches Some(r)
    &&& post.request.current_response->Some_0.is_error
    &&& post.request.current_response->Some_0.status == 0
    &&& post.request.current_response->Some_0.error_message matches Some(x)
    &&& post.request.current_response->Some_0.error_message->Some_0@ == m
    &&& post.request.current_response->Some_0.body@.len() == 0
    &&& post.request.current_response->Some_0.headers@.len() == 0
    &&& post.request.current_response->Some_0.status_text@.len() == 0
    &&& post.request.current_response->Some_0.duration_ms == 0
}

/// The selection once the list has `n` rows: unchanged while on a row,
/// else the last row (0 for an empty list).
pub open spec fn clamp_selection(sel: int, n: int) -> int {
    if sel >= n {
        if n > 0 {
            n - 1
        } else {
            0
        }
    } else {
        sel
    }
}

/// Space on the endpoint list. On an endpoint (of the flat list, or a row of
/// the grouped list): with a base URL, unless its request is already
/// running, it is checked (`execute_check`); a failure is recorded as the
/// response, a success hands the endpoint back to be run. On a group header:
/// the group is expanded or collapsed and the selection kept within the list.
pub open spec fn enter_effect(
    pre: AppState,
    post: AppState,
    old_sel: usize,
    new_sel: usize,
    has_base_url: bool,
    run: Option<ApiEndpoint>,
) -> bool {
    let sel = old_sel as int;
    match selected_endpoint(pre, sel) {
        Some(e) => {
            &&& new_sel == old_sel
            &&& if !has_base_url || is_executing(pre, e.path) {
                run is None && post == pre
            } else {
                match execute_check(e, config_of(pre, e.path)) {
                    Ok(()) => post == pre && (run matches Some(x) && x@ == e),
                    Err(m) => run is None && with_error_response(pre, post, m),
                }
            }
        },
        None => {
            &&& run is None
            &&& if pre.ui.view_mode is Grouped && 0 <= sel < shown_rows(pre).len()
                && shown_rows(pre)[sel] is Header {
                let name = shown_rows(pre)[sel]->Header_name;
                &&& post.data == pre.data && post.input == pre.input
                &&& post.request == pre.request && post.search == pre.search
                &&& post.ui == UiState { expanded_groups: post.ui.expanded_groups, ..pre.ui }
                &&& string_set(post.ui.expanded_groups@) == if string_set(pre.ui.expanded_groups@).contains(name) {
                    string_set(pre.ui.expanded_groups@).remove(name)
                } else {
                    string_set(pre.ui.expanded_groups@).insert(name)
                }
                &&& new_sel as int == clamp_selection(
                    sel,
                    if visible_count(post) <= usize::MAX { visible_count(post) } else { usize::MAX as int },
                )
            } else {
                post == pre && new_sel == old_sel
            }
        },
    }
}

/// Space on the endpoint list (see `enter_effect`); returns the endpoint to run, if any.
pub fn handle_enter(selected_index: &mut usize, state: &mut AppState, has_base_url: bool) -> (run: Option<ApiEndpoint>)
    requires
        old(state).wf(),
    ensures
        final(state).wf(),
        enter_effect(*old(state), *final(state), *old(selected_index), *final(selected_index), has_base_url, run),
{
    let ghost sel = *selected_index as int;
    match state.get_selected_endpoint(*selected_index) {
        Some(endpoint) => {
            if !has_base_url {
                return None;
            }
            let running = match &state.request.executing_endpoint {
                Some(p) => crate::text::str_eq(p.as_str(), endpoint.path.as_str()),
                None => false,
            };
            if running {
                return None;
            }
            proof {
                lemma_index_of_key(state.request.configs@, endpoint.path@);
            }
            let checked = can_execute_endpoint(&endpoint, state.request.configs.get(endpoint.path.as_str()));
            match checked {
                Ok(()) => Some(endpoint),
                Err(m) => {
                    apply_action(AppAction::SetErrorResponse(m), state);
                    None
                },
            }
        },
        None => {
            if matches!(state.ui.view_mode, ViewMode::Flat) {
                return None;
            }
            let items = state.get_render_items();
            if *selected_index >= items.len() {
                return None;
            }
            assert(crate::state::row_views(items@)[sel] == items@[sel].row_view());
            let name = match &items[*selected_index] {
                RenderItem::GroupHeader { name, .. } => name.clone(),
                RenderItem::Endpoint { .. } => {
                    return None;
                },
            };
            apply_action(AppAction::ToggleGroupExpanded(name), state);
            let visible = count_visible_items(state);
            if *selected_index >= visible {
                *selected_index = if visible > 0 {
                    visible - 1
                } else {
                    0
                };
            }
            None
        },
    }
}

/// Ctrl+R: after a failed load, one more attempt is counted and the
/// specification is to be fetched again; nothing happens otherwise.
pub open spec fn retry_effect(pre: AppState, post: AppState, fetch: bool) -> bool {
    &&& fetch == (pre.data.loading_state is Error)
    &&& fetch ==> post == (AppState {
        data: DataState { retry_count: (pre.data.retry_count + 1) as u32, ..pre.data },
        ..pre
    })
    &&& !fetch ==> post == pre
}

/// Handles Ctrl+R (see `retry_effect`); returns whether to fetch again.
pub fn handle_retry(state: &mut AppState) -> (fetch: bool)
    requires
        old(state).data.loading_state is Error ==> old(state).data.retry_count < u32::MAX,
    ensures
        retry_effect(*old(state), *final(state), fetch),
{
    if matches!(state.data.loading_state, LoadingState::Error(_)) {
        state.data.retry_count = state.data.retry_count + 1;
        true
    } else {
        false
    }
}

/// HTTP methods a request is sent with.
#[derive(Debug, Clone, Copy, PartialEq, Eq, Structural)]
pub enum HttpMethod {
    Get,
    Post,
    Put,
    Patch,
    Delete,
}

/// The method for an (upper-case) method name; unknown names give `Get`.
pub open spec fn method_named(m: Seq<char>) -> HttpMethod {
    if m == "POST"@ {
        HttpMethod::Post
    } else if m == "PUT"@ {
        HttpMethod::Put
    } else if m == "PATCH"@ {
        HttpMethod::Patch
    } else if m == "DELETE"@ {
        HttpMethod::Delete
    } else {
        HttpMethod::Get
    }
}

/// Law: each of the five method names is read as the method of that name,
/// and a method other than GET is read only from its own name (anything
/// else is read as GET).
pub proof fn law_method_names(m: Seq<char>)
    ensures
        method_named("GET"@) == HttpMethod::Get,
        method_named("POST"@) == HttpMethod::Post,
        method_named("PUT"@) == HttpMethod::Put,
        method_named("PATCH"@) == HttpMethod::Patch,
        method_named("DELETE"@) == HttpMethod::Delete,
        method_named(m) == HttpMethod::Post ==> m == "POST"@,
        method_named(m) == HttpMethod::Put ==> m == "PUT"@,
        method_named(m) == HttpMethod::Patch ==> m == "PATCH"@,
        method_named(m) == HttpMethod::Delete ==> m == "DELETE"@,
        m != "POST"@ && m != "PUT"@ && m != "PATCH"@ && m != "DELETE"@ ==> method_named(m) == HttpMethod::Get,
{
    reveal_strlit("GET");
    reveal_strlit("POST");
    reveal_strlit("PUT");
    reveal_strlit("PATCH");
    reveal_strlit("DELETE");
    assert("GET"@[0] != "POST"@[0] && "GET"@[0] != "PUT"@[0] && "GET"@[0] != "PATCH"@[0]
        && "GET"@[0] != "DELETE"@[0]);
    assert("PUT"@[1] != "POST"@[1]);
    assert("PATCH"@.len() != "POST"@.len() && "PATCH"@.len() != "PUT"@.len());
}

/// The method of an endpoint: its method name in upper case (see `method_named`).
pub fn http_method(method: &str) -> (r: HttpMethod)
    ensures
        r == method_named(upper(method@)),
{
    let u = to_uppercase(method);
    if crate::text::str_eq(u.as_str(), "POST") {
        HttpMethod::Post
    } else if crate::text::str_eq(u.as_str(), "PUT") {
        HttpMethod::Put
    } else if crate::text::str_eq(u.as_str(), "PATCH") {
        HttpMethod::Patch
    } else if crate::text::str_eq(u.as_str(), "DELETE") {
        HttpMethod::Delete
    } else {
        HttpMethod::Get
    }
}

/// Whether requests with this method carry a JSON body (`{}`, with
/// `Content-Type: application/json`): POST, PUT and PATCH.
pub open spec fn carries_body(m: HttpMethod) -> bool {
    m is Post || m is Put || m is Patch
}

/// A request ready to be sent.
#[derive(Debug)]
pub struct RequestPlan {
    pub url: String,
    pub method: HttpMethod,
    /// Sends `{}` as a JSON body.
    pub json_body: bool,
    /// Bearer token to authenticate with.
    pub bearer_token: Option<String>,
}

/// The parameters of the configuration stored for `path` (none when there is none).
pub open spec fn params_of(s: AppState, path: Seq<char>) -> (Entries, Entries) {
    match config_of(s, path) {
        Some(c) => (c.path_params, c.query_params),
        None => (seq![], seq![]),
    }
}

/// Starts the request of `endpoint`: marks it running and clears the last
/// response, then builds its URL from `base_url` and the endpoint's stored
/// parameters (`build_url_with_params`). When the URL cannot be built, the
/// request stops there: it is no longer running and the response records
/// `"Failed to build URL: "` followed by the error.
pub fn begin_request(state: &mut AppState, endpoint: &ApiEndpoint, base_url: &str) -> (r: Result<RequestPlan, String>)
    requires
        old(state).wf(),
    ensures
        final(state).wf(),
        ({
            let pre = *old(state);
            let post = *final(state);
            let (pp, qp) = params_of(pre, endpoint.path@);
            let full = full_url_text(base_url@, endpoint.path@, pp);
            &&& post.data == pre.data && post.ui == pre.ui && post.input == pre.input && post.search == pre.search
            &&& (r is Ok) == (crate::request::url_serialization(full) is Some)
            &&& match r {
                Ok(plan) => {
                    &&& post.request == RequestState {
                        executing_endpoint: post.request.executing_endpoint,
                        current_response: None,
                        ..pre.request
                    }
                    &&& post.request.executing_endpoint matches Some(x) && x@ == endpoint.path@
                    &&& Some(plan.url@) == if non_empty(qp).len() == 0 {
                        crate::request::url_serialization(full)
                    } else {
                        crate::request::url_serialization_with_query(full, non_empty(qp))
                    }
                    &&& plan.method == method_named(upper(endpoint.method@))
                    &&& plan.json_body == carries_body(plan.method)
                    &&& plan.bearer_token == pre.request.auth.token
                },
                Err(m) => {
                    &&& post.request == RequestState {
                        executing_endpoint: None,
                        current_response: post.request.current_response,
                        ..pre.request
                    }
                    &&& post.request.current_response matches Some(resp) && resp.is_error
                        && resp.status == 0 && resp.error_message == Some(m)
                    &&& crate::request::url_parse_result(full) matches Err(e)
                        && m@ == "Failed to build URL: "@ + ("Invalid URL: "@ + crate::request::url_error_text(e))
                },
            }
        }),
{
    let ghost pre = *state;
    state.request.executing_endpoint = Some(endpoint.path.clone());
    state.request.current_response = None;
    proof {
        lemma_index_of_key(state.request.configs@, endpoint.path@);
    }
    let (path_params, query_params) = match state.request.configs.get(endpoint.path.as_str()) {
        Some(c) => (c.path_params.clone(), c.query_params.clone()),
        None => (StringMap::new(), StringMap::new()),
    };
    match build_url_with_params(base_url, endpoint.path.as_str(), &path_params, &query_params) {
        Ok(url) => {
            let method = http_method(endpoint.method.as_str());
            let json_body = match method {
                HttpMethod::Post | HttpMethod::Put | HttpMethod::Patch => true,
                _ => false,
            };
            let bearer_token = match &state.request.auth.token {
                Some(t) => Some(t.clone()),
                None => None,
            };
            Ok(RequestPlan { url, method, json_body, bearer_token })
        },
        Err(e) => {
            let mut m = chars_of("Failed to build URL: ");
            let ec = chars_of(e.as_str());
            push_all(&mut m, ec.as_slice());
            let message = string_from_chars(m.as_slice());
            state.request.executing_endpoint = None;
            state.request.current_response = Some(ApiResponse::error(message.clone()));
            Err(message)
        },
    }
}

/// Records the outcome of the running request: it is no longer running, the
/// response becomes the current one and the Response tab scrolls to the top.
pub fn finish_request(state: &mut AppState, response: ApiResponse)
    ensures
        ({
            let pre = *old(state);
            let post = *final(state);
            &&& post.data == pre.data && post.input == pre.input && post.search == pre.search
            &&& post.ui == UiState { response_scroll: 0, ..pre.ui }
            &&& post.request == RequestState {
                executing_endpoint: None,
                current_response: Some(response),
                ..pre.request
            }
        }),
{
    state.request.executing_endpoint = None;
    state.request.current_response = Some(response);
    state.ui.response_scroll = 0;
}

/// The headers of a response as stored: each name in lower case with its
/// value, a later header of the same name replacing an earlier one.
pub open spec fn stored_headers(hs: Seq<(Seq<char>, Seq<char>)>) -> Entries
    decreases hs.len(),
{
    if hs.len() == 0 {
        seq![]
    } else {
        insert_entry(stored_headers(hs.drop_last()), lower(hs.last().0), hs.last().1)
    }
}

/// The response recorded for an HTTP reply with status `status` (reason
/// phrase `reason`, `"Unknown"` when it has none), headers `headers` and body
/// `body`, received after `duration_ms` milliseconds. When the body could
/// not be read (`Err(e)`), a failure is recorded instead:
/// `"Failed to read response body: "` followed by `e`.
pub fn received_response(
    status: u16,
    reason: Option<String>,
    headers: Vec<(String, String)>,
    body: Result<String, String>,
    duration_ms: u64,
) -> (r: ApiResponse)
    ensures
        r.duration_ms == duration_ms,
        match body {
            Ok(b) => {
                &&& !r.is_error && r.error_message is None
                &&& r.status == status
                &&& r.status_text@ == match reason {
                    Some(t) => t@,
                    None => "Unknown"@,
                }
                &&& r.headers@ == stored_headers(headers@.map_values(|h: (String, String)| (h.0@, h.1@)))
                &&& r.body == b
            },
            Err(e) => {
                &&& r.is_error && r.status == 0
                &&& r.status_text@.len() == 0 && r.headers@.len() == 0 && r.body@.len() == 0
                &&& r.error_message matches Some(m) && m@ == "Failed to read response body: "@ + e@
            },
        },
{
    match body {
        Ok(b) => {
            let ghost hv = headers@.map_values(|h: (String, String)| (h.0@, h.1@));
            let mut map = StringMap::new();
            let mut i: usize = 0;
            while i < headers.len()
                invariant
                    hv == headers@.map_values(|h: (String, String)| (h.0@, h.1@)),
                    i <= headers@.len(),
                    map@ == stored_headers(hv.take(i as int)),
                decreases headers@.len() - i,
            {
                assert(hv.take(i + 1).drop_last() =~= hv.take(i as int));
                let k = to_lowercase(headers[i].0.as_str());
                let v = headers[i].1.clone();
                map.insert(k, v);
                i = i + 1;
            }
            assert(hv.take(i as int) =~= hv);
            let status_text = match reason {
                Some(t) => t,
                None => "Unknown".to_string(),
            };
            ApiResponse {
                status,
                status_text,
                headers: map,
                body: b,
                duration_ms,
                is_error: false,
                error_message: None,
            }
        },
        Err(e) => {
            let mut m = chars_of("Failed to read response body: ");
            let ec = chars_of(e.as_str());
            push_all(&mut m, ec.as_slice());
            ApiResponse {
                status: 0,
                status_text: String::new(),
                headers: StringMap::new(),
                body: String::new(),
                duration_ms,
                is_error: true,
                error_message: Some(string_from_chars(m.as_slice())),
            }
        },
    }
}

/// The response recorded when no HTTP reply came (`error` says why):
/// `"Request failed: "` followed by `error`.
pub fn failed_response(error: &str, duration_ms: u64) -> (r: ApiResponse)
    ensures
        r.is_error && r.status == 0 && r.duration_ms == duration_ms,
        r.status_text@.len() == 0 && r.headers@.len() == 0 && r.body@.len() == 0,
        r.error_message matches Some(m) && m@ == "Request failed: "@ + error@,
{
    let mut m = chars_of("Request failed: ");
    let ec = chars_of(error);
    push_all(&mut m, ec.as_slice());
    ApiResponse {
        status: 0,
        status_text: String::new(),
        headers: StringMap::new(),
        body: String::new(),
        duration_ms,
        is_error: true,
        error_message: Some(string_from_chars(m.as_slice())),
    }
}

} // verus!
