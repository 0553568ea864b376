//! Loading the specification: the steps of a fetch and what each does to
//! the state. Fetching and reading JSON belong to the program around the
//! library.
use vstd::prelude::*;
use crate::groups::{group_endpoints, grouped};
use crate::state::{AppState, DataState};
use crate::swagger::{parse_swagger_spec, spec_endpoints};
use crate::text::{chars_of, push_all, string_from_chars};
use crate::types::{endpoint_views, InputMode, LoadingState, SwaggerSpec};

verus! {

/// Why a fetch failed.
#[derive(Debug, Clone, Copy, PartialEq, Eq, Structural)]
pub enum FetchFailure {
    /// The document could not be downloaded.
    Network,
    /// The document is not a specification that can be read.
    Parse,
}

/// The input mode at start: the URL dialog when no Swagger URL is configured.
pub open spec fn startup_mode(has_swagger_url: bool) -> InputMode {
    if has_swagger_url {
        InputMode::Normal
    } else {
        InputMode::EnteringUrl
    }
}

/// The state the application starts in (see `AppState::default`), with the
/// URL dialog open when no Swagger URL is configured.
pub fn startup_state(has_swagger_url: bool) -> (s: AppState)
    ensures
        s.wf(),
        s.input.mode == startup_mode(has_swagger_url),
        s.data.endpoints@.len() == 0,
        s.data.loading_state is Idle,
        s.request.configs@.len() == 0,
        s.search.query@.len() == 0,
{
    let mut s = AppState::default();
    s.input.mode = if has_swagger_url {
        InputMode::Normal
    } else {
        InputMode::EnteringUrl
    };
    s
}

/// `post` is `pre` with the loading progress `l`.
pub open spec fn with_loading(pre: AppState, post: AppState, l: LoadingState) -> bool {
    post == AppState { data: DataState { loading_state: l, ..pre.data }, ..pre }
}

/// A fetch starts.
pub fn begin_fetch(state: &mut AppState)
    ensures
        with_loading(*old(state), *final(state), LoadingState::Fetching),
{
    state.data.loading_state = LoadingState::Fetching;
}

/// The document arrived and is being read.
pub fn mark_parsing(state: &mut AppState)
    ensures
        with_loading(*old(state), *final(state), LoadingState::Parsing),
{
    state.data.loading_state = LoadingState::Parsing;
}

/// The document was read: its endpoints (see `parse_swagger_spec`) and their
/// groups replace the loaded ones, loading is complete and the attempt
/// count is reset.
pub fn finish_fetch(state: &mut AppState, spec: SwaggerSpec)
    ensures
        final(state).ui == old(state).ui,
        final(state).input == old(state).input,
        final(state).request == old(state).request,
        final(state).search == old(state).search,
        endpoint_views(final(state).data.endpoints@) == spec_endpoints(spec.paths@),
        final(state).data.grouped_endpoints@ == grouped(spec_endpoints(spec.paths@)),
        final(state).data.loading_state is Complete,
        final(state).data.retry_count == 0,
{
    let endpoints = parse_swagger_spec(spec);
    let groups = group_endpoints(&endpoints);
    state.data = DataState {
        endpoints,
        grouped_endpoints: groups,
        loading_state: LoadingState::Complete,
        retry_count: state.data.retry_count,
    };
    state.data.retry_count = 0;
}

/// The error message of a failed fetch.
pub open spec fn failure_message(f: FetchFailure, detail: Seq<char>) -> Seq<char> {
    match f {
        FetchFailure::Network => "Network error: "@ + detail,
        FetchFailure::Parse => "Parse error: "@ + detail,
    }
}

/// A fetch failed: loading ends with an error saying why.
pub fn fetch_failed(state: &mut AppState, failure: FetchFailure, detail: &str)
    ensures
        *final(state) == (AppState {
            data: DataState { loading_state: final(state).data.loading_state, ..old(state).data },
            ..*old(state)
        }),
        final(state).data.loading_state matches LoadingState::Error(m) && m@ == failure_message(failure, detail@),
{
    let mut m = match failure {
        FetchFailure::Network => chars_of("Network error: "),
        FetchFailure::Parse => chars_of("Parse error: "),
    };
    let d = chars_of(detail);
    push_all(&mut m, d.as_slice());
    state.data.loading_state = LoadingState::Error(string_from_chars(m.as_slice()));
}

} // verus!
