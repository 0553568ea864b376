//! Moving through the endpoint list, the parameters of the Request tab and
//! the lines of the Response tab.
use vstd::prelude::*;
use crate::actions::{action_effect, apply_action, AppAction};
use crate::editor::{split_text_lines, text_lines};
use crate::json::{json_pretty, json_valid, try_format_json};
use crate::state::{
    index_of_key, initial_config, lemma_index_of_key, selected_endpoint, shown_rows, AppState,
    ConfigEntries, UiState,
};
use crate::text::chars_of;
use crate::types::{lemma_params_at_two_len, params_at, Parameter, RequestEditMode, ViewMode};

verus! {

/// The UI with the parameter selection and the response position reset.
pub open spec fn reset_position(ui: UiState) -> UiState {
    UiState { selected_param_index: 0, response_scroll: 0, response_selected_line: 0, ..ui }
}

/// The configurations once the endpoint at position `sel` has one (see
/// `AppState::get_or_create_request_config`).
pub open spec fn configs_with_selected(s: AppState, sel: int) -> ConfigEntries {
    let cs = s.request.configs@;
    match selected_endpoint(s, sel) {
        Some(e) => if index_of_key(cs, e.path) < cs.len() {
            cs
        } else {
            cs.push((e.path, initial_config(e.parameters)))
        },
        None => cs,
    }
}

/// `post` is `pre` with a configuration for the endpoint at `sel` ensured.
pub open spec fn config_ensured(pre: AppState, post: AppState, sel: int) -> bool {
    &&& crate::state::same_but_configs(post, pre)
    &&& post.request.configs@ == configs_with_selected(pre, sel)
}

/// Makes sure the endpoint at position `selected_index` has a request
/// configuration (created from its parameters' defaults when missing).
pub fn ensure_request_config_for_selected(selected_index: usize, state: &mut AppState)
    ensures
        config_ensured(*old(state), *final(state), selected_index as int),
{
    match state.get_selected_endpoint(selected_index) {
        Some(endpoint) => {
            proof {
                lemma_index_of_key(state.request.configs@, endpoint.path@);
            }
            let ghost cs = state.request.configs@;
            let cfg = state.get_or_create_request_config(&endpoint);
            proof {
                let i = index_of_key(cs, endpoint.path@);
                if i < cs.len() {
                    assert(cs.update(i, (endpoint.path@, cs[i].1)) =~= cs);
                }
            }
        },
        None => {},
    }
}

/// Moving the selection one row up, unless it is on the first row: moving
/// resets the parameter selection and the response position, and makes sure
/// the newly selected endpoint has a configuration.
pub open spec fn list_up_effect(pre: AppState, post: AppState, sel: usize, new_sel: usize) -> bool {
    if sel > 0 {
        &&& new_sel == sel - 1
        &&& config_ensured(AppState { ui: reset_position(pre.ui), ..pre }, post, new_sel as int)
    } else {
        new_sel == sel && post == pre
    }
}

/// Moves the selection one row up (see `list_up_effect`).
pub fn handle_up(selected_index: &mut usize, state: &mut AppState)
    ensures
        list_up_effect(*old(state), *final(state), *old(selected_index), *final(selected_index)),
{
    if *selected_index > 0 {
        *selected_index = *selected_index - 1;
        state.ui.selected_param_index = 0;
        state.ui.response_scroll = 0;
        state.ui.response_selected_line = 0;
        ensure_request_config_for_selected(*selected_index, state);
    }
}

/// The last row index of the list in the current view mode (0 when empty).
pub open spec fn last_row(s: AppState) -> int {
    let n = match s.ui.view_mode {
        ViewMode::Flat => s.data.endpoints@.len() as int,
        ViewMode::Grouped => shown_rows(s).len() as int,
    };
    if n > 0 {
        n - 1
    } else {
        0
    }
}

/// Moving the selection one row down, unless it is on the last row: moving
/// resets the parameter selection and the response position, and makes sure
/// the newly selected endpoint has a configuration.
pub open spec fn list_down_effect(pre: AppState, post: AppState, sel: usize, new_sel: usize) -> bool {
    if sel < last_row(pre) {
        &&& new_sel == sel + 1
        &&& config_ensured(AppState { ui: reset_position(pre.ui), ..pre }, post, new_sel as int)
    } else {
        new_sel == sel && post == pre
    }
}

/// Moves the selection one row down (see `list_down_effect`).
pub fn handle_down(selected_index: &mut usize, state: &mut AppState)
    ensures
        list_down_effect(*old(state), *final(state), *old(selected_index), *final(selected_index)),
{
    let n = match state.ui.view_mode {
        ViewMode::Flat => state.data.endpoints.len(),
        ViewMode::Grouped => state.get_render_items().len(),
    };
    let max_index = if n > 0 {
        n - 1
    } else {
        0
    };
    if *selected_index < max_index {
        *selected_index = *selected_index + 1;
        state.ui.selected_param_index = 0;
        state.ui.response_scroll = 0;
        state.ui.response_selected_line = 0;
        ensure_request_config_for_selected(*selected_index, state);
    }
}

/// Moving the parameter selection up while no parameter is being edited.
pub open spec fn param_up_effect(pre: AppState, post: AppState) -> bool {
    if pre.request.edit_mode is Viewing && pre.ui.selected_param_index > 0 {
        post == AppState {
            ui: UiState { selected_param_index: (pre.ui.selected_param_index - 1) as usize, ..pre.ui },
            ..pre
        }
    } else {
        post == pre
    }
}

/// Moves the parameter selection up (see `param_up_effect`).
pub fn handle_request_param_up(state: &mut AppState)
    ensures
        param_up_effect(*old(state), *final(state)),
{
    if matches!(state.request.edit_mode, RequestEditMode::Viewing) && state.ui.selected_param_index > 0 {
        state.ui.selected_param_index = state.ui.selected_param_index - 1;
    }
}

/// Number of path and query parameters of an endpoint, by view.
pub open spec fn param_count(e: crate::types::EndpointView) -> int {
    params_at(e.parameters, "path"@).len() + params_at(e.parameters, "query"@).len() as int
}

/// Moving the parameter selection down, within the selected endpoint's
/// path and query parameters, while no parameter is being edited.
pub open spec fn param_down_effect(pre: AppState, post: AppState, sel: usize) -> bool {
    let i = pre.ui.selected_param_index;
    match selected_endpoint(pre, sel as int) {
        Some(e) => if pre.request.edit_mode is Viewing && i + 1 < param_count(e) {
            post == AppState { ui: UiState { selected_param_index: (i + 1) as usize, ..pre.ui }, ..pre }
        } else {
            post == pre
        },
        None => post == pre,
    }
}

/// Moves the parameter selection down (see `param_down_effect`).
pub fn handle_request_param_down(selected_index: usize, state: &mut AppState)
    ensures
        param_down_effect(*old(state), *final(state), selected_index),
{
    if !matches!(state.request.edit_mode, RequestEditMode::Viewing) {
        return;
    }
    match state.get_selected_endpoint(selected_index) {
        Some(endpoint) => {
            let path_params = endpoint.path_params();
            let query_params = endpoint.query_params();
            proof {
                reveal_strlit("path");
                reveal_strlit("query");
                assert("path"@ != "query"@) by {
                    assert("path"@.len() != "query"@.len());
                }
                lemma_params_at_two_len(endpoint.parameters@, "path"@, "query"@);
                assert(path_params@.len() == path_params@.map_values(|p: &Parameter| *p).len());
                assert(query_params@.len() == query_params@.map_values(|p: &Parameter| *p).len());
            }
            let n_params = endpoint.parameters.len();
            assert(path_params@.len() + query_params@.len() <= n_params);
            let total = path_params.len() + query_params.len();
            if total > 0 && state.ui.selected_param_index < total - 1 {
                state.ui.selected_param_index = state.ui.selected_param_index + 1;
            }
        },
        None => {},
    }
}

/// Switches between the flat and the grouped list; the selection goes to the top.
pub fn handle_toggle_view(selected_index: &mut usize, state: &mut AppState)
    requires
        old(state).wf(),
    ensures
        final(state).wf(),
        action_effect(AppAction::ToggleViewMode, *old(state), *final(state)),
        *final(selected_index) == 0,
{
    apply_action(AppAction::ToggleViewMode, state);
    *selected_index = 0;
}

/// Moving the response line selection up, scrolling up to keep it visible.
pub open spec fn response_up_effect(pre: AppState, post: AppState) -> bool {
    let l = pre.ui.response_selected_line;
    if l > 0 {
        let nl = (l - 1) as usize;
        post == AppState {
            ui: UiState {
                response_selected_line: nl,
                response_scroll: if nl < pre.ui.response_scroll {
                    nl
                } else {
                    pre.ui.response_scroll
                },
                ..pre.ui
            },
            ..pre
        }
    } else {
        post == pre
    }
}

/// Moves the response line selection up (see `response_up_effect`).
pub fn handle_response_line_up(state: &mut AppState)
    ensures
        response_up_effect(*old(state), *final(state)),
{
    if state.ui.response_selected_line > 0 {
        state.ui.response_selected_line = state.ui.response_selected_line - 1;
        if state.ui.response_selected_line < state.ui.response_scroll {
            state.ui.response_scroll = state.ui.response_selected_line;
        }
    }
}

/// The body as the Response tab shows it: pretty-printed when it is JSON.
pub open spec fn shown_body(body: Seq<char>) -> Seq<char> {
    if json_valid(body) {
        json_pretty(body)
    } else {
        body
    }
}

/// Lines of the Response tab: a status line, an empty line and the body's
/// lines; none when there is no response or it is a failure.
pub open spec fn response_line_count(s: AppState) -> int {
    match s.request.current_response {
        Some(r) => if !r.is_error {
            2 + text_lines(shown_body(r.body@)).len() as int
        } else {
            0
        },
        None => 0,
    }
}

/// `response_line_count`, saturated at the largest `usize`.
pub open spec fn response_line_total(s: AppState) -> int {
    if response_line_count(s) <= usize::MAX {
        response_line_count(s)
    } else {
        usize::MAX as int
    }
}

/// Number of lines the Response tab shows.
pub fn count_response_lines(state: &AppState) -> (n: usize)
    ensures
        n as int == response_line_total(*state),
{
    match &state.request.current_response {
        Some(response) => if !response.is_error {
            let formatted = try_format_json(response.body.as_str());
            let lines = split_text_lines(chars_of(formatted.as_str()).as_slice());
            if lines.len() > usize::MAX - 2 {
                usize::MAX
            } else {
                2 + lines.len()
            }
        } else {
            0
        },
        None => 0,
    }
}

/// Rows of the Response tab that fit on the screen when scrolling down.
pub const RESPONSE_VIEWPORT: usize = 20;

/// Moving the response line selection down, within the response's lines,
/// scrolling down to keep it within the viewport.
pub open spec fn response_down_effect(pre: AppState, post: AppState) -> bool {
    let total = response_line_total(pre);
    let l = pre.ui.response_selected_line;
    if total > 0 && l + 1 < total {
        let nl = l + 1;
        post == AppState {
            ui: UiState {
                response_selected_line: nl as usize,
                response_scroll: if nl >= pre.ui.response_scroll + RESPONSE_VIEWPORT {
                    (nl - (RESPONSE_VIEWPORT - 1)) as usize
                } else {
                    pre.ui.response_scroll
                },
                ..pre.ui
            },
            ..pre
        }
    } else {
        post == pre
    }
}

/// Moves the response line selection down (see `response_down_effect`).
pub fn handle_response_line_down(state: &mut AppState)
    requires
        old(state).ui.response_scroll + RESPONSE_VIEWPORT <= usize::MAX,
    ensures
        response_down_effect(*old(state), *final(state)),
{
    let total = count_response_lines(state);
    if total > 0 && state.ui.response_selected_line < total - 1 {
        state.ui.response_selected_line = state.ui.response_selected_line + 1;
        let viewport_height: usize = RESPONSE_VIEWPORT;
        let scroll_bottom = state.ui.response_scroll + viewport_height;
        if state.ui.response_selected_line >= scroll_bottom {
            state.ui.response_scroll = state.ui.response_selected_line - (viewport_height - 1);
        }
    }
}

} // verus!
