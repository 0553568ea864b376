//! Editing request parameters inline and filtering the endpoint list.
use vstd::prelude::*;
use crate::actions::{action_effect, apply_action, pop_last, stored_param_value, AppAction};
use crate::editor::KeyInput;
use crate::text::char_string;
use crate::groups::grouped;
use crate::state::{index_of_key, lemma_index_of_key, selected_endpoint, AppState, ConfigEntries};
use crate::types::{
    endpoint_views, lower, params_at, ConfigView, EndpointView,
    InputMode, Parameter, RequestConfig, RequestEditMode,
};
use crate::state::endpoint_matches;

verus! {

/// The path parameters of `e`, then its query parameters; the parameter at
/// position `i` of that list, if there is one.
pub open spec fn param_at(e: EndpointView, i: int) -> Option<Parameter> {
    let pp = params_at(e.parameters, "path"@);
    let qp = params_at(e.parameters, "query"@);
    if 0 <= i < pp.len() {
        Some(pp[i])
    } else if pp.len() <= i < pp.len() + qp.len() {
        Some(qp[i - pp.len()])
    } else {
        None
    }
}

/// The configurations with an (empty) entry for `path` added when missing.
pub open spec fn configs_with_entry(cs: ConfigEntries, path: Seq<char>) -> ConfigEntries {
    if index_of_key(cs, path) < cs.len() {
        cs
    } else {
        cs.push((path, ConfigView { query_params: seq![], path_params: seq![], body: None }))
    }
}

/// Whether a parameter is being edited.
pub fn is_editing(state: &AppState) -> (r: bool)
    ensures
        r == (state.request.edit_mode is Editing),
{
    match state.request.edit_mode {
        RequestEditMode::Editing(_) => true,
        RequestEditMode::Viewing => false,
    }
}

/// While a parameter is being edited, types `ch` into it; otherwise applies `action`.
pub fn apply_or_char(state: &mut AppState, ch: char, action: AppAction)
    requires
        old(state).wf(),
    ensures
        final(state).wf(),
        old(state).request.edit_mode is Editing ==> {
            &&& final(state).request == crate::state::RequestState {
                param_edit_buffer: final(state).request.param_edit_buffer,
                ..old(state).request
            }
            &&& final(state).request.param_edit_buffer@ == old(state).request.param_edit_buffer@.push(ch)
            &&& final(state).data == old(state).data && final(state).ui == old(state).ui
            &&& final(state).input == old(state).input && final(state).search == old(state).search
        },
        !(old(state).request.edit_mode is Editing) ==> action_effect(action, *old(state), *final(state)),
{
    if is_editing(state) {
        apply_action(AppAction::AppendToParamBuffer(char_string(ch)), state);
    } else {
        apply_action(action, state);
    }
}

/// Starting to edit the parameter selected on the Request tab (path
/// parameters first, then query parameters), provided none is being edited:
/// the endpoint gets an empty configuration if it has none, and the edit
/// buffer starts from the value stored for the parameter.
pub open spec fn param_edit_effect(pre: AppState, post: AppState, sel: usize) -> bool {
    match selected_endpoint(pre, sel as int) {
        Some(e) => match param_at(e, pre.ui.selected_param_index as int) {
            Some(p) => if pre.request.edit_mode is Viewing {
                &&& post.data == pre.data && post.ui == pre.ui
                &&& post.input == pre.input && post.search == pre.search
                &&& post.request == crate::state::RequestState {
                    edit_mode: RequestEditMode::Editing(p.name),
                    param_edit_buffer: post.request.param_edit_buffer,
                    configs: post.request.configs,
                    ..pre.request
                }
                &&& post.request.configs@ == configs_with_entry(pre.request.configs@, e.path)
                &&& post.request.param_edit_buffer@ == stored_param_value(post, e.path, p.name@)
            } else {
                post == pre
            },
            None => post == pre,
        },
        None => post == pre,
    }
}

/// Starts editing the selected parameter (see `param_edit_effect`).
pub fn handle_request_param_edit(selected_index: usize, state: &mut AppState)
    requires
        old(state).wf(),
    ensures
        final(state).wf(),
        param_edit_effect(*old(state), *final(state), selected_index),
{
    if !matches!(state.request.edit_mode, RequestEditMode::Viewing) {
        return;
    }
    let endpoint = match state.get_selected_endpoint(selected_index) {
        Some(e) => e,
        None => return,
    };
    let path_params = endpoint.path_params();
    let query_params = endpoint.query_params();
    let ghost pp = params_at(endpoint.parameters@, "path"@);
    let ghost qp = params_at(endpoint.parameters@, "query"@);
    proof {
        assert(path_params@.len() == path_params@.map_values(|p: &Parameter| *p).len());
        assert(query_params@.len() == query_params@.map_values(|p: &Parameter| *p).len());
    }
    let i = state.ui.selected_param_index;
    let name = if i < path_params.len() {
        assert(*path_params@[i as int] == pp[i as int]);
        path_params[i].name.clone()
    } else if i - path_params.len() < query_params.len() {
        let j = i - path_params.len();
        assert(*query_params@[j as int] == qp[j as int]);
        query_params[j].name.clone()
    } else {
        return;
    };
    let ghost cs = state.request.configs@;
    proof {
        lemma_index_of_key(cs, endpoint.path@);
    }
    let cfg = state.request.configs.get_or_insert(endpoint.path.clone(), RequestConfig::default());
    proof {
        let k = index_of_key(cs, endpoint.path@);
        if k < cs.len() {
            assert(cs.update(k, (endpoint.path@, cs[k].1)) =~= cs);
        }
    }
    apply_action(
        AppAction::StartEditingParameter { param_name: name, endpoint_path: endpoint.path.clone() },
        state,
    );
}

/// Storing the parameter being edited for the selected endpoint and going
/// back to viewing; nothing happens when no parameter is being edited or no
/// endpoint is selected.
pub open spec fn param_confirm_effect(pre: AppState, post: AppState, sel: usize) -> bool {
    match selected_endpoint(pre, sel as int) {
        Some(e) => if pre.request.edit_mode is Editing {
            exists|path: String|
                path@ == e.path && action_effect(
                    AppAction::ConfirmParameterEdit { endpoint_path: path },
                    pre,
                    post,
                )
        } else {
            post == pre
        },
        None => post == pre,
    }
}

/// Confirms the parameter edit (see `param_confirm_effect`).
pub fn handle_request_param_confirm(selected_index: usize, state: &mut AppState)
    requires
        old(state).wf(),
    ensures
        final(state).wf(),
        param_confirm_effect(*old(state), *final(state), selected_index),
{
    if !is_editing(state) {
        return;
    }
    match state.get_selected_endpoint(selected_index) {
        Some(endpoint) => {
            let path = endpoint.path;
            let ghost p = path;
            apply_action(AppAction::ConfirmParameterEdit { endpoint_path: path }, state);
            assert(p@ == endpoint.path@);
        },
        None => {},
    }
}

/// The search results `post` holds for the query `q`, everything else being `pre`'s.
pub open spec fn results_for(pre: AppState, post: AppState, q: Seq<char>) -> bool {
    &&& post.data == pre.data && post.ui == pre.ui && post.request == pre.request
    &&& post.search.query@ == q
    &&& q.len() == 0 ==> post.search.filtered_endpoints@.len() == 0
        && post.search.filtered_grouped_endpoints@.len() == 0
    &&& q.len() > 0 ==> {
        &&& endpoint_views(post.search.filtered_endpoints@) == endpoint_views(
            pre.data.endpoints@,
        ).filter(|e: EndpointView| endpoint_matches(e, lower(q)))
        &&& post.search.filtered_grouped_endpoints@ == grouped(
            endpoint_views(post.search.filtered_endpoints@),
        )
    }
}

/// Opens the search prompt, keeping the current query.
pub fn handle_search_activate(state: &mut AppState)
    requires
        old(state).wf(),
    ensures
        final(state).wf(),
        action_effect(AppAction::EnterSearchMode, *old(state), *final(state)),
{
    apply_action(AppAction::EnterSearchMode, state);
}

/// A key typed at the search prompt. Enter closes the prompt and keeps the
/// filter; Esc closes it and clears the filter; Backspace removes the last
/// character, Ctrl+U clears the query and any other character (with or
/// without Control) is appended to it. A changed query recomputes the results and
/// moves the selection to the top; other keys do nothing.
pub open spec fn search_input_effect(key: KeyInput, pre: AppState, post: AppState, sel: usize, new_sel: usize) -> bool {
    match key {
        KeyInput::Enter => {
            &&& post == AppState {
                input: crate::state::InputState { mode: InputMode::Normal, ..pre.input },
                ..pre
            }
            &&& new_sel == sel
        },
        KeyInput::Esc => {
            &&& post.input == crate::state::InputState { mode: InputMode::Normal, ..pre.input }
            &&& results_for(pre, post, seq![])
            &&& new_sel == 0
        },
        KeyInput::Backspace => {
            &&& post.input == pre.input
            &&& results_for(pre, post, pop_last(pre.search.query@))
            &&& new_sel == 0
        },
        KeyInput::Char { c, ctrl } => {
            &&& post.input == pre.input
            &&& results_for(pre, post, if ctrl && c == 'u' { seq![] } else { pre.search.query@.push(c) })
            &&& new_sel == 0
        },
        _ => post == pre && new_sel == sel,
    }
}

/// Handles a key at the search prompt (see `search_input_effect`).
pub fn handle_search_input(selected_index: &mut usize, key: KeyInput, state: &mut AppState)
    ensures
        search_input_effect(key, *old(state), *final(state), *old(selected_index), *final(selected_index)),
{
    match key {
        KeyInput::Enter => {
            state.input.mode = InputMode::Normal;
        },
        KeyInput::Esc => {
            state.input.mode = InputMode::Normal;
            state.search.query = String::new();
            state.update_filtered_endpoints();
            *selected_index = 0;
        },
        KeyInput::Backspace => {
            crate::actions::pop_char(&mut state.search.query);
            state.update_filtered_endpoints();
            *selected_index = 0;
        },
        KeyInput::Char { c, ctrl } => {
            if ctrl && c == 'u' {
                state.search.query = String::new();
                state.update_filtered_endpoints();
                *selected_index = 0;
            } else {
                let t = char_string(c);
                let ghost q = state.search.query@;
                crate::actions::push_text(&mut state.search.query, t.as_str());
                assert(state.search.query@ =~= q.push(c));
                state.update_filtered_endpoints();
                *selected_index = 0;
            }
        },
        _ => {},
    }
}

/// Clearing a search query in force, recomputing the (now empty) results
/// and moving the selection to the top; nothing happens without a query.
pub open spec fn search_clear_effect(pre: AppState, post: AppState, sel: usize, new_sel: usize) -> bool {
    if pre.search.query@.len() > 0 {
        &&& post.input == pre.input
        &&& results_for(pre, post, seq![])
        &&& new_sel == 0
    } else {
        post == pre && new_sel == sel
    }
}

/// Clears the search filter (see `search_clear_effect`).
pub fn handle_search_clear(selected_index: &mut usize, state: &mut AppState)
    ensures
        search_clear_effect(*old(state), *final(state), *old(selected_index), *final(selected_index)),
{
    if !state.search.query.as_str().is_empty() {
        state.search.query = String::new();
        state.update_filtered_endpoints();
        *selected_index = 0;
    }
}

/// Applies one action (see `action_effect`).
pub fn apply(state: &mut AppState, action: AppAction)
    requires
        old(state).wf(),
    ensures
        final(state).wf(),
        action_effect(action, *old(state), *final(state)),
{
    apply_action(action, state);
}

/// `states` is a run of `acts`: each action leads from one state to the next.
pub open spec fn run_of(acts: Seq<AppAction>, states: Seq<AppState>) -> bool {
    &&& states.len() == acts.len() + 1
    &&& forall|i: int| 0 <= i < acts.len() ==> (#[trigger] states[i]).wf() && action_effect(acts[i], states[i], states[i + 1])
}

/// Applying `acts` in order leads from `pre` to `post`.
pub open spec fn actions_effect(acts: Seq<AppAction>, pre: AppState, post: AppState) -> bool {
    exists|states: Seq<AppState>| #[trigger] run_of(acts, states) && states[0] == pre && states.last() == post
}

/// Applies the actions in order.
pub fn apply_many(state: &mut AppState, actions: Vec<AppAction>)
    requires
        old(state).wf(),
    ensures
        final(state).wf(),
        actions_effect(actions@, *old(state), *final(state)),
{
    let ghost acts = actions@;
    let n = actions.len();
    let mut rest = actions;
    let mut k: usize = 0;
    let ghost mut states: Seq<AppState> = seq![*state];
    assert(run_of(acts.take(0), states));
    while rest.len() > 0
        invariant
            state.wf(),
            k <= acts.len(),
            acts.len() == n,
            rest@ == acts.skip(k as int),
            run_of(acts.take(k as int), states),
            states[0] == *old(state),
            states.last() == *state,
        decreases rest@.len(),
    {
        let ghost mid = *state;
        assert(k < acts.len());
        let action = rest.remove(0);
        assert(action == acts[k as int]);
        apply_action(action, state);
        proof {
            let prev = states;
            states = states.push(*state);
            let t = acts.take(k + 1);
            assert forall|i: int| 0 <= i < t.len() implies (#[trigger] states[i]).wf() && action_effect(t[i], states[i], states[i + 1]) by {
                if i < k {
                    assert(t[i] == acts.take(k as int)[i]);
                    assert(states[i] == prev[i]);
                    assert(states[i + 1] == prev[i + 1]);
                } else {
                    assert(t[i] == acts[k as int]);
                    assert(states[i] == mid);
                }
            }
            assert(run_of(t, states));
        }
        k = k + 1;
        assert(rest@ =~= acts.skip(k as int));
    }
    assert(acts.take(k as int) =~= acts);
    assert(run_of(acts, states));
}

} // verus!
