//! Every change of the application state made by user input goes through
//! `apply_action`.
use vstd::prelude::*;
use crate::editor::{backspace_effect, empty_editor, insert_text};
use crate::state::{
    contains_string, index_of_key, index_of_path, lemma_index_of_key, lemma_index_of_path,
    string_set, AppState, InputState, RequestState, SearchState, UiState,
};
use crate::strmap::{insert_entry, lookup};
use crate::text::{
    char_is_whitespace, chars_of, last_ws, push_all, slice_range,
    str_eq, string_from_chars, trim_end_len, trimmed_end_len,
};
use crate::types::{
    ApiResponse, ConfigView, DetailTab, InputMode, PanelFocus, Parameter, RequestEditMode,
    UrlInputField, ViewMode,
};

verus! {

/// A change of the application state.
#[derive(Debug)]
pub enum AppAction {
    NavigateUp,
    NavigateDown,
    NavigateToPanel(PanelFocus),
    NavigateToTab(DetailTab),
    NavigateTabForward,
    NavigateTabBackward,
    NavigateParamUp,
    NavigateParamDown,
    ToggleViewMode,
    ToggleGroupExpanded(String),
    EnterUrlInputMode { swagger_url: Option<String>, base_url: Option<String> },
    ExitUrlInputMode,
    EnterTokenInputMode,
    ExitTokenInputMode,
    EnterSearchMode,
    ExitSearchMode,
    EnterBodyInputMode,
    ExitBodyInputMode,
    EnterConfirmClearTokenMode,
    ExitConfirmClearTokenMode,
    SetActiveUrlField(UrlInputField),
    AppendToUrlInput(String),
    AppendToBaseUrlInput(String),
    AppendToTokenInput(String),
    AppendToSearchQuery(String),
    AppendToBodyInput(String),
    ClearUrlInput,
    ClearBaseUrlInput,
    ClearTokenInput,
    ClearSearchQuery,
    ClearBodyInput,
    BackspaceUrlInput,
    BackspaceBaseUrlInput,
    BackspaceTokenInput,
    BackspaceSearchQuery,
    BackspaceBodyInput,
    DeleteWordUrlInput,
    DeleteWordBaseUrlInput,
    DeleteWordTokenInput,
    StartEditingParameter { param_name: String, endpoint_path: String },
    AppendToParamBuffer(String),
    BackspaceParamBuffer,
    ClearParamBuffer,
    ConfirmParameterEdit { endpoint_path: String },
    CancelParameterEdit,
    SetAuthToken(String),
    ClearAuthToken,
    SetErrorResponse(String),
    ClearResponse,
    ResetParamIndex,
    ToggleBodySection,
}

/// `s` without its last character, if it has one (`String::pop`).
pub open spec fn pop_last(s: Seq<char>) -> Seq<char> {
    if s.len() > 0 {
        s.drop_last()
    } else {
        s
    }
}

/// The text left by Ctrl+W: trailing white space dropped, then everything
/// from the last white-space character on (everything, when there is none).
pub open spec fn delete_word_result(s: Seq<char>) -> Seq<char> {
    let t = s.take(trimmed_end_len(s) as int);
    match last_ws(t) {
        Some(i) => t.take(i),
        None => seq![],
    }
}

/// Tab: from the list to the details panel (keeping its tab), then through
/// the tabs, and from the last tab back to the list.
pub open spec fn tab_forward(ui: UiState) -> UiState {
    match (ui.panel_focus, ui.active_detail_tab) {
        (PanelFocus::EndpointsList, _) => UiState { panel_focus: PanelFocus::Details, ..ui },
        (PanelFocus::Details, DetailTab::Endpoint) => UiState {
            active_detail_tab: DetailTab::Request,
            selected_param_index: 0,
            ..ui
        },
        (PanelFocus::Details, DetailTab::Request) => UiState { active_detail_tab: DetailTab::Headers, ..ui },
        (PanelFocus::Details, DetailTab::Headers) => UiState {
            active_detail_tab: DetailTab::Response,
            response_scroll: 0,
            response_selected_line: 0,
            ..ui
        },
        (PanelFocus::Details, DetailTab::Response) => UiState {
            panel_focus: PanelFocus::EndpointsList,
            active_detail_tab: DetailTab::Endpoint,
            ..ui
        },
    }
}

/// Shift+Tab: from the list to the details panel (keeping its tab), then
/// back through the tabs, and from the first tab back to the list.
pub open spec fn tab_backward(ui: UiState) -> UiState {
    match (ui.panel_focus, ui.active_detail_tab) {
        (PanelFocus::EndpointsList, _) => UiState { panel_focus: PanelFocus::Details, ..ui },
        (PanelFocus::Details, DetailTab::Request) => UiState {
            active_detail_tab: DetailTab::Endpoint,
            selected_param_index: 0,
            ..ui
        },
        (PanelFocus::Details, DetailTab::Response) => UiState {
            active_detail_tab: DetailTab::Headers,
            response_scroll: 0,
            response_selected_line: 0,
            ..ui
        },
        (PanelFocus::Details, DetailTab::Headers) => UiState {
            active_detail_tab: DetailTab::Request,
            selected_param_index: 0,
            ..ui
        },
        (PanelFocus::Details, DetailTab::Endpoint) => UiState { panel_focus: PanelFocus::EndpointsList, ..ui },
    }
}

/// The text of an optional string, empty when there is none.
pub open spec fn text_or_empty(o: Option<String>) -> Seq<char> {
    match o {
        Some(s) => s@,
        None => seq![],
    }
}

/// The value shown when editing of `name` starts: its path value, else its
/// query value, in the endpoint's configuration; empty otherwise.
pub open spec fn stored_param_value(s: AppState, path: Seq<char>, name: Seq<char>) -> Seq<char> {
    let cs = s.request.configs@;
    let i = index_of_key(cs, path);
    if i < cs.len() {
        match lookup(cs[i].1.path_params, name) {
            Some(v) => v,
            None => match lookup(cs[i].1.query_params, name) {
                Some(v) => v,
                None => seq![],
            },
        }
    } else {
        seq![]
    }
}

/// Whether `name` is a path parameter of the first endpoint with path `path`.
pub open spec fn is_path_param(s: AppState, path: Seq<char>, name: Seq<char>) -> bool {
    let eps = s.data.endpoints@;
    let i = index_of_path(eps, path);
    i < eps.len() && exists|j: int|
        0 <= j < eps[i].parameters@.len() && #[trigger] eps[i].parameters@[j].name@ == name
            && eps[i].parameters@[j].location@ == "path"@
}

/// The configurations after storing `value` for parameter `name` of the
/// endpoint at `path` (as a path parameter or a query parameter).
pub open spec fn store_param(
    cs: Seq<(Seq<char>, ConfigView)>,
    path: Seq<char>,
    name: Seq<char>,
    value: Seq<char>,
    as_path: bool,
) -> Seq<(Seq<char>, ConfigView)> {
    let i = index_of_key(cs, path);
    let c = if i < cs.len() {
        cs[i].1
    } else {
        ConfigView { query_params: seq![], path_params: seq![], body: None }
    };
    let c2 = if as_path {
        ConfigView { path_params: insert_entry(c.path_params, name, value), ..c }
    } else {
        ConfigView { query_params: insert_entry(c.query_params, name, value), ..c }
    };
    if i < cs.len() {
        cs.update(i, (path, c2))
    } else {
        cs.push((path, c2))
    }
}

/// The parts of the state other than `ui` are unchanged.
pub open spec fn only_ui(pre: AppState, post: AppState) -> bool {
    post.data == pre.data && post.input == pre.input && post.request == pre.request && post.search
        == pre.search
}

/// The parts of the state other than `input` are unchanged.
pub open spec fn only_input(pre: AppState, post: AppState) -> bool {
    post.data == pre.data && post.ui == pre.ui && post.request == pre.request && post.search
        == pre.search
}

/// The parts of the state other than `request` are unchanged.
pub open spec fn only_request(pre: AppState, post: AppState) -> bool {
    post.data == pre.data && post.ui == pre.ui && post.input == pre.input && post.search
        == pre.search
}

/// The parts of the state other than `search` are unchanged.
pub open spec fn only_search(pre: AppState, post: AppState) -> bool {
    post.data == pre.data && post.ui == pre.ui && post.input == pre.input && post.request
        == pre.request
}

/// Input state equal to `pre` but for the mode and one text field.
pub open spec fn input_with_text(pre: InputState, post: InputState, which: InputText) -> bool {
    match which {
        InputText::Url => post == InputState { url_input: post.url_input, mode: post.mode, ..pre },
        InputText::BaseUrl => post == InputState { base_url_input: post.base_url_input, mode: post.mode, ..pre },
        InputText::Token => post == InputState { token_input: post.token_input, mode: post.mode, ..pre },
    }
}

/// The text fields of the dialogs.
pub enum InputText {
    Url,
    BaseUrl,
    Token,
}

/// What `apply_action` does: the relation between the state before (`pre`)
/// and after (`post`) applying `a`.
pub open spec fn action_effect(a: AppAction, pre: AppState, post: AppState) -> bool {
    match a {
        AppAction::NavigateUp | AppAction::NavigateDown => post == pre,
        AppAction::NavigateToPanel(p) => only_ui(pre, post) && post.ui == UiState { panel_focus: p, ..pre.ui },
        AppAction::NavigateToTab(t) => only_ui(pre, post) && post.ui == UiState {
            active_detail_tab: t,
            response_scroll: 0,
            response_selected_line: 0,
            ..pre.ui
        },
        AppAction::NavigateTabForward => only_ui(pre, post) && post.ui == tab_forward(pre.ui),
        AppAction::NavigateTabBackward => only_ui(pre, post) && post.ui == tab_backward(pre.ui),
        AppAction::NavigateParamUp => only_ui(pre, post) && post.ui == UiState {
            selected_param_index: if pre.ui.selected_param_index > 0 {
                (pre.ui.selected_param_index - 1) as usize
            } else {
                0
            },
            ..pre.ui
        },
        AppAction::NavigateParamDown => only_ui(pre, post) && post.ui == UiState {
            selected_param_index: if pre.ui.selected_param_index < usize::MAX {
                (pre.ui.selected_param_index + 1) as usize
            } else {
                usize::MAX
            },
            ..pre.ui
        },
        AppAction::ToggleViewMode => only_ui(pre, post) && post.ui == UiState {
            view_mode: match pre.ui.view_mode {
                ViewMode::Flat => ViewMode::Grouped,
                ViewMode::Grouped => ViewMode::Flat,
            },
            ..pre.ui
        },
        AppAction::ToggleGroupExpanded(name) => {
            &&& only_ui(pre, post)
            &&& post.ui == UiState { expanded_groups: post.ui.expanded_groups, ..pre.ui }
            &&& string_set(post.ui.expanded_groups@) == if string_set(pre.ui.expanded_groups@).contains(name@) {
                string_set(pre.ui.expanded_groups@).remove(name@)
            } else {
                string_set(pre.ui.expanded_groups@).insert(name@)
            }
        },
        AppAction::EnterUrlInputMode { swagger_url, base_url } => {
            &&& only_input(pre, post)
            &&& post.input == InputState {
                mode: InputMode::EnteringUrl,
                url_input: post.input.url_input,
                base_url_input: post.input.base_url_input,
                active_url_field: UrlInputField::SwaggerUrl,
                ..pre.input
            }
            &&& post.input.url_input@ == text_or_empty(swagger_url)
            &&& post.input.base_url_input@ == text_or_empty(base_url)
        },
        AppAction::ExitUrlInputMode => {
            &&& only_input(pre, post)
            &&& post.input == InputState {
                mode: InputMode::Normal,
                url_input: post.input.url_input,
                base_url_input: post.input.base_url_input,
                ..pre.input
            }
            &&& post.input.url_input@.len() == 0
            &&& post.input.base_url_input@.len() == 0
        },
        AppAction::EnterTokenInputMode | AppAction::ExitTokenInputMode => {
            &&& only_input(pre, post)
            &&& input_with_text(pre.input, post.input, InputText::Token)
            &&& post.input.mode == (if a is EnterTokenInputMode {
                InputMode::EnteringToken
            } else {
                InputMode::Normal
            })
            &&& post.input.token_input@.len() == 0
        },
        AppAction::EnterSearchMode => {
            &&& post.data == pre.data && post.ui == pre.ui && post.request == pre.request
            &&& post.input == InputState { mode: InputMode::Searching, ..pre.input }
            &&& post.search == SearchState { query: post.search.query, ..pre.search }
            &&& post.search.query@ == pre.search.query@
        },
        AppAction::ExitSearchMode => only_input(pre, post) && post.input == InputState {
            mode: InputMode::Normal,
            ..pre.input
        },
        AppAction::EnterBodyInputMode => only_input(pre, post) && post.input == InputState {
            mode: InputMode::EnteringBody,
            ..pre.input
        },
        AppAction::ExitBodyInputMode => {
            &&& only_input(pre, post)
            &&& post.input == InputState {
                mode: InputMode::Normal,
                body_editor: post.input.body_editor,
                ..pre.input
            }
            &&& post.input.body_editor@ == empty_editor(true, pre.input.body_editor@.content_type)
        },
        AppAction::EnterConfirmClearTokenMode => only_input(pre, post) && post.input == InputState {
            mode: InputMode::ConfirmClearToken,
            ..pre.input
        },
        AppAction::ExitConfirmClearTokenMode => only_input(pre, post) && post.input == InputState {
            mode: InputMode::Normal,
            ..pre.input
        },
        AppAction::SetActiveUrlField(f) => only_input(pre, post) && post.input == InputState {
            active_url_field: f,
            ..pre.input
        },
        AppAction::AppendToUrlInput(t) => only_input(pre, post) && input_with_text(
            pre.input,
            post.input,
            InputText::Url,
        ) && post.input.mode == pre.input.mode && post.input.url_input@ == pre.input.url_input@ + t@,
        AppAction::AppendToBaseUrlInput(t) => only_input(pre, post) && input_with_text(
            pre.input,
            post.input,
            InputText::BaseUrl,
        ) && post.input.mode == pre.input.mode && post.input.base_url_input@ == pre.input.base_url_input@
            + t@,
        AppAction::AppendToTokenInput(t) => only_input(pre, post) && input_with_text(
            pre.input,
            post.input,
            InputText::Token,
        ) && post.input.mode == pre.input.mode && post.input.token_input@ == pre.input.token_input@ + t@,
        AppAction::AppendToSearchQuery(t) => only_search(pre, post) && post.search == SearchState {
            query: post.search.query,
            ..pre.search
        } && post.search.query@ == pre.search.query@ + t@,
        AppAction::AppendToBodyInput(t) => {
            &&& only_input(pre, post)
            &&& post.input == InputState { body_editor: post.input.body_editor, ..pre.input }
            &&& post.input.body_editor@ == insert_text(pre.input.body_editor@, t@)
        },
        AppAction::ClearUrlInput | AppAction::BackspaceUrlInput | AppAction::DeleteWordUrlInput => {
            &&& only_input(pre, post)
            &&& input_with_text(pre.input, post.input, InputText::Url)
            &&& post.input.mode == pre.input.mode
            &&& post.input.url_input@ == edited_text(a, pre.input.url_input@)
        },
        AppAction::ClearBaseUrlInput | AppAction::BackspaceBaseUrlInput
        | AppAction::DeleteWordBaseUrlInput => {
            &&& only_input(pre, post)
            &&& input_with_text(pre.input, post.input, InputText::BaseUrl)
            &&& post.input.mode == pre.input.mode
            &&& post.input.base_url_input@ == edited_text(a, pre.input.base_url_input@)
        },
        AppAction::ClearTokenInput | AppAction::BackspaceTokenInput
        | AppAction::DeleteWordTokenInput => {
            &&& only_input(pre, post)
            &&& input_with_text(pre.input, post.input, InputText::Token)
            &&& post.input.mode == pre.input.mode
            &&& post.input.token_input@ == edited_text(a, pre.input.token_input@)
        },
        AppAction::ClearSearchQuery | AppAction::BackspaceSearchQuery => {
            &&& only_search(pre, post)
            &&& post.search == SearchState { query: post.search.query, ..pre.search }
            &&& post.search.query@ == edited_text(a, pre.search.query@)
        },
        AppAction::ClearBodyInput => {
            &&& only_input(pre, post)
            &&& post.input == InputState { body_editor: post.input.body_editor, ..pre.input }
            &&& post.input.body_editor@ == empty_editor(true, pre.input.body_editor@.content_type)
        },
        AppAction::BackspaceBodyInput => {
            &&& only_input(pre, post)
            &&& post.input == InputState { body_editor: post.input.body_editor, ..pre.input }
            &&& post.input.body_editor@ == backspace_effect(pre.input.body_editor@).0
        },
        AppAction::StartEditingParameter { param_name, endpoint_path } => {
            &&& only_request(pre, post)
            &&& post.request == RequestState {
                edit_mode: RequestEditMode::Editing(param_name),
                param_edit_buffer: post.request.param_edit_buffer,
                ..pre.request
            }
            &&& post.request.param_edit_buffer@ == stored_param_value(pre, endpoint_path@, param_name@)
        },
        AppAction::AppendToParamBuffer(t) => {
            &&& only_request(pre, post)
            &&& post.request == RequestState { param_edit_buffer: post.request.param_edit_buffer, ..pre.request }
            &&& post.request.param_edit_buffer@ == pre.request.param_edit_buffer@ + t@
        },
        AppAction::BackspaceParamBuffer | AppAction::ClearParamBuffer => {
            &&& only_request(pre, post)
            &&& post.request == RequestState { param_edit_buffer: post.request.param_edit_buffer, ..pre.request }
            &&& post.request.param_edit_buffer@ == edited_text(a, pre.request.param_edit_buffer@)
        },
        AppAction::ConfirmParameterEdit { endpoint_path } => {
            &&& only_request(pre, post)
            &&& post.request == RequestState {
                edit_mode: RequestEditMode::Viewing,
                param_edit_buffer: post.request.param_edit_buffer,
                configs: post.request.configs,
                ..pre.request
            }
            &&& post.request.param_edit_buffer@.len() == 0
            &&& post.request.configs@ == match pre.request.edit_mode {
                RequestEditMode::Editing(name) => store_param(
                    pre.request.configs@,
                    endpoint_path@,
                    name@,
                    pre.request.param_edit_buffer@,
                    is_path_param(pre, endpoint_path@, name@),
                ),
                RequestEditMode::Viewing => pre.request.configs@,
            }
        },
        AppAction::CancelParameterEdit => {
            &&& only_request(pre, post)
            &&& post.request == RequestState {
                edit_mode: RequestEditMode::Viewing,
                param_edit_buffer: post.request.param_edit_buffer,
                ..pre.request
            }
            &&& post.request.param_edit_buffer@.len() == 0
        },
        AppAction::SetAuthToken(t) => {
            &&& only_request(pre, post)
            &&& post.request == RequestState { auth: post.request.auth, ..pre.request }
            &&& post.request.auth.token == Some(t)
        },
        AppAction::ClearAuthToken => {
            &&& only_request(pre, post)
            &&& post.request == RequestState { auth: post.request.auth, ..pre.request }
            &&& post.request.auth.token is None
        },
        AppAction::SetErrorResponse(m) => {
            &&& only_request(pre, post)
            &&& post.request == RequestState { current_response: post.request.current_response, ..pre.request }
            &&& post.request.current_response matches Some(r) && r.is_error && r.status == 0
                && r.error_message == Some(m) && r.body@.len() == 0 && r.headers@.len() == 0
                && r.status_text@.len() == 0 && r.duration_ms == 0
        },
        AppAction::ClearResponse => {
            &&& only_request(pre, post)
            &&& post.request == RequestState { current_response: None, ..pre.request }
        },
        AppAction::ResetParamIndex => only_ui(pre, post) && post.ui == UiState {
            selected_param_index: 0,
            ..pre.ui
        },
        AppAction::ToggleBodySection => only_ui(pre, post) && post.ui == UiState {
            body_section_expanded: !pre.ui.body_section_expanded,
            ..pre.ui
        },
    }
}

/// A text field after a clearing, backspace or delete-word action.
pub open spec fn edited_text(a: AppAction, s: Seq<char>) -> Seq<char> {
    match a {
        AppAction::BackspaceUrlInput | AppAction::BackspaceBaseUrlInput
        | AppAction::BackspaceTokenInput | AppAction::BackspaceSearchQuery
        | AppAction::BackspaceParamBuffer => pop_last(s),
        AppAction::DeleteWordUrlInput | AppAction::DeleteWordBaseUrlInput
        | AppAction::DeleteWordTokenInput => delete_word_result(s),
        _ => seq![],
    }
}

/// Removes the last character, if any (`String::pop`).
pub fn pop_char(s: &mut String)
    ensures
        final(s)@ == pop_last(old(s)@),
{
    let cs = chars_of(s.as_str());
    if cs.len() > 0 {
        let t = slice_range(cs.as_slice(), 0, cs.len() - 1);
        assert(t@ =~= cs@.drop_last());
        *s = string_from_chars(t.as_slice());
    }
}

/// Appends `t` to `s` (`String::push_str`).
pub fn push_text(s: &mut String, t: &str)
    ensures
        final(s)@ == old(s)@ + t@,
{
    let mut cs = chars_of(s.as_str());
    let ts = chars_of(t);
    push_all(&mut cs, ts.as_slice());
    *s = string_from_chars(cs.as_slice());
}

/// Deletes the last word (Ctrl+W): trailing white space is dropped, then the
/// text from the last white-space character on; with no white space left
/// the text is emptied.
pub fn delete_word(s: &mut String)
    ensures
        final(s)@ == delete_word_result(old(s)@),
{
    let cs = chars_of(s.as_str());
    let n = trim_end_len(cs.as_slice());
    proof {
        crate::text::lemma_trimmed_end_len(cs@);
    }
    let t = slice_range(cs.as_slice(), 0, n);
    assert(t@ =~= cs@.take(n as int));
    let mut i = t.len();
    assert(t@.take(t@.len() as int) =~= t@);
    while i > 0 && !char_is_whitespace(t[i - 1])
        invariant
            i <= t@.len(),
            last_ws(t@) == last_ws(t@.take(i as int)),
        decreases i,
    {
        assert(t@.take(i as int).drop_last() =~= t@.take(i - 1));
        i = i - 1;
    }
    if i == 0 {
        assert(t@.take(0) =~= Seq::<char>::empty());
        *s = String::new();
    } else {
        assert(last_ws(t@.take(i as int)) == Some(i - 1));
        let r = slice_range(t.as_slice(), 0, i - 1);
        assert(r@ =~= t@.take(i - 1));
        *s = string_from_chars(r.as_slice());
    }
}

proof fn lemma_string_set_push(v: Seq<String>, s: String)
    ensures
        string_set(v.push(s)) == string_set(v).insert(s@),
{
    assert forall|x: Seq<char>| string_set(v.push(s)).contains(x) == string_set(v).insert(s@).contains(x) by {
        if string_set(v.push(s)).contains(x) {
            let i = choose|i: int| 0 <= i < v.push(s).len() && v.push(s)[i]@ == x;
            if i < v.len() {
                assert(v[i]@ == x);
            }
        }
        if string_set(v).contains(x) {
            let i = choose|i: int| 0 <= i < v.len() && v[i]@ == x;
            assert(v.push(s)[i]@ == x);
        }
        if x == s@ {
            assert(v.push(s)[v.len() as int]@ == x);
        }
    }
    assert(string_set(v.push(s)) =~= string_set(v).insert(s@));
}

/// The names of `v` other than `name`.
fn without(v: &Vec<String>, name: &str) -> (r: Vec<String>)
    ensures
        string_set(r@) == string_set(v@).remove(name@),
{
    let mut r: Vec<String> = Vec::new();
    let mut i: usize = 0;
    while i < v.len()
        invariant
            i <= v@.len(),
            string_set(r@) == string_set(v@.take(i as int)).remove(name@),
        decreases v@.len() - i,
    {
        let ghost before = r@;
        if !str_eq(v[i].as_str(), name) {
            r.push(v[i].clone());
            proof {
                lemma_string_set_push(before, v@[i as int]);
            }
        }
        proof {
            assert(v@.take(i + 1) =~= v@.take(i as int).push(v@[i as int]));
            lemma_string_set_push(v@.take(i as int), v@[i as int]);
        }
        i = i + 1;
    }
    assert(v@.take(i as int) =~= v@);
    r
}

/// Whether some parameter of `ps` is named `name` and goes in the path.
fn has_path_param(ps: &Vec<Parameter>, name: &str) -> (r: bool)
    ensures
        r == exists|j: int|
            0 <= j < ps@.len() && #[trigger] ps@[j].name@ == name@ && ps@[j].location@ == "path"@,
{
    let mut i: usize = 0;
    while i < ps.len()
        invariant
            i <= ps@.len(),
            forall|j: int| 0 <= j < i ==> !(#[trigger] ps@[j].name@ == name@ && ps@[j].location@ == "path"@),
        decreases ps@.len() - i,
    {
        if str_eq(ps[i].name.as_str(), name) && str_eq(ps[i].location.as_str(), "path") {
            return true;
        }
        i = i + 1;
    }
    false
}

fn apply_ui(action: AppAction, state: &mut AppState)
    requires
        action is NavigateUp || action is NavigateDown || action is NavigateToPanel || action is NavigateToTab
            || action is NavigateTabForward || action is NavigateTabBackward || action is NavigateParamUp
            || action is NavigateParamDown || action is ToggleViewMode || action is ToggleGroupExpanded
            || action is ResetParamIndex || action is ToggleBodySection,
    ensures
        action_effect(action, *old(state), *final(state)),
{
    match action {
        AppAction::NavigateUp => {},
        AppAction::NavigateDown => {},
        AppAction::NavigateToPanel(panel) => {
            state.ui.panel_focus = panel;
        },
        AppAction::NavigateToTab(tab) => {
            state.ui.active_detail_tab = tab;
            state.ui.response_scroll = 0;
            state.ui.response_selected_line = 0;
        },
        AppAction::NavigateTabForward => {
            match (state.ui.panel_focus, state.ui.active_detail_tab) {
                (PanelFocus::EndpointsList, _) => {
                    state.ui.panel_focus = PanelFocus::Details;
                },
                (PanelFocus::Details, DetailTab::Endpoint) => {
                    state.ui.active_detail_tab = DetailTab::Request;
                    state.ui.selected_param_index = 0;
                },
                (PanelFocus::Details, DetailTab::Request) => {
                    state.ui.active_detail_tab = DetailTab::Headers;
                },
                (PanelFocus::Details, DetailTab::Headers) => {
                    state.ui.active_detail_tab = DetailTab::Response;
                    state.ui.response_scroll = 0;
                    state.ui.response_selected_line = 0;
                },
                (PanelFocus::Details, DetailTab::Response) => {
                    state.ui.panel_focus = PanelFocus::EndpointsList;
                    state.ui.active_detail_tab = DetailTab::Endpoint;
                },
            }
        },
        AppAction::NavigateTabBackward => {
            match (state.ui.panel_focus, state.ui.active_detail_tab) {
                (PanelFocus::EndpointsList, _) => {
                    state.ui.panel_focus = PanelFocus::Details;
                },
                (PanelFocus::Details, DetailTab::Request) => {
                    state.ui.active_detail_tab = DetailTab::Endpoint;
                    state.ui.selected_param_index = 0;
                },
                (PanelFocus::Details, DetailTab::Response) => {
                    state.ui.active_detail_tab = DetailTab::Headers;
                    state.ui.response_scroll = 0;
                    state.ui.response_selected_line = 0;
                },
                (PanelFocus::Details, DetailTab::Headers) => {
                    state.ui.active_detail_tab = DetailTab::Request;
                    state.ui.selected_param_index = 0;
                },
                (PanelFocus::Details, DetailTab::Endpoint) => {
                    state.ui.panel_focus = PanelFocus::EndpointsList;
                },
            }
        },
        AppAction::NavigateParamUp => {
            state.ui.selected_param_index = state.ui.selected_param_index.saturating_sub(1);
        },
        AppAction::NavigateParamDown => {
            state.ui.selected_param_index = state.ui.selected_param_index.saturating_add(1);
        },
        AppAction::ToggleViewMode => {
            state.ui.view_mode = match state.ui.view_mode {
                ViewMode::Flat => ViewMode::Grouped,
                ViewMode::Grouped => ViewMode::Flat,
            };
        },
        AppAction::ToggleGroupExpanded(group_name) => {
            if contains_string(&state.ui.expanded_groups, group_name.as_str()) {
                let v = without(&state.ui.expanded_groups, group_name.as_str());
                state.ui.expanded_groups = v;
            } else {
                let ghost before = state.ui.expanded_groups@;
                state.ui.expanded_groups.push(group_name);
                proof {
                    lemma_string_set_push(before, state.ui.expanded_groups@.last());
                    assert(before.push(state.ui.expanded_groups@.last()) =~= state.ui.expanded_groups@);
                }
            }
        },
        AppAction::ResetParamIndex => {
            state.ui.selected_param_index = 0;
        },
        AppAction::ToggleBodySection => {
            state.ui.body_section_expanded = !state.ui.body_section_expanded;
        },
        _ => {},
    }
}


fn apply_input(action: AppAction, state: &mut AppState)
    requires
        old(state).wf(),
        action is EnterUrlInputMode || action is ExitUrlInputMode || action is EnterTokenInputMode
            || action is ExitTokenInputMode || action is EnterSearchMode || action is ExitSearchMode
            || action is EnterBodyInputMode || action is ExitBodyInputMode
            || action is EnterConfirmClearTokenMode || action is ExitConfirmClearTokenMode
            || action is SetActiveUrlField || action is AppendToUrlInput || action is AppendToBaseUrlInput
            || action is AppendToTokenInput || action is AppendToBodyInput || action is ClearUrlInput
            || action is ClearBaseUrlInput || action is ClearTokenInput || action is ClearBodyInput
            || action is BackspaceUrlInput || action is BackspaceBaseUrlInput
            || action is BackspaceTokenInput || action is BackspaceBodyInput
            || action is DeleteWordUrlInput || action is DeleteWordBaseUrlInput
            || action is DeleteWordTokenInput,
    ensures
        final(state).wf(),
        action_effect(action, *old(state), *final(state)),
{
    let ghost a = action;
    match action {
        AppAction::EnterUrlInputMode { swagger_url, base_url } => {
            state.input.mode = InputMode::EnteringUrl;
            state.input.url_input = match swagger_url {
                Some(s) => s,
                None => String::new(),
            };
            state.input.base_url_input = match base_url {
                Some(s) => s,
                None => String::new(),
            };
            state.input.active_url_field = UrlInputField::SwaggerUrl;
            assert(action_effect(a, *old(state), *state));
        },
        AppAction::ExitUrlInputMode => {
            state.input.mode = InputMode::Normal;
            state.input.url_input = String::new();
            state.input.base_url_input = String::new();
            assert(action_effect(a, *old(state), *state));
        },
        AppAction::EnterTokenInputMode => {
            state.input.mode = InputMode::EnteringToken;
            state.input.token_input = String::new();
            assert(action_effect(a, *old(state), *state));
        },
        AppAction::ExitTokenInputMode => {
            state.input.mode = InputMode::Normal;
            state.input.token_input = String::new();
            assert(action_effect(a, *old(state), *state));
        },
        AppAction::EnterSearchMode => {
            state.input.mode = InputMode::Searching;
            if state.search.query.as_str().is_empty() {
                state.search.query = String::new();
            }
            assert(state.search.query@ == old(state).search.query@);
            assert(state.search == SearchState { query: state.search.query, ..old(state).search });
            assert(state.input == InputState { mode: InputMode::Searching, ..old(state).input });
            assert(action_effect(a, *old(state), *state));
        },
        AppAction::ExitSearchMode => {
            state.input.mode = InputMode::Normal;
            assert(action_effect(a, *old(state), *state));
        },
        AppAction::EnterBodyInputMode => {
            state.input.mode = InputMode::EnteringBody;
            assert(action_effect(a, *old(state), *state));
        },
        AppAction::ExitBodyInputMode => {
            state.input.mode = InputMode::Normal;
            state.input.body_editor.clear();
            assert(action_effect(a, *old(state), *state));
        },
        AppAction::EnterConfirmClearTokenMode => {
            state.input.mode = InputMode::ConfirmClearToken;
            assert(action_effect(a, *old(state), *state));
        },
        AppAction::ExitConfirmClearTokenMode => {
            state.input.mode = InputMode::Normal;
            assert(action_effect(a, *old(state), *state));
        },
        AppAction::SetActiveUrlField(field) => {
            state.input.active_url_field = field;
            assert(action_effect(a, *old(state), *state));
        },
        AppAction::AppendToUrlInput(text) => {
            push_text(&mut state.input.url_input, text.as_str());
            assert(action_effect(a, *old(state), *state));
        },
        AppAction::AppendToBaseUrlInput(text) => {
            push_text(&mut state.input.base_url_input, text.as_str());
            assert(action_effect(a, *old(state), *state));
        },
        AppAction::AppendToTokenInput(text) => {
            push_text(&mut state.input.token_input, text.as_str());
            assert(action_effect(a, *old(state), *state));
        },
        AppAction::AppendToBodyInput(text) => {
            state.input.body_editor.insert_str(text.as_str());
            assert(action_effect(a, *old(state), *state));
        },
        AppAction::ClearUrlInput => {
            state.input.url_input = String::new();
            assert(action_effect(a, *old(state), *state));
        },
        AppAction::ClearBaseUrlInput => {
            state.input.base_url_input = String::new();
            assert(action_effect(a, *old(state), *state));
        },
        AppAction::ClearTokenInput => {
            state.input.token_input = String::new();
            assert(action_effect(a, *old(state), *state));
        },
        AppAction::ClearBodyInput => {
            state.input.body_editor.clear();
            assert(action_effect(a, *old(state), *state));
        },
        AppAction::BackspaceUrlInput => {
            pop_char(&mut state.input.url_input);
            assert(action_effect(a, *old(state), *state));
        },
        AppAction::BackspaceBaseUrlInput => {
            pop_char(&mut state.input.base_url_input);
            assert(action_effect(a, *old(state), *state));
        },
        AppAction::BackspaceTokenInput => {
            pop_char(&mut state.input.token_input);
            assert(action_effect(a, *old(state), *state));
        },
        AppAction::BackspaceBodyInput => {
            state.input.body_editor.delete_char_before_cursor();
            assert(action_effect(a, *old(state), *state));
        },
        AppAction::DeleteWordUrlInput => {
            delete_word(&mut state.input.url_input);
            assert(action_effect(a, *old(state), *state));
        },
        AppAction::DeleteWordBaseUrlInput => {
            delete_word(&mut state.input.base_url_input);
            assert(action_effect(a, *old(state), *state));
        },
        AppAction::DeleteWordTokenInput => {
            delete_word(&mut state.input.token_input);
            assert(action_effect(a, *old(state), *state));
        },
        _ => {},
    }
}

fn apply_request(action: AppAction, state: &mut AppState)
    requires
        action is StartEditingParameter || action is AppendToParamBuffer || action is BackspaceParamBuffer
            || action is ClearParamBuffer || action is ConfirmParameterEdit || action is CancelParameterEdit
            || action is SetAuthToken || action is ClearAuthToken || action is SetErrorResponse
            || action is ClearResponse || action is AppendToSearchQuery || action is ClearSearchQuery
            || action is BackspaceSearchQuery,
    ensures
        action_effect(action, *old(state), *final(state)),
{
    match action {
        AppAction::AppendToSearchQuery(text) => {
            push_text(&mut state.search.query, text.as_str());
        },
        AppAction::ClearSearchQuery => {
            state.search.query = String::new();
        },
        AppAction::BackspaceSearchQuery => {
            pop_char(&mut state.search.query);
        },
        AppAction::StartEditingParameter { param_name, endpoint_path } => {
            let value = match state.request.configs.get(endpoint_path.as_str()) {
                Some(config) => match config.path_params.get(param_name.as_str()) {
                    Some(v) => v.clone(),
                    None => match config.query_params.get(param_name.as_str()) {
                        Some(v) => v.clone(),
                        None => String::new(),
                    },
                },
                None => String::new(),
            };
            proof {
                lemma_index_of_key(state.request.configs@, endpoint_path@);
            }
            state.request.edit_mode = RequestEditMode::Editing(param_name);
            state.request.param_edit_buffer = value;
        },
        AppAction::AppendToParamBuffer(text) => {
            push_text(&mut state.request.param_edit_buffer, text.as_str());
        },
        AppAction::BackspaceParamBuffer => {
            pop_char(&mut state.request.param_edit_buffer);
        },
        AppAction::ClearParamBuffer => {
            state.request.param_edit_buffer = String::new();
        },
        AppAction::ConfirmParameterEdit { endpoint_path } => {
            let editing = match &state.request.edit_mode {
                RequestEditMode::Editing(name) => Some(name.clone()),
                RequestEditMode::Viewing => None,
            };
            match editing {
                Some(param_name) => {
                    let buffer_value = state.request.param_edit_buffer.clone();
                    let is_path = match state.get_selected_endpoint_by_path(endpoint_path.as_str()) {
                        Some(endpoint) => has_path_param(&endpoint.parameters, param_name.as_str()),
                        None => false,
                    };
                    proof {
                        lemma_index_of_path(state.data.endpoints@, endpoint_path@);
                        lemma_index_of_key(state.request.configs@, endpoint_path@);
                    }
                    let ghost pre = *state;
                    let config = state.get_or_create_request_config_by_path(endpoint_path.as_str());
                    if is_path {
                        config.path_params.insert(param_name, buffer_value);
                    } else {
                        config.query_params.insert(param_name, buffer_value);
                    }
                },
                None => {},
            }
            state.request.edit_mode = RequestEditMode::Viewing;
            state.request.param_edit_buffer = String::new();
        },
        AppAction::CancelParameterEdit => {
            state.request.edit_mode = RequestEditMode::Viewing;
            state.request.param_edit_buffer = String::new();
        },
        AppAction::SetAuthToken(token) => {
            state.request.auth.set_token(token);
        },
        AppAction::ClearAuthToken => {
            state.request.auth.clear_token();
        },
        AppAction::SetErrorResponse(error_msg) => {
            state.request.current_response = Some(ApiResponse::error(error_msg));
        },
        AppAction::ClearResponse => {
            state.request.current_response = None;
        },
        _ => {},
    }
}

/// Applies `action` to the state; what each action does is `action_effect`.
pub fn apply_action(action: AppAction, state: &mut AppState)
    requires
        old(state).wf(),
    ensures
        final(state).wf(),
        action_effect(action, *old(state), *final(state)),
{
    match action {
        AppAction::NavigateUp | AppAction::NavigateDown | AppAction::NavigateToPanel(_)
        | AppAction::NavigateToTab(_) | AppAction::NavigateTabForward | AppAction::NavigateTabBackward
        | AppAction::NavigateParamUp | AppAction::NavigateParamDown | AppAction::ToggleViewMode
        | AppAction::ToggleGroupExpanded(_) | AppAction::ResetParamIndex
        | AppAction::ToggleBodySection => apply_ui(action, state),
        AppAction::StartEditingParameter { .. } | AppAction::AppendToParamBuffer(_)
        | AppAction::BackspaceParamBuffer | AppAction::ClearParamBuffer
        | AppAction::ConfirmParameterEdit { .. } | AppAction::CancelParameterEdit
        | AppAction::SetAuthToken(_) | AppAction::ClearAuthToken | AppAction::SetErrorResponse(_)
        | AppAction::ClearResponse | AppAction::AppendToSearchQuery(_) | AppAction::ClearSearchQuery
        | AppAction::BackspaceSearchQuery => apply_request(action, state),
        _ => apply_input(action, state),
    }
}

/// Law: toggling the view mode twice gives back the state it started from.
pub proof fn law_toggle_view_mode_twice(s: AppState, t: AppState, u: AppState)
    requires
        action_effect(AppAction::ToggleViewMode, s, t),
        action_effect(AppAction::ToggleViewMode, t, u),
    ensures
        u == s,
{
}

/// Law: toggling a group twice gives back the set of expanded groups it
/// started from.
pub proof fn law_toggle_group_twice(name: String, s: AppState, t: AppState, u: AppState)
    requires
        action_effect(AppAction::ToggleGroupExpanded(name), s, t),
        action_effect(AppAction::ToggleGroupExpanded(name), t, u),
    ensures
        string_set(u.ui.expanded_groups@) == string_set(s.ui.expanded_groups@),
        u.ui.view_mode == s.ui.view_mode,
{
    let a = string_set(s.ui.expanded_groups@);
    if a.contains(name@) {
        assert(a.remove(name@).insert(name@) =~= a);
    } else {
        assert(a.insert(name@).remove(name@) =~= a);
    }
}

/// Law: Tab goes round five places, the list and the four tabs of the
/// details panel, and comes back to the list on the first tab.
pub proof fn law_tab_forward_cycle(ui: UiState)
    requires
        ui.panel_focus == PanelFocus::EndpointsList,
        ui.active_detail_tab == DetailTab::Endpoint,
    ensures
        ({
            let u1 = tab_forward(ui);
            let u2 = tab_forward(u1);
            let u3 = tab_forward(u2);
            let u4 = tab_forward(u3);
            let u5 = tab_forward(u4);
            &&& (u1.panel_focus, u1.active_detail_tab) == (PanelFocus::Details, DetailTab::Endpoint)
            &&& (u2.panel_focus, u2.active_detail_tab) == (PanelFocus::Details, DetailTab::Request)
            &&& (u3.panel_focus, u3.active_detail_tab) == (PanelFocus::Details, DetailTab::Headers)
            &&& (u4.panel_focus, u4.active_detail_tab) == (PanelFocus::Details, DetailTab::Response)
            &&& (u5.panel_focus, u5.active_detail_tab) == (PanelFocus::EndpointsList, DetailTab::Endpoint)
        }),
{
}

/// Law: from the list, Tab and Shift+Tab both go to the details panel and
/// keep the tab that was active there.
pub proof fn law_tab_from_list_keeps_tab(ui: UiState)
    requires
        ui.panel_focus == PanelFocus::EndpointsList,
    ensures
        tab_forward(ui) == (UiState { panel_focus: PanelFocus::Details, ..ui }),
        tab_backward(ui) == (UiState { panel_focus: PanelFocus::Details, ..ui }),
{
}

/// Law: in the details panel, Shift+Tab followed by Tab comes back to the
/// same panel and tab.
pub proof fn law_tab_backward_then_forward(ui: UiState)
    requires
        ui.panel_focus == PanelFocus::Details,
    ensures
        tab_forward(tab_backward(ui)).panel_focus == ui.panel_focus,
        tab_forward(tab_backward(ui)).active_detail_tab == ui.active_detail_tab,
{
}

/// Law: backspace takes back a character just typed into a text field.
pub proof fn law_append_then_backspace(c: String, s: AppState, t: AppState, u: AppState)
    requires
        c@.len() == 1,
        action_effect(AppAction::AppendToUrlInput(c), s, t),
        action_effect(AppAction::BackspaceUrlInput, t, u),
    ensures
        u.input.url_input@ == s.input.url_input@,
        u.input.mode == s.input.mode,
{
    assert((s.input.url_input@ + c@).drop_last() =~= s.input.url_input@);
}

/// Law: after a parameter edit is confirmed, editing the same parameter of
/// the same endpoint again starts from the confirmed value. (A query
/// parameter's value is shown from the path values first, so for a query
/// parameter the endpoint's path values must not hold the same name.)
pub proof fn law_confirmed_value_is_read_back(
    s: AppState,
    t: AppState,
    u: AppState,
    path: String,
    name: String,
    path2: String,
    name2: String,
)
    requires
        s.request.edit_mode == RequestEditMode::Editing(name),
        action_effect(AppAction::ConfirmParameterEdit { endpoint_path: path }, s, t),
        action_effect(AppAction::StartEditingParameter { param_name: name2, endpoint_path: path2 }, t, u),
        name2@ == name@,
        path2@ == path@,
        ({
            let cs = s.request.configs@;
            let i = index_of_key(cs, path@);
            i < cs.len() ==> {
                &&& crate::strmap::keys_unique(cs[i].1.path_params)
                &&& crate::strmap::keys_unique(cs[i].1.query_params)
                &&& (!is_path_param(s, path@, name@) ==> !crate::strmap::has_key(
                    cs[i].1.path_params,
                    name@,
                ))
            }
        }),
    ensures
        u.request.param_edit_buffer@ == s.request.param_edit_buffer@,
        u.request.edit_mode == RequestEditMode::Editing(name2),
{
    let cs = s.request.configs@;
    let k = path@;
    let n = name@;
    let v = s.request.param_edit_buffer@;
    let as_path = is_path_param(s, k, n);
    lemma_index_of_key(cs, k);
    let i = index_of_key(cs, k);
    let c = if i < cs.len() {
        cs[i].1
    } else {
        ConfigView { query_params: seq![], path_params: seq![], body: None }
    };
    let ts = t.request.configs@;
    assert(ts == store_param(cs, k, n, v, as_path));
    lemma_index_of_key(ts, k);
    if i < cs.len() {
        assert(ts[i].0 == k);
        assert(index_of_key(ts, k) <= i);
        assert forall|j: int| 0 <= j < i implies ts[j].0 != k by {
            assert(ts[j] == cs[j]);
        }
    } else {
        assert(ts[cs.len() as int].0 == k);
        assert forall|j: int| 0 <= j < cs.len() implies ts[j].0 != k by {
            assert(ts[j] == cs[j]);
        }
    }
    assert(index_of_key(ts, k) == i);
    if as_path {
        crate::strmap::lemma_insert_entry_unique(c.path_params, n, v);
    } else {
        crate::strmap::lemma_insert_entry_unique(c.query_params, n, v);
    }
}

} // verus!
