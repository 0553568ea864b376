//! What a key press does, in each input mode: the decisions of the event
//! loop. The loop itself (reading keys, running requests, the clipboard)
//! belongs to the program around the library.
use vstd::prelude::*;
use crate::actions::{action_effect, apply_action, push_text, AppAction};
use crate::editing::{
    apply_or_char, handle_request_param_confirm, handle_request_param_edit, handle_search_activate,
    handle_search_clear, handle_search_input, is_editing, param_confirm_effect, param_edit_effect,
    search_clear_effect, search_input_effect,
};
use crate::editor::KeyInput;
use crate::execution::{enter_effect, handle_enter, handle_retry, retry_effect};
use crate::modals::{
    auth_dialog_effect, body_dialog_effect, body_input_effect, clear_confirmation_effect,
    handle_auth_dialog, handle_body_dialog, handle_body_input, handle_clear_confirmation,
    handle_token_input, handle_url_dialog, handle_url_input, token_input_effect, url_input_effect,
};
use crate::navigation::{
    handle_down, handle_request_param_down, handle_request_param_up, handle_response_line_down,
    handle_response_line_up, handle_toggle_view, handle_up, list_down_effect, list_up_effect,
    param_down_effect, param_up_effect, response_down_effect, response_up_effect,
    RESPONSE_VIEWPORT,
};
use crate::state::{selected_endpoint, AppState, RequestState};
use crate::text::char_string;
use crate::types::{
    is_body_method, upper, ApiEndpoint, DetailTab, InputMode, PanelFocus, UrlSubmission,
};
use crate::yank::{yank_response_line, yank_text};

verus! {

/// The event loop's own state: whether to quit, and the selected row.
#[derive(Debug)]
pub struct EventHandler {
    pub should_quit: bool,
    pub selected_index: usize,
}

/// What a key press asks of the program around the library.
#[derive(Debug)]
pub struct KeyOutcome {
    /// Fetch the specification again.
    pub fetch: bool,
    /// URLs submitted in the URL dialog.
    pub submitted: Option<UrlSubmission>,
    /// An endpoint whose request is to be run.
    pub run: Option<ApiEndpoint>,
    /// Text to copy to the clipboard.
    pub yank: Option<String>,
}

/// Nothing is asked of the program.
pub open spec fn quiet(o: KeyOutcome) -> bool {
    !o.fetch && o.submitted is None && o.run is None && o.yank is None
}

/// The characters that, while a parameter is being edited, are typed into
/// it instead of acting as commands in the normal mode.
pub open spec fn command_char(c: char) -> bool {
    c == 'q' || c == 'j' || c == 'k' || c == 'a' || c == 'b' || c == 'e' || c == 'g' || c == ','
        || c == '/' || c == 'x' || c == 'y' || c == ' ' || c == '1' || c == '2'
}

/// `post` is `pre` with `c` typed into the parameter being edited.
pub open spec fn typed_into_param(pre: AppState, post: AppState, c: char) -> bool {
    &&& post.data == pre.data && post.ui == pre.ui && post.input == pre.input && post.search == pre.search
    &&& post.request == RequestState { param_edit_buffer: post.request.param_edit_buffer, ..pre.request }
    &&& post.request.param_edit_buffer@ == pre.request.param_edit_buffer@.push(c)
}

/// Whether the Details panel has focus on the tab `t`.
pub open spec fn on_tab(s: AppState, t: DetailTab) -> bool {
    s.ui.panel_focus == PanelFocus::Details && s.ui.active_detail_tab == t
}

/// Whether the endpoint at `sel` sends a body.
pub open spec fn selected_sends_body(s: AppState, sel: usize) -> bool {
    selected_endpoint(s, sel as int) matches Some(e) && is_body_method(upper(e.method))
}

/// `o` asks only for `yank`-like copying of `t`, if any.
pub open spec fn yanks(o: KeyOutcome, t: Option<Seq<char>>) -> bool {
    &&& !o.fetch && o.submitted is None && o.run is None
    &&& match t {
        Some(x) => o.yank matches Some(y) && y@ == x,
        None => o.yank is None,
    }
}

/// What a key does in the normal mode, `h` and `g` being the handler before
/// and after, `o` the outcome.
pub open spec fn normal_key_effect(
    key: KeyInput,
    pre: AppState,
    post: AppState,
    h: EventHandler,
    g: EventHandler,
    base_url: Option<String>,
    swagger_url: Option<String>,
    o: KeyOutcome,
) -> bool {
    let editing = pre.request.edit_mode is Editing;
    let sel = h.selected_index;
    let stays = g.selected_index == sel && g.should_quit == h.should_quit;
    match key {
        KeyInput::Char { c, ctrl } => if command_char(c) && editing {
            stays && quiet(o) && typed_into_param(pre, post, c)
        } else if c == 'q' {
            post == pre && g.selected_index == sel && g.should_quit && quiet(o)
        } else if c == 'j' {
            &&& quiet(o) && g.should_quit == h.should_quit
            &&& match pre.ui.panel_focus {
                PanelFocus::EndpointsList => list_down_effect(pre, post, sel, g.selected_index),
                PanelFocus::Details => g.selected_index == sel && if pre.ui.active_detail_tab
                    == DetailTab::Request {
                    param_down_effect(pre, post, sel)
                } else if pre.ui.active_detail_tab == DetailTab::Response {
                    response_down_effect(pre, post)
                } else {
                    post == pre
                },
            }
        } else if c == 'k' {
            &&& quiet(o) && g.should_quit == h.should_quit
            &&& match pre.ui.panel_focus {
                PanelFocus::EndpointsList => list_up_effect(pre, post, sel, g.selected_index),
                PanelFocus::Details => g.selected_index == sel && if pre.ui.active_detail_tab
                    == DetailTab::Request {
                    param_up_effect(pre, post)
                } else if pre.ui.active_detail_tab == DetailTab::Response {
                    response_up_effect(pre, post)
                } else {
                    post == pre
                },
            }
        } else if c == 'a' {
            stays && quiet(o) && auth_dialog_effect(pre, post)
        } else if c == 'b' {
            stays && quiet(o) && if on_tab(pre, DetailTab::Request) && selected_sends_body(pre, sel) {
                body_dialog_effect(pre, post, sel)
            } else {
                post == pre
            }
        } else if c == 'e' {
            stays && quiet(o) && if on_tab(pre, DetailTab::Request) {
                param_edit_effect(pre, post, sel)
            } else {
                post == pre
            }
        } else if c == 'g' {
            &&& quiet(o) && g.should_quit == h.should_quit && g.selected_index == 0
            &&& action_effect(AppAction::ToggleViewMode, pre, post)
        } else if c == ',' {
            &&& stays && quiet(o)
            &&& action_effect(
                AppAction::EnterUrlInputMode { swagger_url: swagger_url, base_url: base_url },
                pre,
                post,
            )
        } else if c == '/' {
            stays && quiet(o) && action_effect(AppAction::EnterSearchMode, pre, post)
        } else if c == 'x' {
            stays && quiet(o) && if on_tab(pre, DetailTab::Request) && selected_sends_body(pre, sel) {
                action_effect(AppAction::ToggleBodySection, pre, post)
            } else {
                post == pre
            }
        } else if c == 'y' {
            stays && post == pre && yanks(
                o,
                if on_tab(pre, DetailTab::Response) {
                    yank_text(pre)
                } else {
                    None
                },
            )
        } else if c == ' ' {
            &&& g.should_quit == h.should_quit
            &&& !o.fetch && o.submitted is None && o.yank is None
            &&& enter_effect(pre, post, sel, g.selected_index, base_url is Some, o.run)
        } else if c == '1' {
            stays && quiet(o) && action_effect(AppAction::NavigateToPanel(PanelFocus::EndpointsList), pre, post)
        } else if c == '2' {
            stays && quiet(o) && action_effect(AppAction::NavigateToPanel(PanelFocus::Details), pre, post)
        } else if c == 'A' && !editing {
            stays && quiet(o) && action_effect(AppAction::EnterConfirmClearTokenMode, pre, post)
        } else if ctrl && c == 'r' {
            &&& stays && o.submitted is None && o.run is None && o.yank is None
            &&& retry_effect(pre, post, o.fetch)
        } else if ctrl && c == 'l' {
            &&& g.should_quit == h.should_quit && quiet(o)
            &&& search_clear_effect(pre, post, sel, g.selected_index)
        } else if !ctrl && on_tab(pre, DetailTab::Request) && editing {
            stays && quiet(o) && typed_into_param(pre, post, c)
        } else {
            stays && quiet(o) && post == pre
        },
        KeyInput::Tab => stays && quiet(o) && action_effect(AppAction::NavigateTabForward, pre, post),
        KeyInput::BackTab => stays && quiet(o) && action_effect(AppAction::NavigateTabBackward, pre, post),
        KeyInput::Enter => stays && quiet(o) && if on_tab(pre, DetailTab::Request) && editing {
            param_confirm_effect(pre, post, sel)
        } else {
            post == pre
        },
        KeyInput::Backspace => stays && quiet(o) && if on_tab(pre, DetailTab::Request) && editing {
            action_effect(AppAction::BackspaceParamBuffer, pre, post)
        } else {
            post == pre
        },
        KeyInput::Esc => g.should_quit == h.should_quit && quiet(o) && if on_tab(pre, DetailTab::Request) && editing {
            g.selected_index == sel && action_effect(AppAction::CancelParameterEdit, pre, post)
        } else {
            search_clear_effect(pre, post, sel, g.selected_index)
        },
        KeyInput::Up => {
            &&& quiet(o) && g.should_quit == h.should_quit
            &&& if editing {
                post == pre && g.selected_index == sel
            } else {
                match pre.ui.panel_focus {
                    PanelFocus::EndpointsList => list_up_effect(pre, post, sel, g.selected_index),
                    PanelFocus::Details => g.selected_index == sel && if pre.ui.active_detail_tab
                        == DetailTab::Request {
                        param_up_effect(pre, post)
                    } else {
                        post == pre
                    },
                }
            }
        },
        KeyInput::Down => {
            &&& quiet(o) && g.should_quit == h.should_quit
            &&& if editing {
                post == pre && g.selected_index == sel
            } else {
                match pre.ui.panel_focus {
                    PanelFocus::EndpointsList => list_down_effect(pre, post, sel, g.selected_index),
                    PanelFocus::Details => g.selected_index == sel && if pre.ui.active_detail_tab
                        == DetailTab::Request {
                        param_down_effect(pre, post, sel)
                    } else {
                        post == pre
                    },
                }
            }
        },
        _ => stays && quiet(o) && post == pre,
    }
}

/// What a key does, by input mode (see each dialog's and the normal mode's effect).
pub open spec fn key_effect_on_app(
    key: KeyInput,
    pre: AppState,
    post: AppState,
    h: EventHandler,
    g: EventHandler,
    base_url: Option<String>,
    swagger_url: Option<String>,
    o: KeyOutcome,
) -> bool {
    let stays = g.selected_index == h.selected_index && g.should_quit == h.should_quit;
    match pre.input.mode {
        InputMode::EnteringUrl => {
            &&& stays && !o.fetch && o.run is None && o.yank is None
            &&& url_input_effect(key, pre, post, o.submitted)
        },
        InputMode::EnteringToken => stays && quiet(o) && token_input_effect(key, pre, post),
        InputMode::ConfirmClearToken => stays && quiet(o) && clear_confirmation_effect(key, pre, post),
        InputMode::Searching => {
            &&& quiet(o) && g.should_quit == h.should_quit
            &&& search_input_effect(key, pre, post, h.selected_index, g.selected_index)
        },
        InputMode::EnteringBody => stays && quiet(o) && body_input_effect(key, pre, post, h.selected_index),
        InputMode::Normal => normal_key_effect(key, pre, post, h, g, base_url, swagger_url, o),
    }
}

/// Whether a key starts typed text, which may come with more characters
/// at once (a paste): a character without Control in the URL and body
/// dialogs; in the token dialog, any character but Ctrl+L and Ctrl+W.
pub open spec fn starts_typing(mode: InputMode, key: KeyInput) -> bool {
    match key {
        KeyInput::Char { c, ctrl } => match mode {
            InputMode::EnteringUrl | InputMode::EnteringBody => !ctrl,
            InputMode::EnteringToken => !(ctrl && (c == 'l' || c == 'w')),
            _ => false,
        },
        _ => false,
    }
}

/// Decides `starts_typing`.
pub fn typing_starts(mode: InputMode, key: KeyInput) -> (r: bool)
    ensures
        r == starts_typing(mode, key),
{
    match key {
        KeyInput::Char { c, ctrl } => match mode {
            InputMode::EnteringUrl | InputMode::EnteringBody => !ctrl,
            InputMode::EnteringToken => !(ctrl && (c == 'l' || c == 'w')),
            _ => false,
        },
        _ => false,
    }
}

/// What text typed at once does in the current dialog.
pub open spec fn typed_text_effect(text: Seq<char>, pre: AppState, post: AppState) -> bool {
    match pre.input.mode {
        InputMode::EnteringUrl => {
            &&& crate::modals::input_only(pre, post)
            &&& crate::modals::with_active_url_text(pre.input, post.input, crate::modals::active_url_text(pre.input) + text)
        },
        InputMode::EnteringToken => crate::modals::with_token_text(pre, post, pre.input.token_input@ + text),
        InputMode::EnteringBody => crate::modals::body_paste_effect(text, pre, post),
        _ => post == pre,
    }
}

/// Text typed at once (see `typed_text_effect`).
pub fn handle_typed_text(text: &str, state: &mut AppState)
    requires
        old(state).wf(),
    ensures
        final(state).wf(),
        typed_text_effect(text@, *old(state), *final(state)),
{
    match state.input.mode {
        InputMode::EnteringUrl => crate::modals::handle_url_paste(text, state),
        InputMode::EnteringToken => crate::modals::handle_token_paste(text, state),
        InputMode::EnteringBody => crate::modals::handle_body_paste(text, state),
        _ => {},
    }
}

/// Nothing asked of the program.
fn no_outcome() -> (o: KeyOutcome)
    ensures
        quiet(o),
{
    KeyOutcome { fetch: false, submitted: None, run: None, yank: None }
}

/// Types `c` into the parameter being edited.
fn type_into_param(state: &mut AppState, c: char)
    ensures
        typed_into_param(*old(state), *final(state), c),
{
    let ghost before = state.request.param_edit_buffer@;
    push_text(&mut state.request.param_edit_buffer, char_string(c).as_str());
    assert(state.request.param_edit_buffer@ =~= before.push(c));
}

/// Whether the endpoint at `sel` sends a body.
fn sends_body(state: &AppState, sel: usize) -> (r: bool)
    ensures
        r == selected_sends_body(*state, sel),
{
    match state.get_selected_endpoint(sel) {
        Some(e) => e.supports_body(),
        None => false,
    }
}

impl EventHandler {
    /// Not quitting, the first row selected.
    pub fn new() -> (h: Self)
        ensures
            !h.should_quit,
            h.selected_index == 0,
    {
        EventHandler { should_quit: false, selected_index: 0 }
    }

    /// The normal mode.
    fn handle_normal_key(
        &mut self,
        key: KeyInput,
        state: &mut AppState,
        base_url: Option<String>,
        swagger_url: Option<String>,
    ) -> (o: KeyOutcome)
        requires
            old(state).wf(),
            old(state).ui.response_scroll + RESPONSE_VIEWPORT <= usize::MAX,
            old(state).data.loading_state is Error ==> old(state).data.retry_count < u32::MAX,
        ensures
            final(state).wf(),
            normal_key_effect(key, *old(state), *final(state), *old(self), *final(self), base_url, swagger_url, o),
    {
        let editing = is_editing(state);
        let details = matches!(state.ui.panel_focus, PanelFocus::Details);
        let on_request = details && matches!(state.ui.active_detail_tab, DetailTab::Request);
        let on_response = details && matches!(state.ui.active_detail_tab, DetailTab::Response);
        match key {
            KeyInput::Char { c, ctrl } => {
                let command = c == 'q' || c == 'j' || c == 'k' || c == 'a' || c == 'b' || c == 'e'
                    || c == 'g' || c == ',' || c == '/' || c == 'x' || c == 'y' || c == ' ' || c == '1'
                    || c == '2';
                if command && editing {
                    type_into_param(state, c);
                } else if c == 'q' {
                    self.should_quit = true;
                } else if c == 'j' {
                    if !details {
                        handle_down(&mut self.selected_index, state);
                    } else if on_request {
                        handle_request_param_down(self.selected_index, state);
                    } else if on_response {
                        handle_response_line_down(state);
                    }
                } else if c == 'k' {
                    if !details {
                        handle_up(&mut self.selected_index, state);
                    } else if on_request {
                        handle_request_param_up(state);
                    } else if on_response {
                        handle_response_line_up(state);
                    }
                } else if c == 'a' {
                    handle_auth_dialog(state);
                } else if c == 'b' {
                    if on_request && sends_body(state, self.selected_index) {
                        handle_body_dialog(state, self.selected_index);
                    }
                } else if c == 'e' {
                    if on_request {
                        handle_request_param_edit(self.selected_index, state);
                    }
                } else if c == 'g' {
                    handle_toggle_view(&mut self.selected_index, state);
                } else if c == ',' {
                    handle_url_dialog(state, swagger_url, base_url);
                } else if c == '/' {
                    handle_search_activate(state);
                } else if c == 'x' {
                    if on_request && sends_body(state, self.selected_index) {
                        apply_action(AppAction::ToggleBodySection, state);
                    }
                } else if c == 'y' {
                    if on_response {
                        return KeyOutcome { fetch: false, submitted: None, run: None, yank: yank_response_line(state) };
                    }
                } else if c == ' ' {
                    let run = handle_enter(&mut self.selected_index, state, base_url.is_some());
                    return KeyOutcome { fetch: false, submitted: None, run, yank: None };
                } else if c == '1' {
                    apply_or_char(state, '1', AppAction::NavigateToPanel(PanelFocus::EndpointsList));
                } else if c == '2' {
                    apply_or_char(state, '2', AppAction::NavigateToPanel(PanelFocus::Details));
                } else if c == 'A' && !editing {
                    apply_action(AppAction::EnterConfirmClearTokenMode, state);
                } else if ctrl && c == 'r' {
                    let fetch = handle_retry(state);
                    return KeyOutcome { fetch, submitted: None, run: None, yank: None };
                } else if ctrl && c == 'l' {
                    handle_search_clear(&mut self.selected_index, state);
                } else if !ctrl && on_request && editing {
                    type_into_param(state, c);
                }
            },
            KeyInput::Tab => {
                apply_action(AppAction::NavigateTabForward, state);
            },
            KeyInput::BackTab => {
                apply_action(AppAction::NavigateTabBackward, state);
            },
            KeyInput::Enter => {
                if on_request && editing {
                    handle_request_param_confirm(self.selected_index, state);
                }
            },
            KeyInput::Backspace => {
                if on_request && editing {
                    apply_action(AppAction::BackspaceParamBuffer, state);
                }
            },
            KeyInput::Esc => {
                if on_request && editing {
                    apply_action(AppAction::CancelParameterEdit, state);
                } else {
                    handle_search_clear(&mut self.selected_index, state);
                }
            },
            KeyInput::Up => {
                if !editing {
                    if !details {
                        handle_up(&mut self.selected_index, state);
                    } else if on_request {
                        handle_request_param_up(state);
                    }
                }
            },
            KeyInput::Down => {
                if !editing {
                    if !details {
                        handle_down(&mut self.selected_index, state);
                    } else if on_request {
                        handle_request_param_down(self.selected_index, state);
                    }
                }
            },
            _ => {},
        }
        no_outcome()
    }

    /// Handles one key press in the current input mode (see
    /// `key_effect_on_app`) and says what the program is to do next.
    pub fn handle_key(
        &mut self,
        key: KeyInput,
        state: &mut AppState,
        base_url: Option<String>,
        swagger_url: Option<String>,
    ) -> (o: KeyOutcome)
        requires
            old(state).wf(),
            old(state).ui.response_scroll + RESPONSE_VIEWPORT <= usize::MAX,
            old(state).data.loading_state is Error ==> old(state).data.retry_count < u32::MAX,
        ensures
            final(state).wf(),
            key_effect_on_app(key, *old(state), *final(state), *old(self), *final(self), base_url, swagger_url, o),
    {
        match state.input.mode {
            InputMode::EnteringUrl => {
                let submitted = handle_url_input(key, state);
                KeyOutcome { fetch: false, submitted, run: None, yank: None }
            },
            InputMode::EnteringToken => {
                handle_token_input(key, state);
                no_outcome()
            },
            InputMode::ConfirmClearToken => {
                handle_clear_confirmation(key, state);
                no_outcome()
            },
            InputMode::Searching => {
                handle_search_input(&mut self.selected_index, key, state);
                no_outcome()
            },
            InputMode::EnteringBody => {
                handle_body_input(key, state, self.selected_index);
                no_outcome()
            },
            InputMode::Normal => self.handle_normal_key(key, state, base_url, swagger_url),
        }
    }
}

} // verus!
