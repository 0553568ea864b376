//! The dialogs: URLs, bearer token, clearing the token, and the body editor.
use vstd::prelude::*;
use crate::actions::{
    action_effect, apply_action, input_with_text, pop_char, pop_last, push_text, AppAction,
    InputText,
};
use crate::config::{url_check, validate_url};
use crate::editor::{
    editor_with, empty_editor, insert_text, join_lines, key_effect, newline_effect,
    normalize_quotes, ContentType, EditorView, KeyInput,
};
use crate::execution::config_of;
use crate::json::{json_parse_error, json_pretty};
use crate::state::{
    index_of_key, lemma_index_of_key, selected_endpoint, AppState, InputState, RequestState,
};
use crate::text::{chars_of, char_string, slice_range, string_from_chars, trim, trim_chars};
use crate::types::{opt_view, ConfigView, InputMode, UrlInputField, UrlSubmission};

verus! {

/// `char::is_alphanumeric`: whether `c` is a Unicode letter or number.
pub uninterp spec fn alphanumeric(c: char) -> bool;

/// Calls `char::is_alphanumeric`; the contract claims the answer is the one
/// `alphanumeric` names.
#[verifier::external_body]
fn char_is_alphanumeric(c: char) -> (r: bool)
    ensures
        r == alphanumeric(c),
{
    c.is_alphanumeric()
}

/// Where Ctrl+W stops deleting.
pub enum WordBreak {
    /// A space, slash, colon or dot (URL fields).
    UrlSeparator,
    /// Any character that is not alphanumeric (token field).
    NotAlphanumeric,
}

/// Whether `c` is a break of kind `k`.
pub open spec fn is_break(k: WordBreak, c: char) -> bool {
    match k {
        WordBreak::UrlSeparator => c == ' ' || c == '/' || c == ':' || c == '.',
        WordBreak::NotAlphanumeric => !alphanumeric(c),
    }
}

/// Position of the last break of kind `k` in `s`, if any.
pub open spec fn last_break(s: Seq<char>, k: WordBreak) -> Option<int>
    decreases s.len(),
{
    if s.len() == 0 {
        None
    } else if is_break(k, s.last()) {
        Some(s.len() - 1)
    } else {
        last_break(s.drop_last(), k)
    }
}

/// Ctrl+W: the text up to (not including) its last break; empty without one.
pub open spec fn cut_word(s: Seq<char>, k: WordBreak) -> Seq<char> {
    match last_break(s, k) {
        Some(p) => s.take(p),
        None => seq![],
    }
}

proof fn lemma_last_break(s: Seq<char>, k: WordBreak)
    ensures
        last_break(s, k) matches Some(p) ==> 0 <= p < s.len(),
    decreases s.len(),
{
    if s.len() > 0 && !is_break(k, s.last()) {
        lemma_last_break(s.drop_last(), k);
    }
}

fn breaks(k: &WordBreak, c: char) -> (r: bool)
    ensures
        r == is_break(*k, c),
{
    match k {
        WordBreak::UrlSeparator => c == ' ' || c == '/' || c == ':' || c == '.',
        WordBreak::NotAlphanumeric => !char_is_alphanumeric(c),
    }
}

/// Computes `cut_word(s, k)`.
pub fn cut_word_text(s: &str, k: &WordBreak) -> (r: String)
    ensures
        r@ == cut_word(s@, *k),
{
    let cs = chars_of(s);
    let mut n = cs.len();
    assert(cs@.take(n as int) =~= cs@);
    while n > 0 && !breaks(k, cs[n - 1])
        invariant
            n <= cs@.len(),
            last_break(cs@, *k) == last_break(cs@.take(n as int), *k),
        decreases n,
    {
        assert(cs@.take(n as int).drop_last() =~= cs@.take(n - 1));
        n = n - 1;
    }
    if n == 0 {
        assert(cs@.take(0) =~= Seq::<char>::empty());
        String::new()
    } else {
        assert(cs@.take(n as int).last() == cs@[n - 1]);
        let t = slice_range(cs.as_slice(), 0, n - 1);
        string_from_chars(t.as_slice())
    }
}

/// The text of the URL field that has focus.
pub open spec fn active_url_text(i: InputState) -> Seq<char> {
    match i.active_url_field {
        UrlInputField::SwaggerUrl => i.url_input@,
        UrlInputField::BaseUrl => i.base_url_input@,
    }
}

/// `post` is `pre` with the URL field that has focus holding `t`.
pub open spec fn with_active_url_text(pre: InputState, post: InputState, t: Seq<char>) -> bool {
    match pre.active_url_field {
        UrlInputField::SwaggerUrl => {
            &&& input_with_text(pre, post, InputText::Url)
            &&& post.mode == pre.mode
            &&& post.url_input@ == t
        },
        UrlInputField::BaseUrl => {
            &&& input_with_text(pre, post, InputText::BaseUrl)
            &&& post.mode == pre.mode
            &&& post.base_url_input@ == t
        },
    }
}

/// Only the dialog input changes.
pub open spec fn input_only(pre: AppState, post: AppState) -> bool {
    post.data == pre.data && post.ui == pre.ui && post.request == pre.request && post.search
        == pre.search
}

/// Opens the URL dialog, its fields filled with the current URLs.
pub fn handle_url_dialog(state: &mut AppState, swagger_url: Option<String>, base_url: Option<String>)
    requires
        old(state).wf(),
    ensures
        final(state).wf(),
        action_effect(
            AppAction::EnterUrlInputMode { swagger_url: swagger_url, base_url: base_url },
            *old(state),
            *final(state),
        ),
{
    apply_action(AppAction::EnterUrlInputMode { swagger_url, base_url }, state);
}

fn set_active_url_text(state: &mut AppState, t: String)
    ensures
        input_only(*old(state), *final(state)),
        with_active_url_text(old(state).input, final(state).input, t@),
{
    match state.input.active_url_field {
        UrlInputField::SwaggerUrl => {
            state.input.url_input = t;
        },
        UrlInputField::BaseUrl => {
            state.input.base_url_input = t;
        },
    }
}

fn active_url_string(state: &AppState) -> (r: String)
    ensures
        r@ == active_url_text(state.input),
{
    match state.input.active_url_field {
        UrlInputField::SwaggerUrl => state.input.url_input.clone(),
        UrlInputField::BaseUrl => state.input.base_url_input.clone(),
    }
}

/// The submission the URL dialog makes of its fields, if any: both fields
/// trimmed; the Swagger URL must be non-empty and pass `url_check`, and so
/// must the base URL when it is non-empty. An empty base URL is none.
pub open spec fn url_submission(i: InputState) -> Option<(Seq<char>, Option<Seq<char>>)> {
    let su = trim(i.url_input@);
    let bu = trim(i.base_url_input@);
    if su.len() == 0 || url_check(su) is Err || (bu.len() > 0 && url_check(bu) is Err) {
        None
    } else {
        Some((su, if bu.len() == 0 { None } else { Some(bu) }))
    }
}

/// A key in the URL dialog, `r` being what it hands back. Tab moves between the fields; Enter submits
/// (see `url_submission`): the dialog closes, its fields are emptied and the
/// URLs are handed back; when it cannot submit, nothing changes. Esc closes
/// and empties the dialog; Backspace, Ctrl+W (word) and Ctrl+L (all) delete
/// from the field that has focus; a character without Control is typed.
pub open spec fn url_input_effect(key: KeyInput, pre_state: AppState, post_state: AppState, r: Option<UrlSubmission>) -> bool {
    let pre = pre_state.input;
    let post = post_state.input;
    &&& input_only(pre_state, post_state)
    &&& match key {
        KeyInput::Tab => r is None && post == InputState {
            active_url_field: match pre.active_url_field {
                UrlInputField::SwaggerUrl => UrlInputField::BaseUrl,
                UrlInputField::BaseUrl => UrlInputField::SwaggerUrl,
            },
            ..pre
        },
        KeyInput::Enter => match url_submission(pre) {
            Some((su, bu)) => {
                &&& r matches Some(sub)
                &&& r->Some_0.swagger_url@ == su
                &&& match bu {
                    Some(b) => r->Some_0.base_url matches Some(x) && x@ == b,
                    None => r->Some_0.base_url is None,
                }
                &&& post == InputState {
                    mode: InputMode::Normal,
                    url_input: post.url_input,
                    base_url_input: post.base_url_input,
                    active_url_field: UrlInputField::SwaggerUrl,
                    ..pre
                }
                &&& post.url_input@.len() == 0 && post.base_url_input@.len() == 0
            },
            None => r is None && post == pre,
        },
        KeyInput::Esc => {
            &&& r is None
            &&& post == InputState {
                mode: InputMode::Normal,
                url_input: post.url_input,
                base_url_input: post.base_url_input,
                active_url_field: UrlInputField::SwaggerUrl,
                ..pre
            }
            &&& post.url_input@.len() == 0 && post.base_url_input@.len() == 0
        },
        KeyInput::Backspace => r is None && with_active_url_text(pre, post, pop_last(active_url_text(pre))),
        KeyInput::Char { c, ctrl } => {
            &&& r is None
            &&& if !ctrl {
                with_active_url_text(pre, post, active_url_text(pre).push(c))
            } else if c == 'w' {
                with_active_url_text(pre, post, cut_word(active_url_text(pre), WordBreak::UrlSeparator))
            } else if c == 'l' {
                with_active_url_text(pre, post, seq![])
            } else {
                post == pre
            }
        },
        _ => r is None && post == pre,
    }
}

/// Handles a key in the URL dialog (see `url_input_effect`).
pub fn handle_url_input(key: KeyInput, state: &mut AppState) -> (r: Option<UrlSubmission>)
    ensures
        url_input_effect(key, *old(state), *final(state), r),
{
    match key {
        KeyInput::Tab => {
            state.input.active_url_field = match state.input.active_url_field {
                UrlInputField::SwaggerUrl => UrlInputField::BaseUrl,
                UrlInputField::BaseUrl => UrlInputField::SwaggerUrl,
            };
            None
        },
        KeyInput::Enter => {
            let su = string_from_chars(trim_chars(chars_of(state.input.url_input.as_str()).as_slice()).as_slice());
            let bu = string_from_chars(trim_chars(chars_of(state.input.base_url_input.as_str()).as_slice()).as_slice());
            if su.as_str().is_empty() {
                return None;
            }
            if validate_url(su.as_str()).is_err() {
                return None;
            }
            let base_empty = bu.as_str().is_empty();
            if !base_empty && validate_url(bu.as_str()).is_err() {
                return None;
            }
            state.input.mode = InputMode::Normal;
            state.input.url_input = String::new();
            state.input.base_url_input = String::new();
            state.input.active_url_field = UrlInputField::SwaggerUrl;
            Some(UrlSubmission { swagger_url: su, base_url: if base_empty { None } else { Some(bu) } })
        },
        KeyInput::Esc => {
            state.input.mode = InputMode::Normal;
            state.input.url_input = String::new();
            state.input.base_url_input = String::new();
            state.input.active_url_field = UrlInputField::SwaggerUrl;
            None
        },
        KeyInput::Backspace => {
            let mut t = active_url_string(state);
            pop_char(&mut t);
            set_active_url_text(state, t);
            None
        },
        KeyInput::Char { c, ctrl } => {
            if !ctrl {
                let mut t = active_url_string(state);
                let ghost before = t@;
                push_text(&mut t, char_string(c).as_str());
                assert(t@ =~= before.push(c));
                set_active_url_text(state, t);
            } else if c == 'w' {
                let t = active_url_string(state);
                set_active_url_text(state, cut_word_text(t.as_str(), &WordBreak::UrlSeparator));
            } else if c == 'l' {
                set_active_url_text(state, String::new());
            }
            None
        },
        _ => None,
    }
}

/// Characters typed at once into the URL dialog (a paste): appended to the
/// field that has focus.
pub fn handle_url_paste(text: &str, state: &mut AppState)
    ensures
        input_only(*old(state), *final(state)),
        with_active_url_text(old(state).input, final(state).input, active_url_text(old(state).input) + text@),
{
    let mut t = active_url_string(state);
    push_text(&mut t, text);
    set_active_url_text(state, t);
}

/// `post` is `pre` with the token field holding `t`.
pub open spec fn with_token_text(pre: AppState, post: AppState, t: Seq<char>) -> bool {
    &&& input_only(pre, post)
    &&& input_with_text(pre.input, post.input, InputText::Token)
    &&& post.input.mode == pre.input.mode
    &&& post.input.token_input@ == t
}

/// A key in the token dialog. Enter stores the trimmed token when it is not
/// empty, then closes and empties the dialog; Esc closes and empties it;
/// Backspace, Ctrl+L (all) and Ctrl+W (back to the last non-alphanumeric
/// character) delete; any other character is typed.
pub open spec fn token_input_effect(key: KeyInput, pre: AppState, post: AppState) -> bool {
    match key {
        KeyInput::Enter | KeyInput::Esc => {
            let t = trim(pre.input.token_input@);
            &&& post.data == pre.data && post.ui == pre.ui && post.search == pre.search
            &&& post.input == InputState { mode: InputMode::Normal, token_input: post.input.token_input, ..pre.input }
            &&& post.input.token_input@.len() == 0
            &&& if key is Enter && t.len() > 0 {
                &&& post.request == RequestState { auth: post.request.auth, ..pre.request }
                &&& post.request.auth.token matches Some(x) && x@ == t
            } else {
                post.request == pre.request
            }
        },
        KeyInput::Backspace => with_token_text(pre, post, pop_last(pre.input.token_input@)),
        KeyInput::Char { c, ctrl } => if ctrl && c == 'l' {
            with_token_text(pre, post, seq![])
        } else if ctrl && c == 'w' {
            with_token_text(pre, post, cut_word(pre.input.token_input@, WordBreak::NotAlphanumeric))
        } else {
            with_token_text(pre, post, pre.input.token_input@.push(c))
        },
        _ => post == pre,
    }
}

/// Handles a key in the token dialog (see `token_input_effect`).
pub fn handle_token_input(key: KeyInput, state: &mut AppState)
    ensures
        token_input_effect(key, *old(state), *final(state)),
{
    match key {
        KeyInput::Enter => {
            let t = string_from_chars(trim_chars(chars_of(state.input.token_input.as_str()).as_slice()).as_slice());
            if !t.as_str().is_empty() {
                state.request.auth.set_token(t);
            }
            state.input.mode = InputMode::Normal;
            state.input.token_input = String::new();
        },
        KeyInput::Esc => {
            state.input.mode = InputMode::Normal;
            state.input.token_input = String::new();
        },
        KeyInput::Backspace => {
            pop_char(&mut state.input.token_input);
        },
        KeyInput::Char { c, ctrl } => {
            if ctrl && c == 'l' {
                state.input.token_input = String::new();
            } else if ctrl && c == 'w' {
                state.input.token_input = cut_word_text(state.input.token_input.as_str(), &WordBreak::NotAlphanumeric);
            } else {
                let ghost before = state.input.token_input@;
                push_text(&mut state.input.token_input, char_string(c).as_str());
                assert(state.input.token_input@ =~= before.push(c));
            }
        },
        _ => {},
    }
}

/// Characters typed at once into the token dialog (a paste): appended.
pub fn handle_token_paste(text: &str, state: &mut AppState)
    ensures
        with_token_text(*old(state), *final(state), old(state).input.token_input@ + text@),
{
    push_text(&mut state.input.token_input, text);
}

/// A key in the dialog that asks whether to clear the token: `y` or `Y`
/// clears it and closes the dialog; `n`, `N` or Esc only close it.
pub open spec fn clear_confirmation_effect(key: KeyInput, pre: AppState, post: AppState) -> bool {
    let closes = InputState { mode: InputMode::Normal, ..pre.input };
    if key matches KeyInput::Char { c, .. } && (c == 'y' || c == 'Y') {
        &&& post.data == pre.data && post.ui == pre.ui && post.search == pre.search
        &&& post.input == closes
        &&& post.request == RequestState { auth: post.request.auth, ..pre.request }
        &&& post.request.auth.token is None
    } else if key is Esc || (key matches KeyInput::Char { c, .. } && (c == 'n' || c == 'N')) {
        post == AppState { input: closes, ..pre }
    } else {
        post == pre
    }
}

/// Handles a key in the token-clearing dialog (see `clear_confirmation_effect`).
pub fn handle_clear_confirmation(key: KeyInput, state: &mut AppState)
    ensures
        clear_confirmation_effect(key, *old(state), *final(state)),
{
    match key {
        KeyInput::Char { c, .. } => {
            if c == 'y' || c == 'Y' {
                state.request.auth.clear_token();
                state.input.mode = InputMode::Normal;
            } else if c == 'n' || c == 'N' {
                state.input.mode = InputMode::Normal;
            }
        },
        KeyInput::Esc => {
            state.input.mode = InputMode::Normal;
        },
        _ => {},
    }
}

/// Opening the token dialog, its field filled with the current token.
pub open spec fn auth_dialog_effect(pre: AppState, post: AppState) -> bool {
    &&& input_only(pre, post)
    &&& input_with_text(pre.input, post.input, InputText::Token)
    &&& post.input.mode == InputMode::EnteringToken
    &&& post.input.token_input@ == match pre.request.auth.token {
        Some(t) => t@,
        None => seq![],
    }
}

/// Opens the token dialog (see `auth_dialog_effect`).
pub fn handle_auth_dialog(state: &mut AppState)
    requires
        old(state).wf(),
    ensures
        final(state).wf(),
        auth_dialog_effect(*old(state), *final(state)),
{
    let current = match &state.request.auth.token {
        Some(t) => t.clone(),
        None => String::new(),
    };
    apply_action(AppAction::EnterTokenInputMode, state);
    apply_action(AppAction::AppendToTokenInput(current), state);
}

/// The body the editor opens with for the endpoint at `path`: the stored
/// body, else `{}`.
pub open spec fn initial_body(s: AppState, path: Seq<char>) -> Seq<char> {
    match config_of(s, path) {
        Some(c) => match c.body {
            Some(b) => b@,
            None => "{}"@,
        },
        None => "{}"@,
    }
}

/// Opens the body editor for the selected endpoint, filled with its stored
/// body (`{}` when none); does nothing without a selected endpoint.
pub open spec fn body_dialog_effect(pre: AppState, post: AppState, sel: usize) -> bool {
    match selected_endpoint(pre, sel as int) {
        Some(e) => {
            &&& input_only(pre, post)
            &&& post.input == InputState {
                mode: InputMode::EnteringBody,
                body_editor: post.input.body_editor,
                ..pre.input
            }
            &&& post.input.body_editor@ == editor_with(
                initial_body(pre, e.path),
                true,
                pre.input.body_editor@.content_type,
            )
        },
        None => post == pre,
    }
}

/// Opens the body editor (see `body_dialog_effect`).
pub fn handle_body_dialog(state: &mut AppState, selected_index: usize)
    requires
        old(state).wf(),
    ensures
        final(state).wf(),
        body_dialog_effect(*old(state), *final(state), selected_index),
{
    match state.get_selected_endpoint(selected_index) {
        Some(endpoint) => {
            proof {
                lemma_index_of_key(state.request.configs@, endpoint.path@);
            }
            let body = match state.request.configs.get(endpoint.path.as_str()) {
                Some(c) => match &c.body {
                    Some(b) => b.clone(),
                    None => "{}".to_string(),
                },
                None => "{}".to_string(),
            };
            state.input.body_editor.set_content(body);
            state.input.mode = InputMode::EnteringBody;
        },
        None => {},
    }
}

/// The text the body editor holds once `text`, valid JSON, is pretty-printed
/// into it.
pub open spec fn formatted_body(text: Seq<char>) -> Seq<char> {
    join_lines(editor_with(json_pretty(text), true, ContentType::Json).lines)
}

/// `post_cs` is `cs` with the body of `path` set to `body` (the entry is
/// created empty first when there is none).
pub open spec fn body_saved(
    cs: Seq<(Seq<char>, ConfigView)>,
    post_cs: Seq<(Seq<char>, ConfigView)>,
    path: Seq<char>,
    body: Option<Seq<char>>,
) -> bool {
    let i = index_of_key(cs, path);
    let j = if i < cs.len() { i } else { cs.len() as int };
    let base = if i < cs.len() {
        cs[i].1
    } else {
        ConfigView { query_params: seq![], path_params: seq![], body: None }
    };
    &&& 0 <= j < post_cs.len()
    &&& opt_view(post_cs[j].1.body) == body
    &&& post_cs == if i < cs.len() {
        cs.update(i, (path, ConfigView { body: post_cs[j].1.body, ..base }))
    } else {
        cs.push((path, ConfigView { body: post_cs[j].1.body, ..base }))
    }
}

/// The editor once the dialog's input is closed: emptied.
pub open spec fn closed_editor(pre: InputState, post: InputState) -> bool {
    &&& post == InputState {
        mode: InputMode::Normal,
        body_editor: post.body_editor,
        body_validation_error: None,
        ..pre
    }
    &&& post.body_editor@ == empty_editor(true, pre.body_editor@.content_type)
}

/// A key in the body editor. Ctrl+N breaks the line. Enter saves, for the
/// selected endpoint, a body that is valid JSON: pretty-printed, stored in
/// its configuration (none when it is only white space), and the editor is
/// closed and emptied; invalid JSON is reported and the editor stays open.
/// Esc closes and empties the editor. A character without Control is typed
/// (curly quotes made straight); any other key goes to the editor
/// (`BodyEditor::handle_key_event`). Typing clears the reported error.
pub open spec fn body_input_effect(key: KeyInput, pre: AppState, post: AppState, sel: usize) -> bool {
    let ed = pre.input.body_editor@;
    let edits = |e: EditorView| {
        &&& input_only(pre, post)
        &&& post.input == InputState {
            body_editor: post.input.body_editor,
            body_validation_error: None,
            ..pre.input
        }
        &&& post.input.body_editor@ == e
    };
    if key == (KeyInput::Char { c: 'n', ctrl: true }) {
        edits(newline_effect(ed))
    } else if key is Enter {
        match selected_endpoint(pre, sel as int) {
            None => post == pre,
            Some(e) => {
                let text = join_lines(ed.lines);
                match json_parse_error(text) {
                    Some(m) => {
                        &&& input_only(pre, post)
                        &&& post.input == InputState {
                            body_validation_error: post.input.body_validation_error,
                            ..pre.input
                        }
                        &&& post.input.body_validation_error matches Some(x)
                            && x@ == "Invalid JSON: "@ + m
                    },
                    None => {
                        let f = formatted_body(text);
                        &&& post.data == pre.data && post.ui == pre.ui && post.search == pre.search
                        &&& closed_editor(pre.input, post.input)
                        &&& post.request == RequestState { configs: post.request.configs, ..pre.request }
                        &&& body_saved(
                            pre.request.configs@,
                            post.request.configs@,
                            e.path,
                            if trim(f).len() == 0 { None } else { Some(f) },
                        )
                    },
                }
            },
        }
    } else if key is Esc {
        input_only(pre, post) && closed_editor(pre.input, post.input)
    } else if key matches KeyInput::Char { c, ctrl } && !ctrl {
        edits(insert_text(ed, normalize_quotes(seq![key->c])))
    } else {
        edits(key_effect(ed, key).0)
    }
}

/// Handles a key in the body editor (see `body_input_effect`). Enter on a
/// valid JSON body always stores the body as its pretty-printed text, which
/// is never blank.
pub fn handle_body_input(key: KeyInput, state: &mut AppState, selected_index: usize)
    requires
        old(state).wf(),
    ensures
        final(state).wf(),
        body_input_effect(key, *old(state), *final(state), selected_index),
        ({
            let text = join_lines(old(state).input.body_editor@.lines);
            key is Enter && json_parse_error(text) is None ==> match selected_endpoint(*old(state), selected_index as int) {
                Some(e) => body_saved(
                    old(state).request.configs@,
                    final(state).request.configs@,
                    e.path,
                    Some(json_pretty(text)),
                ),
                None => true,
            }
        }),
{
    proof {
        reveal_strlit("{}");
    }
    match key {
        KeyInput::Char { c, ctrl } => {
            if ctrl && c == 'n' {
                state.input.body_validation_error = None;
                state.input.body_editor.insert_newline();
                return;
            }
        },
        _ => {},
    }
    match key {
        KeyInput::Enter => {
            let path = match state.get_selected_endpoint(selected_index) {
                Some(e) => e.path,
                None => return,
            };
            match state.input.body_editor.validate_json() {
                Ok(()) => {
                    let ghost text = join_lines(state.input.body_editor@.lines);
                    let formatted_ok = state.input.body_editor.format_json();
                    assert(formatted_ok is Ok);
                    let formatted = state.input.body_editor.content();
                    let blank = trim_chars(chars_of(formatted.as_str()).as_slice()).len() == 0;
                    let ghost cs = state.request.configs@;
                    proof {
                        lemma_index_of_key(cs, path@);
                    }
                    let config = state.get_or_create_request_config_by_path(path.as_str());
                    config.body = if blank {
                        None
                    } else {
                        Some(formatted)
                    };
                    state.input.mode = InputMode::Normal;
                    state.input.body_editor.clear();
                    state.input.body_validation_error = None;
                },
                Err(e) => {
                    state.input.body_validation_error = Some(e);
                },
            }
        },
        KeyInput::Esc => {
            state.input.mode = InputMode::Normal;
            state.input.body_editor.clear();
            state.input.body_validation_error = None;
        },
        KeyInput::Char { c, ctrl } => {
            state.input.body_validation_error = None;
            if !ctrl {
                state.input.body_editor.insert_str_normalized(char_string(c).as_str());
            } else {
                let _ = state.input.body_editor.handle_key_event(key);
            }
        },
        _ => {
            state.input.body_validation_error = None;
            let _ = state.input.body_editor.handle_key_event(key);
        },
    }
}

/// Characters typed at once into the body editor (a paste): inserted with
/// curly quotes made straight, and, when more than one, the text is then
/// pretty-printed if it is valid JSON. The reported error is cleared.
pub open spec fn body_paste_effect(text: Seq<char>, pre: AppState, post: AppState) -> bool {
    let e1 = insert_text(pre.input.body_editor@, normalize_quotes(text));
    let t = join_lines(e1.lines);
    &&& input_only(pre, post)
    &&& post.input == (InputState {
        body_editor: post.input.body_editor,
        body_validation_error: None,
        ..pre.input
    })
    &&& post.input.body_editor@ == if text.len() > 1 && json_parse_error(t) is None {
        editor_with(json_pretty(t), true, e1.content_type)
    } else {
        e1
    }
}

/// Handles a paste into the body editor (see `body_paste_effect`).
pub fn handle_body_paste(text: &str, state: &mut AppState)
    requires
        old(state).wf(),
    ensures
        final(state).wf(),
        body_paste_effect(text@, *old(state), *final(state)),
{
    state.input.body_validation_error = None;
    state.input.body_editor.insert_str_normalized(text);
    if chars_of(text).len() > 1 {
        let _ = state.input.body_editor.format_json();
    }
}

} // verus!
