//! Properties of the application as a whole, over the effects of key
//! presses, searches, requests and the body editor.
use vstd::prelude::*;
use crate::config::url_check;
use crate::editing::{results_for, search_clear_effect, search_input_effect};
use crate::editor::{editor_with, join_lines, lines_acc, pieces_acc, split_pieces, strip_cr, text_lines, ContentType, KeyInput};
use crate::editor_laws::lemma_join_split;
use crate::events::{normal_key_effect, EventHandler, KeyOutcome};
use crate::execution::{enter_effect, execute_check};
use crate::modals::{url_input_effect, url_submission};
use crate::navigation::{last_row, list_down_effect, list_up_effect, response_down_effect, response_line_total, RESPONSE_VIEWPORT};
use crate::state::{active_endpoint_views, index_of_key, lemma_index_of_key, selected_endpoint, AppState};
use crate::modals::{body_dialog_effect, body_input_effect, formatted_body};
use crate::json::json_parse_error;
use crate::execution::config_of;
use crate::text::trim;
use crate::types::{has_value, params_at, ConfigView, EndpointView, RequestEditMode, UrlSubmission};
use crate::actions::{action_effect, is_path_param, store_param, AppAction};
use crate::strmap::{keys_unique, lemma_insert_entry_unique, lookup};

verus! {

/// Law: `q` quits exactly when no parameter is being edited; while one is,
/// it is typed into it and the application keeps running.
pub proof fn law_quit_only_when_not_editing(
    pre: AppState,
    post: AppState,
    h: EventHandler,
    g: EventHandler,
    base_url: Option<String>,
    swagger_url: Option<String>,
    o: KeyOutcome,
    ctrl: bool,
)
    requires
        !h.should_quit,
        normal_key_effect(KeyInput::Char { c: 'q', ctrl }, pre, post, h, g, base_url, swagger_url, o),
    ensures
        g.should_quit == !(pre.request.edit_mode is Editing),
        pre.request.edit_mode is Editing ==> post.request.param_edit_buffer@ == pre.request.param_edit_buffer@.push('q'),
{
}

/// Law: once the search is cleared, the flat list shows every endpoint again.
pub proof fn law_cleared_search_shows_all(pre: AppState, post: AppState, sel: usize, new_sel: usize)
    requires
        search_clear_effect(pre, post, sel, new_sel),
    ensures
        active_endpoint_views(post) == crate::types::endpoint_views(post.data.endpoints@),
        post.data.endpoints == pre.data.endpoints,
{
}

/// Law: typing a character at the search prompt and deleting it gives back
/// the query, and the results are those of that query again.
pub proof fn law_search_type_then_backspace(
    s0: AppState,
    s1: AppState,
    s2: AppState,
    c: char,
    sel0: usize,
    sel1: usize,
    sel2: usize,
)
    requires
        search_input_effect(KeyInput::Char { c, ctrl: false }, s0, s1, sel0, sel1),
        search_input_effect(KeyInput::Backspace, s1, s2, sel1, sel2),
    ensures
        s2.search.query@ == s0.search.query@,
        results_for(s0, s2, s0.search.query@),
        sel2 == 0,
{
    assert(s0.search.query@.push(c).drop_last() =~= s0.search.query@);
}

/// Law: URLs that the URL dialog submits are trimmed and pass `url_check`;
/// the base URL, when given, is not empty.
pub proof fn law_submitted_urls_are_valid(key: KeyInput, pre: AppState, post: AppState, r: Option<UrlSubmission>)
    requires
        url_input_effect(key, pre, post, r),
        r is Some,
    ensures
        key is Enter,
        url_check(r->Some_0.swagger_url@) is Ok,
        r->Some_0.swagger_url@ == trim(pre.input.url_input@),
        r->Some_0.base_url matches Some(b) ==> url_check(b@) is Ok && b@ == trim(pre.input.base_url_input@)
            && b@.len() > 0,
{
    if key is Enter {
        match url_submission(pre.input) {
            Some((su, bu)) => {},
            None => {},
        }
    }
}

/// Law: an endpoint that may run has a non-empty value for each of its
/// path parameters in its configuration.
pub proof fn law_runnable_has_path_values(e: EndpointView, config: Option<ConfigView>)
    requires
        execute_check(e, config) is Ok,
    ensures
        forall|i: int|
            0 <= i < params_at(e.parameters, "path"@).len() ==> (config matches Some(c) && has_value(
                c,
                #[trigger] params_at(e.parameters, "path"@)[i].name@,
            )),
{
    let pp = params_at(e.parameters, "path"@);
    if pp.len() > 0 {
        let c = config->Some_0;
        let keep = |p: crate::types::Parameter| !has_value(c, p.name@);
        let missing = pp.filter(keep);
        assert(missing.len() == 0);
        assert forall|i: int| 0 <= i < pp.len() implies has_value(c, #[trigger] pp[i].name@) by {
            if !has_value(c, pp[i].name@) {
                broadcast use vstd::seq_lib::group_filter_ensures;
                assert(keep(pp[i]));
                assert(missing.contains(pp[i]));
            }
        }
    }
}

/// Law: moving down the list never leaves it: the selection stays on its
/// last row at most.
pub proof fn law_list_down_stays_in_list(pre: AppState, post: AppState, sel: usize, new_sel: usize)
    requires
        sel <= last_row(pre),
        list_down_effect(pre, post, sel, new_sel),
    ensures
        new_sel <= last_row(pre),
        new_sel >= sel,
{
}

/// Law: from a row of the list other than the first, moving up then down
/// comes back to the same row.
pub proof fn law_up_then_down_returns(s0: AppState, s1: AppState, s2: AppState, a: usize, b: usize, c: usize)
    requires
        a > 0,
        list_up_effect(s0, s1, a, b),
        list_down_effect(s1, s2, b, c),
        a <= last_row(s0),
    ensures
        c == a,
{
}

/// Law: after expanding or collapsing a group, the selection is on a row of
/// the list (or on the first row of an empty list).
pub proof fn law_group_toggle_keeps_selection_in_list(
    pre: AppState,
    post: AppState,
    sel: usize,
    new_sel: usize,
    has_base_url: bool,
    run: Option<crate::types::ApiEndpoint>,
)
    requires
        enter_effect(pre, post, sel, new_sel, has_base_url, run),
        crate::state::selected_endpoint(pre, sel as int) is None,
        pre.ui.view_mode is Grouped,
        0 <= sel < crate::state::shown_rows(pre).len(),
        crate::state::shown_rows(pre)[sel as int] is Header,
    ensures
        ({
            let n = if crate::state::visible_count(post) <= usize::MAX {
                crate::state::visible_count(post)
            } else {
                usize::MAX as int
            };
            n > 0 ==> new_sel < n
        }),
{
}

/// Law: moving down the Response tab keeps the selected line among the
/// response's lines and, when it was on screen, on screen.
pub proof fn law_response_selection_visible(pre: AppState, post: AppState)
    requires
        response_down_effect(pre, post),
        pre.ui.response_scroll <= pre.ui.response_selected_line < pre.ui.response_scroll + RESPONSE_VIEWPORT,
        pre.ui.response_selected_line < response_line_total(pre) || response_line_total(pre) == 0,
    ensures
        post.ui.response_scroll <= post.ui.response_selected_line < post.ui.response_scroll + RESPONSE_VIEWPORT,
        post.ui.response_selected_line < response_line_total(pre) || response_line_total(pre) == 0,
{
}

proof fn lemma_lines_are_pieces(s: Seq<char>)
    requires
        !s.contains('\r'),
    ensures
        lines_acc(s) == pieces_acc(s),
    decreases s.len(),
{
    if s.len() > 0 {
        assert(!s.drop_last().contains('\r')) by {
            if s.drop_last().contains('\r') {
                let i = choose|i: int| 0 <= i < s.drop_last().len() && s.drop_last()[i] == '\r';
                assert(s[i] == '\r');
            }
        }
        lemma_lines_are_pieces(s.drop_last());
        let (done, cur) = pieces_acc(s.drop_last());
        if s.last() == '\n' {
            if cur.len() > 0 && cur.last() == '\r' {
                lemma_piece_has_no_cr(s.drop_last());
            }
            assert(strip_cr(cur) == cur);
        }
    }
}

proof fn lemma_piece_has_no_cr(s: Seq<char>)
    requires
        !s.contains('\r'),
    ensures
        !pieces_acc(s).1.contains('\r'),
    decreases s.len(),
{
    if s.len() > 0 {
        assert(!s.drop_last().contains('\r')) by {
            if s.drop_last().contains('\r') {
                let i = choose|i: int| 0 <= i < s.drop_last().len() && s.drop_last()[i] == '\r';
                assert(s[i] == '\r');
            }
        }
        lemma_piece_has_no_cr(s.drop_last());
        let (done, cur) = pieces_acc(s.drop_last());
        if s.last() != '\n' {
            assert(s.last() != '\r') by {
                assert(s[s.len() - 1] == s.last());
            }
            assert forall|i: int| 0 <= i < cur.push(s.last()).len() implies cur.push(s.last())[i] != '\r' by {
                if i < cur.len() {
                    assert(cur.push(s.last())[i] == cur[i]);
                    assert(!cur.contains('\r'));
                }
            }
        }
    }
}

/// Law: an editor made from a text gives that text back, for texts
/// without carriage returns and without a final newline (which the editor's
/// line splitting drops).
pub proof fn law_editor_gives_text_back(s: Seq<char>, dirty: bool, ct: ContentType)
    requires
        !s.contains('\r'),
        s.len() == 0 || s.last() != '\n',
    ensures
        join_lines(editor_with(s, dirty, ct).lines) == s,
{
    lemma_join_split(s);
    if s.len() > 0 {
        lemma_lines_are_pieces(s);
        let (done, cur) = pieces_acc(s.drop_last());
        assert(pieces_acc(s).1 == cur.push(s.last()));
        assert(text_lines(s) == split_pieces(s));
    } else {
        assert(split_pieces(s) =~= seq![Seq::<char>::empty()]);
    }
}

proof fn lemma_index_of_key_at(s: Seq<(Seq<char>, ConfigView)>, k: Seq<char>, i: int)
    requires
        0 <= i < s.len(),
        s[i].0 == k,
        forall|j: int| 0 <= j < i ==> s[j].0 != k,
    ensures
        index_of_key(s, k) == i,
    decreases s.len(),
{
    if i > 0 {
        assert forall|j: int| 0 <= j < i - 1 implies s.drop_first()[j].0 != k by {
            assert(s.drop_first()[j] == s[j + 1]);
        }
        lemma_index_of_key_at(s.drop_first(), k, i - 1);
    }
}

/// Law: a body saved in the body editor is what the editor opens with the
/// next time (`{}` when the saved body was blank).
pub proof fn law_saved_body_is_reopened(pre: AppState, mid: AppState, post: AppState, sel: usize)
    requires
        body_input_effect(KeyInput::Enter, pre, mid, sel),
        selected_endpoint(pre, sel as int) is Some,
        json_parse_error(join_lines(pre.input.body_editor@.lines)) is None,
        body_dialog_effect(mid, post, sel),
    ensures
        ({
            let f = formatted_body(join_lines(pre.input.body_editor@.lines));
            post.input.body_editor@ == editor_with(
                if trim(f).len() == 0 { "{}"@ } else { f },
                true,
                mid.input.body_editor@.content_type,
            )
        }),
{
    let e = selected_endpoint(pre, sel as int)->Some_0;
    assert(selected_endpoint(mid, sel as int) == selected_endpoint(pre, sel as int));
    let cs = pre.request.configs@;
    let pcs = mid.request.configs@;
    lemma_index_of_key(cs, e.path);
    let i = index_of_key(cs, e.path);
    let j = if i < cs.len() { i } else { cs.len() as int };
    assert(pcs[j].0 == e.path);
    assert forall|k: int| 0 <= k < j implies pcs[k].0 != e.path by {
        assert(pcs[k] == cs[k]);
    }
    lemma_index_of_key_at(pcs, e.path, j);
    assert(config_of(mid, e.path) == Some(pcs[j].1));
}

/// The configuration of the endpoint at `path`, empty when it has none.
pub open spec fn config_or_empty(s: AppState, path: Seq<char>) -> ConfigView {
    match config_of(s, path) {
        Some(c) => c,
        None => ConfigView { query_params: seq![], path_params: seq![], body: None },
    }
}

/// Storing a configuration for `path` leaves those of other paths as they were.
proof fn lemma_store_keeps_others(
    cs: Seq<(Seq<char>, ConfigView)>,
    path: Seq<char>,
    name: Seq<char>,
    v: Seq<char>,
    as_path: bool,
    p: Seq<char>,
)
    requires
        p != path,
    ensures
        ({
            let ts = store_param(cs, path, name, v, as_path);
            let i = index_of_key(ts, p);
            let j = index_of_key(cs, p);
            &&& (i < ts.len()) == (j < cs.len())
            &&& j < cs.len() ==> ts[i].1 == cs[j].1
        }),
{
    let ts = store_param(cs, path, name, v, as_path);
    let k = index_of_key(cs, path);
    lemma_index_of_key(cs, path);
    lemma_index_of_key(cs, p);
    lemma_index_of_key(ts, p);
    let j = index_of_key(cs, p);
    assert forall|m: int| 0 <= m < cs.len() && m != k implies ts[m] == cs[m] by {}
    if k < cs.len() {
        assert(ts[k].0 == path);
    } else {
        assert(ts[cs.len() as int].0 == path);
    }
    if j < cs.len() {
        assert(j != k);
        assert(ts[j] == cs[j]);
        assert forall|m: int| 0 <= m < j implies ts[m].0 != p by {
            if m != k {
                assert(ts[m] == cs[m]);
            }
        }
        lemma_index_of_key_at(ts, p, j);
    } else {
        assert forall|m: int| 0 <= m < ts.len() implies ts[m].0 != p by {
            if m != k && m < cs.len() {
                assert(ts[m] == cs[m]);
            }
        }
    }
}

/// Law: confirming a parameter edit stores the edited text. The endpoint then
/// has a configuration in which the parameter (among the path values when
/// the endpoint declares it a path parameter, else among the query values)
/// is looked up as that text; its other values, its body and the
/// configurations of other endpoints stay as they were. With no edit under
/// way no configuration changes. Either way editing ends with an empty
/// buffer.
pub proof fn law_confirm_stores_the_edit(s: AppState, t: AppState, path: String)
    requires
        action_effect(AppAction::ConfirmParameterEdit { endpoint_path: path }, s, t),
        keys_unique(config_or_empty(s, path@).path_params),
        keys_unique(config_or_empty(s, path@).query_params),
    ensures
        t.request.edit_mode == RequestEditMode::Viewing,
        t.request.param_edit_buffer@.len() == 0,
        forall|p: Seq<char>| p != path@ ==> #[trigger] config_of(t, p) == config_of(s, p),
        match s.request.edit_mode {
            RequestEditMode::Editing(name) => {
                let before = config_or_empty(s, path@);
                let v = s.request.param_edit_buffer@;
                &&& config_of(t, path@) is Some
                &&& config_or_empty(t, path@).body == before.body
                &&& if is_path_param(s, path@, name@) {
                    &&& lookup(config_or_empty(t, path@).path_params, name@) == Some(v)
                    &&& forall|n: Seq<char>| n != name@ ==> #[trigger] lookup(config_or_empty(t, path@).path_params, n) == lookup(before.path_params, n)
                    &&& config_or_empty(t, path@).query_params == before.query_params
                } else {
                    &&& lookup(config_or_empty(t, path@).query_params, name@) == Some(v)
                    &&& forall|n: Seq<char>| n != name@ ==> #[trigger] lookup(config_or_empty(t, path@).query_params, n) == lookup(before.query_params, n)
                    &&& config_or_empty(t, path@).path_params == before.path_params
                }
            },
            RequestEditMode::Viewing => t.request.configs@ == s.request.configs@,
        },
{
    let cs = s.request.configs@;
    let ts = t.request.configs@;
    let k = path@;
    match s.request.edit_mode {
        RequestEditMode::Editing(name) => {
            let n = name@;
            let v = s.request.param_edit_buffer@;
            let as_path = is_path_param(s, k, n);
            assert(ts == store_param(cs, k, n, v, as_path));
            assert forall|p: Seq<char>| p != k implies #[trigger] config_of(t, p) == config_of(s, p) by {
                lemma_store_keeps_others(cs, k, n, v, as_path, p);
            }
            lemma_index_of_key(cs, k);
            let i = index_of_key(cs, k);
            let c = config_or_empty(s, k);
            lemma_index_of_key(ts, k);
            if i < cs.len() {
                assert(ts[i].0 == k);
                assert forall|j: int| 0 <= j < i implies ts[j].0 != k by {
                    assert(ts[j] == cs[j]);
                }
                lemma_index_of_key_at(ts, k, i);
            } else {
                assert(ts[cs.len() as int].0 == k);
                assert forall|j: int| 0 <= j < cs.len() implies ts[j].0 != k by {
                    assert(ts[j] == cs[j]);
                }
                lemma_index_of_key_at(ts, k, cs.len() as int);
            }
            if as_path {
                lemma_insert_entry_unique(c.path_params, n, v);
            } else {
                lemma_insert_entry_unique(c.query_params, n, v);
            }
        },
        RequestEditMode::Viewing => {},
    }
}

} // verus!
