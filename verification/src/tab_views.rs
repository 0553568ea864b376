//! What the Request, Headers and Response tabs show, as lines of text and tones.
use vstd::prelude::*;
use crate::editor::{split_text_lines, string_views, text_lines};
use crate::execution::config_of;
use crate::json::try_format_json;
use crate::navigation::shown_body;
use crate::request::{build_preview_url, non_empty, query_text, substitute};
use crate::state::{lemma_index_of_key, AppState};
use crate::strmap::{keys_unique, lookup, Entries, StringMap};
use crate::groups::{chars_less, lemma_str_less_total, lemma_str_less_transitive, str_less};
use crate::request::entry_views_of;
use crate::text::{chars_of, decimal, decimal_chars_wide, push_all, string_from_chars};
use crate::types::{
    is_body_method, lemma_params_at_two_len, params_at, upper, ApiEndpoint, ConfigView, DetailTab,
    EndpointView, Parameter, RequestConfig, RequestEditMode,
};
use crate::views::{line_view, lines_view, span, span_str, StyledSpan, Tone};

verus! {

/// A line of the screen, by view.
pub type LineView = Seq<(Seq<char>, Tone)>;

fn push_str(v: &mut Vec<char>, t: &str)
    ensures
        final(v)@ == old(v)@ + t@,
{
    let c = chars_of(t);
    push_all(v, c.as_slice());
}

/// A line of a single span.
pub open spec fn one(t: Seq<char>, tone: Tone) -> LineView {
    seq![(t, tone)]
}

fn one_line(t: String, tone: Tone) -> (r: Vec<StyledSpan>)
    ensures
        line_view(r@) == one(t@, tone),
{
    let mut l: Vec<StyledSpan> = Vec::new();
    l.push(span(t, tone));
    assert(line_view(l@) =~= one(t@, tone));
    l
}

fn empty_line() -> (r: Vec<StyledSpan>)
    ensures
        line_view(r@) == Seq::<(Seq<char>, Tone)>::empty(),
{
    let l: Vec<StyledSpan> = Vec::new();
    assert(line_view(l@) =~= Seq::<(Seq<char>, Tone)>::empty());
    l
}

/// Appends a line.
fn push_line(ls: &mut Vec<Vec<StyledSpan>>, l: Vec<StyledSpan>)
    ensures
        lines_view(final(ls)@) == lines_view(old(ls)@).push(line_view(l@)),
{
    let ghost v = line_view(l@);
    ls.push(l);
    assert(lines_view(ls@) =~= lines_view(old(ls)@).push(v));
}

/// The value shown for a parameter: the edit buffer while it is being
/// edited; otherwise its stored path value, else its stored query value,
/// else nothing.
pub open spec fn shown_value(s: AppState, config: Option<ConfigView>, p: Parameter) -> Seq<char> {
    if s.request.edit_mode matches RequestEditMode::Editing(n) && n@ == p.name@ {
        s.request.param_edit_buffer@
    } else {
        match config {
            Some(c) => match lookup(c.path_params, p.name@) {
                Some(v) => v,
                None => match lookup(c.query_params, p.name@) {
                    Some(v) => v,
                    None => seq![],
                },
            },
            None => seq![],
        }
    }
}

/// Whether the parameter is being edited.
pub open spec fn editing_param(s: AppState, p: Parameter) -> bool {
    s.request.edit_mode matches RequestEditMode::Editing(n) && n@ == p.name@
}

/// The type of a parameter as shown: its schema's type (`unknown` when
/// missing) and format, as `type/format`.
pub open spec fn type_info(p: Parameter) -> Seq<char> {
    match p.schema {
        Some(sc) => (match sc.param_type {
            Some(t) => t@,
            None => "unknown"@,
        }) + match sc.format {
            Some(f) => "/"@ + f@,
            None => seq![],
        },
        None => "unknown"@,
    }
}

/// The line of a parameter: a selection arrow, its name (`*` when required),
/// its value in brackets (`_____` when empty, a cursor while edited) and its
/// type.
pub open spec fn param_line(p: Parameter, value: Seq<char>, selected: bool, editing: bool, is_path: bool) -> LineView {
    seq![
        (if selected { "→ "@ } else { "  "@ }, if selected { Tone::Yellow } else { Tone::Muted }),
        (
            p.name@ + (if p.required == Some(true) { "*"@ } else { seq![] }) + ": "@,
            if selected {
                if is_path { Tone::MagentaBold } else { Tone::CyanBold }
            } else {
                if is_path { Tone::DimMagenta } else { Tone::White }
            },
        ),
        (
            if editing {
                "["@ + value + "▊]"@
            } else if value.len() == 0 {
                "[_____]"@
            } else {
                "["@ + value + "]"@
            },
            if editing { Tone::YellowBold } else if selected { Tone::Green } else { Tone::Gray },
        ),
        ("  "@, Tone::Plain),
        ("("@ + type_info(p) + ")"@, Tone::Muted),
    ]
}

/// The lines of a list of parameters, the first at position `offset` of the
/// selection.
pub open spec fn param_lines(s: AppState, config: Option<ConfigView>, ps: Seq<Parameter>, offset: int, is_path: bool) -> Seq<LineView> {
    Seq::new(
        ps.len(),
        |i: int|
            param_line(
                ps[i],
                shown_value(s, config, ps[i]),
                s.ui.selected_param_index == offset + i,
                editing_param(s, ps[i]),
                is_path,
            ),
    )
}

/// The stored body of a configuration, `{}` when there is none.
pub open spec fn body_or_default(config: Option<ConfigView>) -> Seq<char> {
    match config {
        Some(c) => match c.body {
            Some(b) => b@,
            None => "{}"@,
        },
        None => "{}"@,
    }
}

/// The preview of a body: its first five lines (and a note that there is
/// more), each indented by two spaces.
pub open spec fn body_preview(body: Seq<char>) -> Seq<LineView> {
    let bl = text_lines(body);
    let shown = if bl.len() > 5 {
        bl.take(5).push("  ... (press 'b' to edit)"@)
    } else {
        bl
    };
    shown.map_values(|l: Seq<char>| one("  "@ + l, Tone::Yellow))
}

/// The preview URL: the path with the configured values put in and the
/// non-empty query values appended; the bare path without a configuration.
pub open spec fn preview_url(path: Seq<char>, config: Option<ConfigView>) -> Seq<char> {
    match config {
        Some(c) => {
            let p = substitute(path, c.path_params, true);
            let q = non_empty(c.query_params);
            if q.len() == 0 {
                p
            } else {
                p + seq!['?'] + query_text(q)
            }
        },
        None => path,
    }
}

/// The key help of the Request tab.
pub open spec fn request_help(s: AppState, body: bool) -> Seq<char> {
    match s.request.edit_mode {
        RequestEditMode::Viewing => if body {
            "j/k/↑/↓: Navigate  |  e: Edit param  |  b: Edit body  |  x: Toggle body  |  Space: Execute"@
        } else {
            "j/k/↑/↓: Navigate  |  e: Edit parameter  |  Space: Execute"@
        },
        RequestEditMode::Editing(_) => "Type to edit  |  Enter: Confirm  |  Esc: Cancel"@,
    }
}

/// The line saying that an endpoint has no parameters.
pub open spec fn no_params_line() -> LineView {
    one("No parameters defined for this endpoint"@, Tone::Muted)
}

/// The path parameters section (none without path parameters).
pub open spec fn path_section(e: EndpointView, s: AppState) -> Seq<LineView> {
    let pp = params_at(e.parameters, "path"@);
    if pp.len() > 0 {
        seq![one("Path Parameters:"@, Tone::MagentaBold), seq![]] + param_lines(s, config_of(s, e.path), pp, 0, true)
            + seq![seq![]]
    } else {
        seq![]
    }
}

/// The query parameters section (none without query parameters); their
/// selection positions follow those of the path parameters.
pub open spec fn query_section(e: EndpointView, s: AppState) -> Seq<LineView> {
    let pp = params_at(e.parameters, "path"@);
    let qp = params_at(e.parameters, "query"@);
    if qp.len() > 0 {
        seq![one("Query Parameters:"@, Tone::CyanBold), seq![]] + param_lines(
            s,
            config_of(s, e.path),
            qp,
            pp.len() as int,
            false,
        ) + seq![seq![]]
    } else {
        seq![]
    }
}

/// The body section, for methods that send a body: a header with the keys
/// to edit and collapse it, and the body preview while expanded.
pub open spec fn body_section(e: EndpointView, s: AppState) -> Seq<LineView> {
    if is_body_method(upper(e.method)) {
        seq![
            seq![],
            seq![
                ((if s.ui.body_section_expanded { "▼"@ } else { "▶"@ }) + " Request Body:"@, Tone::GreenBold),
                ("  "@, Tone::Plain),
                ("[Press 'b' to edit, 'x' to toggle]"@, Tone::Muted),
            ],
        ] + (if s.ui.body_section_expanded {
            seq![seq![]] + body_preview(body_or_default(config_of(s, e.path)))
        } else {
            seq![]
        }) + seq![seq![]]
    } else {
        seq![]
    }
}

/// The preview URL and the key help.
pub open spec fn request_tail(e: EndpointView, s: AppState) -> Seq<LineView> {
    seq![
        one("Preview URL:"@, Tone::CyanBold),
        one(preview_url(e.path, config_of(s, e.path)), Tone::Yellow),
        seq![],
        one(request_help(s, is_body_method(upper(e.method))), Tone::Muted),
    ]
}

/// The Request tab of an endpoint: its path parameters, its query
/// parameters, its body (for methods that send one; collapsible), the
/// preview URL and the key help. Without any parameter or body it only says
/// so.
pub open spec fn request_tab(e: EndpointView, s: AppState) -> Seq<LineView> {
    let pp = params_at(e.parameters, "path"@);
    let qp = params_at(e.parameters, "query"@);
    let body = is_body_method(upper(e.method));
    if pp.len() == 0 && qp.len() == 0 && !body {
        seq![no_params_line()]
    } else {
        let intro: Seq<LineView> = if pp.len() == 0 && qp.len() == 0 {
            seq![no_params_line(), seq![]]
        } else {
            seq![]
        };
        intro + path_section(e, s) + query_section(e, s) + body_section(e, s) + request_tail(e, s)
    }
}

fn type_info_text(p: &Parameter) -> (r: Vec<char>)
    ensures
        r@ == type_info(*p),
{
    match &p.schema {
        Some(sc) => {
            let mut v = match &sc.param_type {
                Some(t) => chars_of(t.as_str()),
                None => chars_of("unknown"),
            };
            match &sc.format {
                Some(f) => {
                    push_str(&mut v, "/");
                    push_str(&mut v, f.as_str());
                },
                None => {},
            }
            assert(v@ =~= type_info(*p));
            v
        },
        None => chars_of("unknown"),
    }
}

/// The line of one parameter (see `param_line`).
pub fn build_param_line(param: &Parameter, current_value: &str, is_selected: bool, is_editing: bool, is_path_param: bool) -> (r: Vec<StyledSpan>)
    ensures
        line_view(r@) == param_line(*param, current_value@, is_selected, is_editing, is_path_param),
{
    let mut name = chars_of(param.name.as_str());
    if param.required == Some(true) {
        push_str(&mut name, "*");
    }
    push_str(&mut name, ": ");
    let value = if is_editing {
        let mut v = chars_of("[");
        push_str(&mut v, current_value);
        push_str(&mut v, "▊]");
        v
    } else if current_value.is_empty() {
        chars_of("[_____]")
    } else {
        let mut v = chars_of("[");
        push_str(&mut v, current_value);
        push_str(&mut v, "]");
        v
    };
    let mut meta = chars_of("(");
    let t = type_info_text(param);
    push_all(&mut meta, t.as_slice());
    push_str(&mut meta, ")");
    let name_tone = if is_selected {
        if is_path_param { Tone::MagentaBold } else { Tone::CyanBold }
    } else {
        if is_path_param { Tone::DimMagenta } else { Tone::White }
    };
    let value_tone = if is_editing {
        Tone::YellowBold
    } else if is_selected {
        Tone::Green
    } else {
        Tone::Gray
    };
    let mut r: Vec<StyledSpan> = Vec::new();
    r.push(span_str(if is_selected { "→ " } else { "  " }, if is_selected { Tone::Yellow } else { Tone::Muted }));
    r.push(span(string_from_chars(name.as_slice()), name_tone));
    r.push(span(string_from_chars(value.as_slice()), value_tone));
    r.push(span_str("  ", Tone::Plain));
    r.push(span(string_from_chars(meta.as_slice()), Tone::Muted));
    assert(line_view(r@) =~= param_line(*param, current_value@, is_selected, is_editing, is_path_param));
    r
}

/// The value shown for `p` (see `shown_value`).
fn shown_value_text(state: &AppState, config: Option<&RequestConfig>, p: &Parameter) -> (r: String)
    ensures
        r@ == shown_value(*state, match config { Some(c) => Some(c@), None => None }, *p),
{
    match &state.request.edit_mode {
        RequestEditMode::Editing(n) => {
            if crate::text::str_eq(n.as_str(), p.name.as_str()) {
                return state.request.param_edit_buffer.clone();
            }
        },
        RequestEditMode::Viewing => {},
    }
    match config {
        Some(c) => match c.get_param_value(p.name.as_str()) {
            Some(v) => v.to_string(),
            None => String::new(),
        },
        None => String::new(),
    }
}

fn is_editing_param(state: &AppState, p: &Parameter) -> (r: bool)
    ensures
        r == editing_param(*state, *p),
{
    match &state.request.edit_mode {
        RequestEditMode::Editing(n) => crate::text::str_eq(n.as_str(), p.name.as_str()),
        RequestEditMode::Viewing => false,
    }
}

/// Appends the lines of a list of parameters (see `param_lines`).
fn push_param_lines(
    ls: &mut Vec<Vec<StyledSpan>>,
    state: &AppState,
    config: Option<&RequestConfig>,
    ps: &Vec<&Parameter>,
    offset: usize,
    is_path: bool,
)
    requires
        offset + ps@.len() <= usize::MAX,
    ensures
        lines_view(final(ls)@) == lines_view(old(ls)@) + param_lines(
            *state,
            match config { Some(c) => Some(c@), None => None },
            ps@.map_values(|p: &Parameter| *p),
            offset as int,
            is_path,
        ),
{
    let ghost cv = match config { Some(c) => Some(c@), None => None };
    let ghost q = ps@.map_values(|p: &Parameter| *p);
    let ghost start = lines_view(ls@);
    let mut i: usize = 0;
    while i < ps.len()
        invariant
            q == ps@.map_values(|p: &Parameter| *p),
            cv == match config { Some(c) => Some(c@), None => None::<ConfigView> },
            offset + ps@.len() <= usize::MAX,
            i <= ps@.len(),
            lines_view(ls@) == start + param_lines(*state, cv, q.take(i as int), offset as int, is_path),
        decreases ps@.len() - i,
    {
        let p: &Parameter = ps[i];
        assert(*p == q[i as int]);
        let value = shown_value_text(state, config, p);
        let line = build_param_line(p, value.as_str(), state.ui.selected_param_index == offset + i, is_editing_param(state, p), is_path);
        push_line(ls, line);
        i = i + 1;
        assert(param_lines(*state, cv, q.take(i as int), offset as int, is_path) =~= param_lines(
            *state,
            cv,
            q.take(i - 1),
            offset as int,
            is_path,
        ).push(param_lines(*state, cv, q.take(i as int), offset as int, is_path)[i - 1]));
    }
    assert(q.take(i as int) =~= q);
}

/// Appends the body preview lines (see `body_preview`).
fn push_body_preview(ls: &mut Vec<Vec<StyledSpan>>, body: &str)
    ensures
        lines_view(final(ls)@) == lines_view(old(ls)@) + body_preview(body@),
{
    let lines = split_text_lines(chars_of(body).as_slice());
    let ghost bl = string_views(lines@);
    let n = if lines.len() > 5 { 5 } else { lines.len() };
    let ghost start = lines_view(ls@);
    let ghost shown = if bl.len() > 5 { bl.take(5).push("  ... (press 'b' to edit)"@) } else { bl };
    let mut i: usize = 0;
    while i < n
        invariant
            bl == string_views(lines@),
            bl == text_lines(body@),
            n == if bl.len() > 5 { 5 } else { bl.len() },
            shown == if bl.len() > 5 { bl.take(5).push("  ... (press 'b' to edit)"@) } else { bl },
            i <= n,
            lines_view(ls@) == start + shown.take(i as int).map_values(|l: Seq<char>| one("  "@ + l, Tone::Yellow)),
        decreases n - i,
    {
        let mut v = chars_of("  ");
        push_str(&mut v, lines[i].as_str());
        assert(shown[i as int] == lines@[i as int]@);
        push_line(ls, one_line(string_from_chars(v.as_slice()), Tone::Yellow));
        i = i + 1;
        assert(shown.take(i as int) =~= shown.take(i - 1).push(shown[i - 1]));
        assert(start + shown.take(i as int).map_values(|l: Seq<char>| one("  "@ + l, Tone::Yellow)) =~= (start
            + shown.take(i - 1).map_values(|l: Seq<char>| one("  "@ + l, Tone::Yellow))).push(
            one("  "@ + shown[i - 1], Tone::Yellow),
        ));
    }
    if lines.len() > 5 {
        push_line(ls, one_line("    ... (press 'b' to edit)".to_string(), Tone::Yellow));
        proof {
            reveal_strlit("    ... (press 'b' to edit)");
            reveal_strlit("  ... (press 'b' to edit)");
            reveal_strlit("  ");
            assert("  "@ + "  ... (press 'b' to edit)"@ =~= "    ... (press 'b' to edit)"@);
            assert(shown.take(6) =~= shown.take(5).push(shown[5]));
            assert(shown.take(6) =~= shown);
        }
    } else {
        assert(shown.take(i as int) =~= shown);
    }
    proof {
        assert(body_preview(body@) =~= shown.map_values(|l: Seq<char>| one("  "@ + l, Tone::Yellow)));
    }
}

fn request_config<'a>(endpoint: &ApiEndpoint, state: &'a AppState) -> (c: Option<&'a RequestConfig>)
    ensures
        match c { Some(x) => Some(x@), None => None::<ConfigView> } == config_of(*state, endpoint@.path),
{
    proof {
        lemma_index_of_key(state.request.configs@, endpoint.path@);
    }
    state.request.configs.get(endpoint.path.as_str())
}

fn push_path_section(ls: &mut Vec<Vec<StyledSpan>>, endpoint: &ApiEndpoint, state: &AppState)
    ensures
        lines_view(final(ls)@) == lines_view(old(ls)@) + path_section(endpoint@, *state),
{
    let path_params = endpoint.path_params();
    assert(path_params@.len() == path_params@.map_values(|p: &Parameter| *p).len());
    if path_params.len() > 0 {
        let config = request_config(endpoint, state);
        push_line(ls, one_line("Path Parameters:".to_string(), Tone::MagentaBold));
        push_line(ls, empty_line());
        push_param_lines(ls, state, config, &path_params, 0, true);
        push_line(ls, empty_line());
    }
    assert(lines_view(ls@) =~= lines_view(old(ls)@) + path_section(endpoint@, *state));
}

fn push_query_section(ls: &mut Vec<Vec<StyledSpan>>, endpoint: &ApiEndpoint, state: &AppState)
    ensures
        lines_view(final(ls)@) == lines_view(old(ls)@) + query_section(endpoint@, *state),
{
    let path_params = endpoint.path_params();
    let query_params = endpoint.query_params();
    proof {
        assert(path_params@.len() == path_params@.map_values(|p: &Parameter| *p).len());
        assert(query_params@.len() == query_params@.map_values(|p: &Parameter| *p).len());
        reveal_strlit("path");
        reveal_strlit("query");
        assert("path"@ != "query"@) by {
            assert("path"@.len() != "query"@.len());
        }
        lemma_params_at_two_len(endpoint.parameters@, "path"@, "query"@);
    }
    let n_params = endpoint.parameters.len();
    if query_params.len() > 0 {
        let config = request_config(endpoint, state);
        push_line(ls, one_line("Query Parameters:".to_string(), Tone::CyanBold));
        push_line(ls, empty_line());
        push_param_lines(ls, state, config, &query_params, path_params.len(), false);
        push_line(ls, empty_line());
    }
    assert(lines_view(ls@) =~= lines_view(old(ls)@) + query_section(endpoint@, *state));
}

fn push_body_section(ls: &mut Vec<Vec<StyledSpan>>, endpoint: &ApiEndpoint, state: &AppState)
    ensures
        lines_view(final(ls)@) == lines_view(old(ls)@) + body_section(endpoint@, *state),
{
    if !endpoint.supports_body() {
        assert(lines_view(ls@) =~= lines_view(old(ls)@) + body_section(endpoint@, *state));
        return;
    }
    push_line(ls, empty_line());
    let mut h = if state.ui.body_section_expanded {
        chars_of("▼")
    } else {
        chars_of("▶")
    };
    push_str(&mut h, " Request Body:");
    let mut hl: Vec<StyledSpan> = Vec::new();
    hl.push(span(string_from_chars(h.as_slice()), Tone::GreenBold));
    hl.push(span_str("  ", Tone::Plain));
    hl.push(span_str("[Press 'b' to edit, 'x' to toggle]", Tone::Muted));
    assert(line_view(hl@) =~= seq![
        ((if state.ui.body_section_expanded { "▼"@ } else { "▶"@ }) + " Request Body:"@, Tone::GreenBold),
        ("  "@, Tone::Plain),
        ("[Press 'b' to edit, 'x' to toggle]"@, Tone::Muted),
    ]);
    push_line(ls, hl);
    let ghost mid = lines_view(ls@);
    if state.ui.body_section_expanded {
        push_line(ls, empty_line());
        let config = request_config(endpoint, state);
        let body_text = match config {
            Some(c) => match &c.body {
                Some(b) => b.clone(),
                None => "{}".to_string(),
            },
            None => "{}".to_string(),
        };
        push_body_preview(ls, body_text.as_str());
    }
    push_line(ls, empty_line());
    assert(lines_view(ls@) =~= lines_view(old(ls)@) + body_section(endpoint@, *state));
}

fn push_request_tail(ls: &mut Vec<Vec<StyledSpan>>, endpoint: &ApiEndpoint, state: &AppState)
    ensures
        lines_view(final(ls)@) == lines_view(old(ls)@) + request_tail(endpoint@, *state),
{
    let body = endpoint.supports_body();
    push_line(ls, one_line("Preview URL:".to_string(), Tone::CyanBold));
    let config = request_config(endpoint, state);
    let url = match config {
        Some(c) => build_preview_url(endpoint.path.as_str(), &c.path_params, &c.query_params),
        None => endpoint.path.clone(),
    };
    push_line(ls, one_line(url, Tone::Yellow));
    push_line(ls, empty_line());
    let help = match &state.request.edit_mode {
        RequestEditMode::Viewing => if body {
            "j/k/↑/↓: Navigate  |  e: Edit param  |  b: Edit body  |  x: Toggle body  |  Space: Execute"
        } else {
            "j/k/↑/↓: Navigate  |  e: Edit parameter  |  Space: Execute"
        },
        RequestEditMode::Editing(_) => "Type to edit  |  Enter: Confirm  |  Esc: Cancel",
    };
    push_line(ls, one_line(help.to_string(), Tone::Muted));
    assert(lines_view(ls@) =~= lines_view(old(ls)@) + request_tail(endpoint@, *state));
}

/// The lines of the Request tab of `endpoint` (see `request_tab`).
pub fn request_tab_lines(endpoint: &ApiEndpoint, state: &AppState) -> (r: Vec<Vec<StyledSpan>>)
    ensures
        lines_view(r@) == request_tab(endpoint@, *state),
{
    let path_params = endpoint.path_params();
    let query_params = endpoint.query_params();
    assert(path_params@.len() == path_params@.map_values(|p: &Parameter| *p).len());
    assert(query_params@.len() == query_params@.map_values(|p: &Parameter| *p).len());
    let np = path_params.len();
    let nq = query_params.len();
    let body = endpoint.supports_body();
    let mut r: Vec<Vec<StyledSpan>> = Vec::new();
    assert(lines_view(r@) =~= Seq::<LineView>::empty());
    if np == 0 && nq == 0 {
        push_line(&mut r, one_line("No parameters defined for this endpoint".to_string(), Tone::Muted));
        if !body {
            assert(lines_view(r@) =~= request_tab(endpoint@, *state));
            return r;
        }
        push_line(&mut r, empty_line());
    }
    push_path_section(&mut r, endpoint, state);
    push_query_section(&mut r, endpoint, state);
    push_body_section(&mut r, endpoint, state);
    push_request_tail(&mut r, endpoint, state);
    assert(lines_view(r@) =~= request_tab(endpoint@, *state));
    r
}

/// Entries in strictly increasing order of their keys.
pub open spec fn sorted_by_key(hs: Entries) -> bool {
    forall|i: int, j: int| 0 <= i < j < hs.len() ==> str_less(hs[i].0, hs[j].0)
}

/// The line of a header: its name and its value.
pub open spec fn header_line(h: (Seq<char>, Seq<char>)) -> LineView {
    seq![(h.0 + ": "@, Tone::Cyan), (h.1, Tone::Plain)]
}

/// The headers in increasing order of their names.
fn sorted_headers(m: &StringMap) -> (r: Vec<(String, String)>)
    ensures
        sorted_by_key(entry_views_of(r@)),
        entry_views_of(r@).len() == m@.len(),
        entry_views_of(r@).to_set() == m@.to_set(),
{
    let entries = m.entries();
    let ghost hs = m@;
    let mut out: Vec<(String, String)> = Vec::new();
    let mut i: usize = 0;
    while i < entries.len()
        invariant
            hs == entry_views_of(entries@),
            keys_unique(hs),
            i <= entries@.len(),
            sorted_by_key(entry_views_of(out@)),
            entry_views_of(out@).len() == i,
            entry_views_of(out@).to_set() == hs.take(i as int).to_set(),
        decreases entries@.len() - i,
    {
        let key = chars_of(entries[i].0.as_str());
        let ghost h = hs[i as int];
        let ghost ov = entry_views_of(out@);
        let mut j: usize = 0;
        let mut found = false;
        while j < out.len() && !found
            invariant
                ov == entry_views_of(out@),
                key@ == h.0,
                j <= out@.len(),
                found ==> j < out@.len() && str_less(h.0, ov[j as int].0),
                forall|k: int| 0 <= k < j ==> !str_less(h.0, #[trigger] ov[k].0),
            decreases out@.len() - j + (if found { 0int } else { 1int }),
        {
            let other = chars_of(out[j].0.as_str());
            if chars_less(key.as_slice(), other.as_slice()) {
                found = true;
            } else {
                j = j + 1;
            }
        }
        proof {
            assert forall|k: int| 0 <= k < ov.len() implies #[trigger] ov[k].0 != h.0 by {
                assert(ov.to_set().contains(ov[k]));
                assert(hs.take(i as int).to_set().contains(ov[k]));
                let t0 = hs.take(i as int);
                let w = choose|w: int| 0 <= w < t0.len() && #[trigger] t0[w] == ov[k];
                assert(hs[w] == ov[k]);
            }
            assert forall|k: int| 0 <= k < j implies str_less(#[trigger] ov[k].0, h.0) by {
                lemma_str_less_total(ov[k].0, h.0);
            }
            assert forall|k: int| j <= k < ov.len() implies str_less(h.0, #[trigger] ov[k].0) by {
                if k > j {
                    lemma_str_less_transitive(h.0, ov[j as int].0, ov[k].0);
                }
            }
        }
        let e = (entries[i].0.clone(), entries[i].1.clone());
        out.insert(j, e);
        proof {
            let nv = entry_views_of(out@);
            assert(nv =~= ov.insert(j as int, h));
            assert forall|a: int, b: int| 0 <= a < b < nv.len() implies str_less(nv[a].0, nv[b].0) by {
                if b < j {
                    assert(nv[a] == ov[a] && nv[b] == ov[b]);
                } else if b == j {
                    assert(nv[a] == ov[a] && nv[b] == h);
                } else if a < j {
                    assert(nv[a] == ov[a] && nv[b] == ov[b - 1]);
                } else if a == j {
                    assert(nv[a] == h && nv[b] == ov[b - 1]);
                } else {
                    assert(nv[a] == ov[a - 1] && nv[b] == ov[b - 1]);
                }
            }
            assert(hs.take(i + 1) =~= hs.take(i as int).push(h));
            assert(nv.to_set() =~= ov.to_set().insert(h)) by {
                assert forall|x| nv.to_set().contains(x) implies ov.to_set().insert(h).contains(x) by {
                    let w = choose|w: int| 0 <= w < nv.len() && #[trigger] nv[w] == x;
                    if w < j {
                        assert(ov[w] == x);
                    } else if w > j {
                        assert(ov[w - 1] == x);
                    }
                }
                assert forall|x| ov.to_set().insert(h).contains(x) implies nv.to_set().contains(x) by {
                    if x == h {
                        assert(nv[j as int] == h);
                    } else {
                        let w = choose|w: int| 0 <= w < ov.len() && #[trigger] ov[w] == x;
                        if w < j {
                            assert(nv[w] == x);
                        } else {
                            assert(nv[w + 1] == x);
                        }
                    }
                }
            }
            let t0 = hs.take(i as int);
            let t1 = hs.take(i + 1);
            assert(t1 =~= t0.push(h));
            assert(t1.to_set() =~= t0.to_set().insert(h)) by {
                assert forall|x| t1.to_set().contains(x) implies t0.to_set().insert(h).contains(x) by {
                    let w = choose|w: int| 0 <= w < t1.len() && #[trigger] t1[w] == x;
                    if w < i {
                        assert(t0[w] == x);
                    }
                }
                assert forall|x| t0.to_set().insert(h).contains(x) implies t1.to_set().contains(x) by {
                    if x == h {
                        assert(t1[i as int] == h);
                    } else {
                        let w = choose|w: int| 0 <= w < t0.len() && #[trigger] t0[w] == x;
                        assert(t1[w] == x);
                    }
                }
            }
        }
        i = i + 1;
    }
    assert(hs.take(i as int) =~= hs);
    out
}

/// The Headers tab: the response headers in increasing order of their
/// names, or why there are none.
pub fn headers_tab_lines(state: &AppState) -> (r: Vec<Vec<StyledSpan>>)
    ensures
        match state.request.current_response {
            None => lines_view(r@) == seq![one("No response yet"@, Tone::Muted)],
            Some(resp) => if resp.headers@.len() == 0 {
                lines_view(r@) == seq![one("No headers"@, Tone::Muted)]
            } else {
                exists|hs: Entries|
                    sorted_by_key(hs) && hs.len() == resp.headers@.len() && hs.to_set()
                        == resp.headers@.to_set() && lines_view(r@) == hs.map_values(
                        |h: (Seq<char>, Seq<char>)| header_line(h),
                    )
            },
        },
{
    let mut r: Vec<Vec<StyledSpan>> = Vec::new();
    assert(lines_view(r@) =~= Seq::<LineView>::empty());
    match &state.request.current_response {
        None => {
            push_line(&mut r, one_line("No response yet".to_string(), Tone::Muted));
            assert(lines_view(r@) =~= seq![one("No response yet"@, Tone::Muted)]);
        },
        Some(resp) => {
            if resp.headers.len() == 0 {
                push_line(&mut r, one_line("No headers".to_string(), Tone::Muted));
                assert(lines_view(r@) =~= seq![one("No headers"@, Tone::Muted)]);
            } else {
                let hs = sorted_headers(&resp.headers);
                let ghost hv = entry_views_of(hs@);
                let mut i: usize = 0;
                while i < hs.len()
                    invariant
                        hv == entry_views_of(hs@),
                        i <= hs@.len(),
                        lines_view(r@) == hv.take(i as int).map_values(|h: (Seq<char>, Seq<char>)| header_line(h)),
                    decreases hs@.len() - i,
                {
                    let mut k = chars_of(hs[i].0.as_str());
                    push_str(&mut k, ": ");
                    let mut l: Vec<StyledSpan> = Vec::new();
                    l.push(span(string_from_chars(k.as_slice()), Tone::Cyan));
                    l.push(span(hs[i].1.clone(), Tone::Plain));
                    assert(line_view(l@) =~= header_line(hv[i as int]));
                    push_line(&mut r, l);
                    i = i + 1;
                    assert(hv.take(i as int) =~= hv.take(i - 1).push(hv[i - 1]));
                    assert(lines_view(r@) =~= hv.take(i as int).map_values(|h: (Seq<char>, Seq<char>)| header_line(h)));
                }
                assert(hv.take(i as int) =~= hv);
            }
        },
    }
    r
}

/// How a body line of the Response tab is shown: the selected line (the
/// first two lines being the status and a blank line) is highlighted on the
/// Response tab, flashing after a copy.
pub open spec fn body_line_tone(s: AppState, idx: int) -> Tone {
    if s.ui.active_detail_tab == DetailTab::Response && s.ui.response_selected_line == idx + 2 {
        if s.ui.yank_flash { Tone::Flash } else { Tone::Selected }
    } else {
        Tone::Plain
    }
}

/// The Response tab for an endpoint: that its request runs; or the failure
/// and its message; or the status line, a blank line and the body
/// (pretty-printed when JSON) line by line; or how to run it.
pub open spec fn response_tab(e: EndpointView, s: AppState) -> Seq<LineView> {
    if s.request.executing_endpoint matches Some(p) && p@ == e.path {
        seq![one("⏳ Executing request..."@, Tone::Cyan)]
    } else {
        match s.request.current_response {
            Some(r) => if r.is_error {
                seq![one("❌ Error"@, Tone::RedBold), seq![]] + match r.error_message {
                    Some(m) => text_lines(m@).map_values(|l: Seq<char>| one(l, Tone::Red)),
                    None => seq![],
                }
            } else {
                let bl = text_lines(shown_body(r.body@));
                seq![
                    seq![
                        ("Status: "@, Tone::Cyan),
                        (decimal(r.status as nat) + " "@ + r.status_text@, Tone::Green),
                        ("  "@, Tone::Plain),
                        ("Duration: "@, Tone::Cyan),
                        (decimal(r.duration_ms as nat) + "ms"@, Tone::Plain),
                    ],
                    seq![],
                ] + Seq::new(bl.len(), |i: int| one(bl[i], body_line_tone(s, i)))
            },
            None => seq![one("Press [Space] to execute request"@, Tone::Muted)],
        }
    }
}

fn push_text_lines(ls: &mut Vec<Vec<StyledSpan>>, text: &str, tone: Tone)
    ensures
        lines_view(final(ls)@) == lines_view(old(ls)@) + text_lines(text@).map_values(|l: Seq<char>| one(l, tone)),
{
    let lines = split_text_lines(chars_of(text).as_slice());
    let ghost bl = string_views(lines@);
    let ghost start = lines_view(ls@);
    let mut i: usize = 0;
    while i < lines.len()
        invariant
            bl == string_views(lines@),
            bl == text_lines(text@),
            i <= lines@.len(),
            lines_view(ls@) == start + bl.take(i as int).map_values(|l: Seq<char>| one(l, tone)),
        decreases lines@.len() - i,
    {
        assert(bl[i as int] == lines@[i as int]@);
        push_line(ls, one_line(lines[i].clone(), tone));
        i = i + 1;
        assert(bl.take(i as int) =~= bl.take(i - 1).push(bl[i - 1]));
        assert(lines_view(ls@) =~= start + bl.take(i as int).map_values(|l: Seq<char>| one(l, tone)));
    }
    assert(bl.take(i as int) =~= bl);
}

fn line_tone(state: &AppState, idx: usize) -> (t: Tone)
    ensures
        t == body_line_tone(*state, idx as int),
{
    if matches!(state.ui.active_detail_tab, DetailTab::Response) && idx <= usize::MAX - 2
        && state.ui.response_selected_line == idx + 2 {
        if state.ui.yank_flash { Tone::Flash } else { Tone::Selected }
    } else {
        Tone::Plain
    }
}

/// The lines of the Response tab (see `response_tab`).
pub fn response_tab_lines(endpoint: &ApiEndpoint, state: &AppState) -> (r: Vec<Vec<StyledSpan>>)
    ensures
        lines_view(r@) == response_tab(endpoint@, *state),
{
    let mut r: Vec<Vec<StyledSpan>> = Vec::new();
    assert(lines_view(r@) =~= Seq::<LineView>::empty());
    let running = match &state.request.executing_endpoint {
        Some(p) => crate::text::str_eq(p.as_str(), endpoint.path.as_str()),
        None => false,
    };
    if running {
        push_line(&mut r, one_line("⏳ Executing request...".to_string(), Tone::Cyan));
        assert(lines_view(r@) =~= response_tab(endpoint@, *state));
        return r;
    }
    match &state.request.current_response {
        Some(resp) => {
            if resp.is_error {
                push_line(&mut r, one_line("❌ Error".to_string(), Tone::RedBold));
                push_line(&mut r, empty_line());
                match &resp.error_message {
                    Some(m) => push_text_lines(&mut r, m.as_str(), Tone::Red),
                    None => {},
                }
            } else {
                let mut st = decimal_chars_wide(resp.status as u128);
                push_str(&mut st, " ");
                push_str(&mut st, resp.status_text.as_str());
                let mut du = decimal_chars_wide(resp.duration_ms as u128);
                push_str(&mut du, "ms");
                let mut l: Vec<StyledSpan> = Vec::new();
                l.push(span_str("Status: ", Tone::Cyan));
                l.push(span(string_from_chars(st.as_slice()), Tone::Green));
                l.push(span_str("  ", Tone::Plain));
                l.push(span_str("Duration: ", Tone::Cyan));
                l.push(span(string_from_chars(du.as_slice()), Tone::Plain));
                assert(line_view(l@) =~= seq![
                    ("Status: "@, Tone::Cyan),
                    (decimal(resp.status as nat) + " "@ + resp.status_text@, Tone::Green),
                    ("  "@, Tone::Plain),
                    ("Duration: "@, Tone::Cyan),
                    (decimal(resp.duration_ms as nat) + "ms"@, Tone::Plain),
                ]);
                push_line(&mut r, l);
                push_line(&mut r, empty_line());
                let formatted = try_format_json(resp.body.as_str());
                let lines = split_text_lines(chars_of(formatted.as_str()).as_slice());
                let ghost bl = string_views(lines@);
                let ghost start = lines_view(r@);
                let mut i: usize = 0;
                while i < lines.len()
                    invariant
                        bl == string_views(lines@),
                        bl == text_lines(shown_body(resp.body@)),
                        i <= lines@.len(),
                        lines_view(r@) == start + Seq::new(i as nat, |k: int| one(bl[k], body_line_tone(*state, k))),
                    decreases lines@.len() - i,
                {
                    assert(bl[i as int] == lines@[i as int]@);
                    push_line(&mut r, one_line(lines[i].clone(), line_tone(state, i)));
                    i = i + 1;
                    assert(lines_view(r@) =~= start + Seq::new(i as nat, |k: int| one(bl[k], body_line_tone(*state, k))));
                }
            }
        },
        None => {
            push_line(&mut r, one_line("Press [Space] to execute request".to_string(), Tone::Muted));
        },
    }
    assert(lines_view(r@) =~= response_tab(endpoint@, *state));
    r
}

/// What the details panel shows.
#[derive(Debug)]
pub struct DetailsView {
    /// The tab bar, absent while loading or after a loading error.
    pub tab_bar: Option<Vec<StyledSpan>>,
    pub lines: Vec<Vec<StyledSpan>>,
    /// Lines scrolled off the top (the Response tab scrolls).
    pub scroll: usize,
    /// The border tone: highlighted while the panel has focus.
    pub border: Tone,
}

/// The content of the details panel: a loading message, the loading error,
/// or the active tab of the selected endpoint (or that none is selected).
pub open spec fn details_lines(s: AppState, sel: int) -> Seq<LineView> {
    match s.data.loading_state {
        crate::types::LoadingState::Fetching | crate::types::LoadingState::Parsing => seq![
            one("Loading endpoints..."@, Tone::Yellow),
        ],
        crate::types::LoadingState::Error(e) => seq![
            one("Error loading endpoints:"@, Tone::Red),
            one(seq![], Tone::Red),
        ] + text_lines(e@).map_values(|l: Seq<char>| one(l, Tone::Red)),
        _ => match crate::state::selected_endpoint(s, sel) {
            Some(e) => match s.ui.active_detail_tab {
                DetailTab::Endpoint => crate::views::endpoint_tab(e),
                DetailTab::Request => request_tab(e, s),
                DetailTab::Headers => seq![],
                DetailTab::Response => response_tab(e, s),
            },
            None => seq![one("No endpoint selected"@, Tone::Muted)],
        },
    }
}

/// The details panel for the endpoint at `selected_index`. Its Headers tab
/// lines are those of `headers_tab_lines`.
pub fn details_view(state: &AppState, selected_index: usize) -> (v: DetailsView)
    ensures
        v.border == if state.ui.panel_focus == crate::types::PanelFocus::Details {
            Tone::Cyan
        } else {
            Tone::Muted
        },
        (v.tab_bar is Some) == !(state.data.loading_state is Fetching || state.data.loading_state is Parsing
            || state.data.loading_state is Error),
        v.tab_bar matches Some(t) ==> line_view(t@) == crate::views::tab_bar(*state),
        v.scroll == if v.tab_bar is Some && state.ui.active_detail_tab == DetailTab::Response
            && crate::state::selected_endpoint(*state, selected_index as int) is Some {
            state.ui.response_scroll
        } else {
            0
        },
        !(v.tab_bar is Some && state.ui.active_detail_tab == DetailTab::Headers
            && crate::state::selected_endpoint(*state, selected_index as int) is Some) ==> lines_view(v.lines@)
            == details_lines(*state, selected_index as int),
{
    let border = if matches!(state.ui.panel_focus, crate::types::PanelFocus::Details) {
        Tone::Cyan
    } else {
        Tone::Muted
    };
    let mut lines: Vec<Vec<StyledSpan>> = Vec::new();
    assert(lines_view(lines@) =~= Seq::<LineView>::empty());
    match &state.data.loading_state {
        crate::types::LoadingState::Fetching | crate::types::LoadingState::Parsing => {
            push_line(&mut lines, one_line("Loading endpoints...".to_string(), Tone::Yellow));
            assert(lines_view(lines@) =~= details_lines(*state, selected_index as int));
            return DetailsView { tab_bar: None, lines, scroll: 0, border };
        },
        crate::types::LoadingState::Error(e) => {
            push_line(&mut lines, one_line("Error loading endpoints:".to_string(), Tone::Red));
            push_line(&mut lines, one_line(String::new(), Tone::Red));
            push_text_lines(&mut lines, e.as_str(), Tone::Red);
            assert(lines_view(lines@) =~= details_lines(*state, selected_index as int));
            return DetailsView { tab_bar: None, lines, scroll: 0, border };
        },
        _ => {},
    }
    let tab_bar = Some(crate::views::tab_bar_spans(state));
    let mut scroll: usize = 0;
    match state.get_selected_endpoint(selected_index) {
        Some(endpoint) => match state.ui.active_detail_tab {
            DetailTab::Endpoint => {
                lines = crate::views::endpoint_tab_lines(&endpoint);
            },
            DetailTab::Request => {
                lines = request_tab_lines(&endpoint, state);
            },
            DetailTab::Headers => {
                lines = headers_tab_lines(state);
            },
            DetailTab::Response => {
                lines = response_tab_lines(&endpoint, state);
                scroll = state.ui.response_scroll;
            },
        },
        None => {
            push_line(&mut lines, one_line("No endpoint selected".to_string(), Tone::Muted));
            assert(lines_view(lines@) =~= details_lines(*state, selected_index as int));
        },
    }
    DetailsView { tab_bar, lines, scroll, border }
}

} // verus!
