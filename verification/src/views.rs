//! What the screen shows, as text and tones: the header, the search bar,
//! the footer, the endpoint list, the tab bar and the Endpoint tab. Drawing
//! it (layout, colours, widgets) belongs to the program around the library.
use vstd::prelude::*;
use crate::editor::string_views;
use crate::state::{
    active_endpoint_views, active_groups, shown_rows, AppState, AuthState, RowView,
};
use crate::text::{chars_of, decimal, decimal_chars, decimal_chars_wide, join, push_all, push_joined, string_from_chars};
use crate::types::{
    endpoint_views, ApiEndpoint, DetailTab, EndpointView, InputMode, LoadingState, PanelFocus,
    RenderItem, ViewMode,
};
use crate::utils::{mask_token, maskable, masked_form};

verus! {

/// The colour of an HTTP method's name.
#[derive(Debug, Clone, Copy, PartialEq, Eq, Structural)]
pub enum MethodColor {
    Green,
    Blue,
    Yellow,
    Red,
    Cyan,
    /// The terminal's own colour.
    Reset,
}

/// How a piece of text is shown.
#[derive(Debug, Clone, Copy, PartialEq, Eq, Structural)]
pub enum Tone {
    Plain,
    Muted,
    Gray,
    White,
    Yellow,
    YellowBold,
    Green,
    GreenBold,
    Cyan,
    CyanBold,
    LightCyan,
    MagentaBold,
    DimMagenta,
    Red,
    RedBold,
    /// The selected line of a response (grey background).
    Selected,
    /// The selected line of a response just copied (green background).
    Flash,
    /// An HTTP method, in bold.
    Method(MethodColor),
}

/// A piece of text with its tone.
#[derive(Debug)]
pub struct StyledSpan {
    pub text: String,
    pub tone: Tone,
}

impl View for StyledSpan {
    type V = (Seq<char>, Tone);

    open spec fn view(&self) -> (Seq<char>, Tone) {
        (self.text@, self.tone)
    }
}

/// A line of spans, by view.
pub open spec fn line_view(l: Seq<StyledSpan>) -> Seq<(Seq<char>, Tone)> {
    l.map_values(|s: StyledSpan| s@)
}

/// Lines of spans, by view.
pub open spec fn lines_view(ls: Seq<Vec<StyledSpan>>) -> Seq<Seq<(Seq<char>, Tone)>> {
    ls.map_values(|l: Vec<StyledSpan>| line_view(l@))
}

/// A span of `text` in `tone`.
pub fn span(text: String, tone: Tone) -> (s: StyledSpan)
    ensures
        s@ == (text@, tone),
{
    StyledSpan { text, tone }
}

/// A span of the literal `text` in `tone`.
pub fn span_str(text: &str, tone: Tone) -> (s: StyledSpan)
    ensures
        s@ == (text@, tone),
{
    StyledSpan { text: text.to_string(), tone }
}

/// The colour of a method name (exact, upper-case names).
pub open spec fn method_color(m: Seq<char>) -> MethodColor {
    if m == "GET"@ {
        MethodColor::Green
    } else if m == "POST"@ {
        MethodColor::Blue
    } else if m == "PUT"@ {
        MethodColor::Yellow
    } else if m == "DELETE"@ {
        MethodColor::Red
    } else if m == "PATCH"@ {
        MethodColor::Cyan
    } else {
        MethodColor::Reset
    }
}

/// The colour of a method name (see `method_color`).
pub fn get_method_color(method: &str) -> (c: MethodColor)
    ensures
        c == method_color(method@),
{
    if crate::text::str_eq(method, "GET") {
        MethodColor::Green
    } else if crate::text::str_eq(method, "POST") {
        MethodColor::Blue
    } else if crate::text::str_eq(method, "PUT") {
        MethodColor::Yellow
    } else if crate::text::str_eq(method, "DELETE") {
        MethodColor::Red
    } else if crate::text::str_eq(method, "PATCH") {
        MethodColor::Cyan
    } else {
        MethodColor::Reset
    }
}

/// Appends the characters of `t`.
fn push_str(v: &mut Vec<char>, t: &str)
    ensures
        final(v)@ == old(v)@ + t@,
{
    let c = chars_of(t);
    push_all(v, c.as_slice());
}

/// The authentication part of the header: the masked token with the keys
/// to edit or clear it, or that no token is set.
pub open spec fn auth_status(token: Option<String>, r: Seq<char>) -> bool {
    match token {
        Some(t) => exists|m: Seq<char>|
            masked_form(t@, m) && r == "🔒 "@ + m + " | 'a':edit 'A':clear"@,
        None => r == "🔓 Not authenticated | 'a':set token"@,
    }
}

/// The authentication part of the header (see `auth_status`).
pub fn get_auth_status_text(auth: &AuthState) -> (r: String)
    requires
        auth.token matches Some(t) ==> maskable(t@),
    ensures
        auth_status(auth.token, r@),
{
    match &auth.token {
        Some(t) => {
            let masked = mask_token(t.as_str());
            let mut v = chars_of("🔒 ");
            push_str(&mut v, masked.as_str());
            push_str(&mut v, " | 'a':edit 'A':clear");
            let r = string_from_chars(v.as_slice());
            assert(r@ == "🔒 "@ + masked@ + " | 'a':edit 'A':clear"@);
            r
        },
        None => "🔓 Not authenticated | 'a':set token".to_string(),
    }
}

/// The loading status shown in the header.
pub open spec fn loading_status(l: LoadingState, count: nat) -> Seq<char> {
    match l {
        LoadingState::Idle => "Idle"@,
        LoadingState::Fetching => "Fetching..."@,
        LoadingState::Parsing => "Parsing..."@,
        LoadingState::Complete => decimal(count) + " endpoints loaded"@,
        LoadingState::Error(_) => "Error"@,
    }
}

/// The header line: the Swagger URL (or that none is configured), the
/// loading status and the authentication status.
pub fn header_text(swagger_url: &Option<String>, loading_state: &LoadingState, endpoints_count: usize, auth: &AuthState) -> (r: String)
    requires
        auth.token matches Some(t) ==> maskable(t@),
    ensures
        exists|a: Seq<char>|
            auth_status(auth.token, a) && r@ == "lazy swagger tui - "@ + match swagger_url {
                Some(u) => u@,
                None => "No URL configured"@,
            } + " ["@ + loading_status(*loading_state, endpoints_count as nat) + "] | "@ + a,
{
    let mut v = chars_of("lazy swagger tui - ");
    match swagger_url {
        Some(u) => push_str(&mut v, u.as_str()),
        None => push_str(&mut v, "No URL configured"),
    }
    push_str(&mut v, " [");
    match loading_state {
        LoadingState::Idle => push_str(&mut v, "Idle"),
        LoadingState::Fetching => push_str(&mut v, "Fetching..."),
        LoadingState::Parsing => push_str(&mut v, "Parsing..."),
        LoadingState::Complete => {
            let d = decimal_chars(endpoints_count);
            push_all(&mut v, d.as_slice());
            push_str(&mut v, " endpoints loaded");
        },
        LoadingState::Error(_) => push_str(&mut v, "Error"),
    }
    push_str(&mut v, "] | ");
    let a = get_auth_status_text(auth);
    push_str(&mut v, a.as_str());
    let r = string_from_chars(v.as_slice());
    assert(r@ =~= "lazy swagger tui - "@ + match swagger_url {
        Some(u) => u@,
        None => "No URL configured"@,
    } + " ["@ + loading_status(*loading_state, endpoints_count as nat) + "] | "@ + a@);
    r
}

/// The search bar: its title, its text and the tone of its border.
#[derive(Debug)]
pub struct SearchBar {
    pub title: String,
    pub text: String,
    pub border: Tone,
}

/// The search bar: while a query is in force the title counts the matches
/// among all endpoints; while typing, the text ends with a cursor `_`; the
/// border is cyan while typing, green while a query is in force, muted
/// otherwise.
pub fn search_bar(state: &AppState) -> (b: SearchBar)
    ensures
        b.title@ == if state.search.query@.len() > 0 {
            " Search ["@ + decimal(state.search.filtered_endpoints@.len()) + "/"@ + decimal(
                state.data.endpoints@.len(),
            ) + "] "@
        } else {
            " Search (/) "@
        },
        b.text@ == if state.input.mode == InputMode::Searching {
            state.search.query@ + "_"@
        } else {
            state.search.query@
        },
        b.border == if state.input.mode == InputMode::Searching {
            Tone::Cyan
        } else if state.search.query@.len() > 0 {
            Tone::Green
        } else {
            Tone::Muted
        },
{
    let searching = matches!(state.input.mode, InputMode::Searching);
    let has_query = !state.search.query.as_str().is_empty();
    let title = if has_query {
        let mut v = chars_of(" Search [");
        let c = decimal_chars(state.search.filtered_endpoints.len());
        push_all(&mut v, c.as_slice());
        push_str(&mut v, "/");
        let t = decimal_chars(state.data.endpoints.len());
        push_all(&mut v, t.as_slice());
        push_str(&mut v, "] ");
        string_from_chars(v.as_slice())
    } else {
        " Search (/) ".to_string()
    };
    let text = if searching {
        let mut v = chars_of(state.search.query.as_str());
        push_str(&mut v, "_");
        string_from_chars(v.as_slice())
    } else {
        state.search.query.clone()
    };
    let border = if searching {
        Tone::Cyan
    } else if has_query {
        Tone::Green
    } else {
        Tone::Muted
    };
    SearchBar { title, text, border }
}

/// The footer's key help: for the view mode in use, with the yank key added
/// while a response is shown on the Response tab.
pub open spec fn footer(s: AppState) -> Seq<char> {
    let base = match s.ui.view_mode {
        ViewMode::Flat => "Tab:Panel j/k/↑/↓:Nav Space:Execute/Toggle | g:Group ,:URL a:Auth q:Quit"@,
        ViewMode::Grouped => "Tab:Panel j/k/↑/↓:Nav Space:Execute/Toggle | g:Ungroup ,:URL a:Auth q:Quit"@,
    };
    if s.ui.panel_focus == PanelFocus::Details && s.ui.active_detail_tab == DetailTab::Response
        && s.request.current_response is Some {
        base + " | y:Yank"@
    } else {
        base
    }
}

/// The footer text (see `footer`).
pub fn footer_text(state: &AppState) -> (r: String)
    ensures
        r@ == footer(*state),
{
    let mut v = match state.ui.view_mode {
        ViewMode::Flat => chars_of("Tab:Panel j/k/↑/↓:Nav Space:Execute/Toggle | g:Group ,:URL a:Auth q:Quit"),
        ViewMode::Grouped => chars_of("Tab:Panel j/k/↑/↓:Nav Space:Execute/Toggle | g:Ungroup ,:URL a:Auth q:Quit"),
    };
    if matches!(state.ui.panel_focus, PanelFocus::Details) && matches!(state.ui.active_detail_tab, DetailTab::Response)
        && state.request.current_response.is_some() {
        push_str(&mut v, " | y:Yank");
    }
    string_from_chars(v.as_slice())
}

/// The frames of the loading spinner.
pub open spec fn spinner_frame(i: int) -> Seq<char> {
    if i == 0 {
        "⠋"@
    } else if i == 1 {
        "⠙"@
    } else if i == 2 {
        "⠹"@
    } else {
        "⠸"@
    }
}

/// The loading message: a spinner frame, what is being done, and a request to wait.
pub fn loading_text(loading_state: &LoadingState, spinner_index: usize) -> (r: String)
    requires
        spinner_index < 4,
    ensures
        r@ == spinner_frame(spinner_index as int) + " "@ + match *loading_state {
            LoadingState::Fetching => "Fetching swagger.json"@,
            LoadingState::Parsing => "Parsing endpoints"@,
            _ => Seq::<char>::empty(),
        } + "\n\nPlease wait..."@,
{
    let mut v = if spinner_index == 0 {
        chars_of("⠋")
    } else if spinner_index == 1 {
        chars_of("⠙")
    } else if spinner_index == 2 {
        chars_of("⠹")
    } else {
        chars_of("⠸")
    };
    push_str(&mut v, " ");
    match loading_state {
        LoadingState::Fetching => push_str(&mut v, "Fetching swagger.json"),
        LoadingState::Parsing => push_str(&mut v, "Parsing endpoints"),
        _ => {},
    }
    push_str(&mut v, "\n\nPlease wait...");
    let r = string_from_chars(v.as_slice());
    assert(r@ =~= spinner_frame(spinner_index as int) + " "@ + match *loading_state {
        LoadingState::Fetching => "Fetching swagger.json"@,
        LoadingState::Parsing => "Parsing endpoints"@,
        _ => Seq::<char>::empty(),
    } + "\n\nPlease wait..."@);
    r
}

/// The message shown when loading failed, with the attempt count after a retry.
pub fn error_text(error: &str, retry_count: u32) -> (r: String)
    ensures
        r@ == "❌ "@ + error@ + (if retry_count > 0 {
            "\n\nRetry attempt: "@ + decimal(retry_count as nat)
        } else {
            Seq::<char>::empty()
        }) + "\n\nPress [R] to retry\nPress [F5] to refresh"@,
{
    let mut v = chars_of("❌ ");
    push_str(&mut v, error);
    if retry_count > 0 {
        push_str(&mut v, "\n\nRetry attempt: ");
        let d = decimal_chars_wide(retry_count as u128);
        push_all(&mut v, d.as_slice());
    }
    push_str(&mut v, "\n\nPress [R] to retry\nPress [F5] to refresh");
    let r = string_from_chars(v.as_slice());
    assert(r@ =~= "❌ "@ + error@ + (if retry_count > 0 {
        "\n\nRetry attempt: "@ + decimal(retry_count as nat)
    } else {
        Seq::<char>::empty()
    }) + "\n\nPress [R] to retry\nPress [F5] to refresh"@);
    r
}

/// What the endpoint panel shows.
#[derive(Debug, Clone, Copy, PartialEq, Eq, Structural)]
pub enum EndpointsContent {
    /// The spinner, while fetching or parsing.
    Loading,
    /// The loading error.
    Failed,
    /// A search query that matches nothing.
    NoResults,
    /// No endpoint loaded.
    Empty,
    FlatList,
    GroupedList,
}

/// What the endpoint panel shows for the state.
pub open spec fn endpoints_content(s: AppState) -> EndpointsContent {
    match s.data.loading_state {
        LoadingState::Fetching | LoadingState::Parsing => EndpointsContent::Loading,
        LoadingState::Error(_) => EndpointsContent::Failed,
        _ => if active_endpoint_views(s).len() == 0 {
            if s.search.query@.len() > 0 {
                EndpointsContent::NoResults
            } else {
                EndpointsContent::Empty
            }
        } else {
            match s.ui.view_mode {
                ViewMode::Flat => EndpointsContent::FlatList,
                ViewMode::Grouped => EndpointsContent::GroupedList,
            }
        },
    }
}

/// Decides `endpoints_content`.
pub fn endpoints_panel_content(state: &AppState) -> (c: EndpointsContent)
    ensures
        c == endpoints_content(*state),
{
    match &state.data.loading_state {
        LoadingState::Fetching | LoadingState::Parsing => EndpointsContent::Loading,
        LoadingState::Error(_) => EndpointsContent::Failed,
        _ => {
            if state.active_endpoints().len() == 0 {
                if !state.search.query.as_str().is_empty() {
                    EndpointsContent::NoResults
                } else {
                    EndpointsContent::Empty
                }
            } else {
                match state.ui.view_mode {
                    ViewMode::Flat => EndpointsContent::FlatList,
                    ViewMode::Grouped => EndpointsContent::GroupedList,
                }
            }
        },
    }
}

/// `s` padded with spaces to at least 7 characters (`format!("{:7}", s)`).
pub open spec fn pad7(s: Seq<char>) -> Seq<char> {
    if s.len() < 7 {
        s + Seq::new((7 - s.len()) as nat, |i: int| ' ')
    } else {
        s
    }
}

fn push_pad7(v: &mut Vec<char>, s: &str)
    ensures
        final(v)@ == old(v)@ + pad7(s@),
{
    let c = chars_of(s);
    push_all(v, c.as_slice());
    let mut n = c.len();
    let ghost base = old(v)@ + s@;
    while n < 7
        invariant
            c@ == s@,
            c@.len() <= n <= 7 || (n == c@.len() && n >= 7),
            v@ == base + Seq::new((n - c@.len()) as nat, |i: int| ' '),
        decreases 7 - n,
    {
        v.push(' ');
        n = n + 1;
        assert(v@ =~= base + Seq::new((n - c@.len()) as nat, |i: int| ' '));
    }
    assert(v@ =~= old(v)@ + pad7(s@));
}

/// The row of an endpoint in a list: its method (padded, coloured), a
/// space and its path.
pub open spec fn endpoint_row(e: EndpointView) -> Seq<(Seq<char>, Tone)> {
    seq![(pad7(e.method), Tone::Method(method_color(e.method))), (" "@, Tone::Plain), (e.path, Tone::Plain)]
}

fn endpoint_row_spans(e: &ApiEndpoint) -> (r: Vec<StyledSpan>)
    ensures
        line_view(r@) == endpoint_row(e@),
{
    let mut m: Vec<char> = Vec::new();
    push_pad7(&mut m, e.method.as_str());
    let mut r: Vec<StyledSpan> = Vec::new();
    r.push(span(string_from_chars(m.as_slice()), Tone::Method(get_method_color(e.method.as_str()))));
    r.push(span_str(" ", Tone::Plain));
    r.push(span(e.path.clone(), Tone::Plain));
    assert(line_view(r@) =~= endpoint_row(e@));
    r
}

/// The rows of the flat list: the shown endpoints, in order.
pub fn flat_list_rows(state: &AppState) -> (r: Vec<Vec<StyledSpan>>)
    ensures
        lines_view(r@) == active_endpoint_views(*state).map_values(|e: EndpointView| endpoint_row(e)),
{
    let eps = state.active_endpoints();
    let ghost ev = endpoint_views(eps@);
    let mut r: Vec<Vec<StyledSpan>> = Vec::new();
    let mut i: usize = 0;
    while i < eps.len()
        invariant
            ev == endpoint_views(eps@),
            ev == active_endpoint_views(*state),
            i <= eps@.len(),
            lines_view(r@) == ev.take(i as int).map_values(|e: EndpointView| endpoint_row(e)),
        decreases eps@.len() - i,
    {
        let row = endpoint_row_spans(&eps[i]);
        let ghost before = r@;
        r.push(row);
        i = i + 1;
        assert(ev.take(i as int) =~= ev.take(i - 1).push(ev[i - 1]));
        assert(lines_view(r@) =~= lines_view(before).push(endpoint_row(ev[i - 1])));
    }
    assert(ev.take(i as int) =~= ev);
    r
}

/// The title of the flat list.
pub fn flat_list_title(state: &AppState) -> (r: String)
    ensures
        r@ == "[1] Endpoints ("@ + decimal(active_endpoint_views(*state).len()) + ")"@,
{
    let mut v = chars_of("[1] Endpoints (");
    let d = decimal_chars(state.active_endpoints().len());
    push_all(&mut v, d.as_slice());
    push_str(&mut v, ")");
    string_from_chars(v.as_slice())
}

/// A row of the grouped list: a group header (`▼` expanded, `▶` collapsed,
/// then its name and endpoint count) or an indented endpoint row.
pub open spec fn grouped_row(r: RowView) -> Seq<(Seq<char>, Tone)> {
    match r {
        RowView::Header { name, count, expanded } => seq![(
            (if expanded { "▼"@ } else { "▶"@ }) + " "@ + name + " ("@ + decimal(count) + ")"@,
            Tone::CyanBold,
        )],
        RowView::Row(e) => seq![("  "@, Tone::Plain)] + endpoint_row(e),
    }
}

/// The rows of the grouped list (see `grouped_row`).
pub fn grouped_list_rows(state: &AppState) -> (r: Vec<Vec<StyledSpan>>)
    ensures
        lines_view(r@) == shown_rows(*state).map_values(|x: RowView| grouped_row(x)),
{
    let items = state.get_render_items();
    let ghost rows = crate::state::row_views(items@);
    let mut r: Vec<Vec<StyledSpan>> = Vec::new();
    let mut i: usize = 0;
    while i < items.len()
        invariant
            rows == crate::state::row_views(items@),
            rows == shown_rows(*state),
            i <= items@.len(),
            lines_view(r@) == rows.take(i as int).map_values(|x: RowView| grouped_row(x)),
        decreases items@.len() - i,
    {
        assert(rows[i as int] == items@[i as int].row_view());
        let line = match &items[i] {
            RenderItem::GroupHeader { name, count, expanded } => {
                let mut v = if *expanded {
                    chars_of("▼")
                } else {
                    chars_of("▶")
                };
                push_str(&mut v, " ");
                push_str(&mut v, name.as_str());
                push_str(&mut v, " (");
                let d = decimal_chars(*count);
                push_all(&mut v, d.as_slice());
                push_str(&mut v, ")");
                let mut l: Vec<StyledSpan> = Vec::new();
                l.push(span(string_from_chars(v.as_slice()), Tone::CyanBold));
                assert(line_view(l@) =~= grouped_row(rows[i as int]));
                l
            },
            RenderItem::Endpoint { endpoint } => {
                let mut rest = endpoint_row_spans(endpoint);
                let mut l: Vec<StyledSpan> = Vec::new();
                l.push(span_str("  ", Tone::Plain));
                l.append(&mut rest);
                assert(line_view(l@) =~= grouped_row(rows[i as int]));
                l
            },
        };
        let ghost before = r@;
        r.push(line);
        i = i + 1;
        assert(rows.take(i as int) =~= rows.take(i - 1).push(rows[i - 1]));
        assert(lines_view(r@) =~= lines_view(before).push(grouped_row(rows[i - 1])));
    }
    assert(rows.take(i as int) =~= rows);
    r
}

/// The title of the grouped list.
pub fn grouped_list_title(state: &AppState) -> (r: String)
    ensures
        r@ == "[1] Endpoints - "@ + decimal(active_groups(*state).len()) + " groups"@,
{
    let mut v = chars_of("[1] Endpoints - ");
    let d = decimal_chars(state.active_grouped_endpoints().len());
    push_all(&mut v, d.as_slice());
    push_str(&mut v, " groups");
    string_from_chars(v.as_slice())
}

/// The tab bar: the four tab names in brackets, the active one highlighted;
/// the Response tab reads `Response (...)` while a request runs.
pub open spec fn tab_bar(s: AppState) -> Seq<(Seq<char>, Tone)> {
    let t = s.ui.active_detail_tab;
    let tone = |x: DetailTab| if t == x { Tone::CyanBold } else { Tone::Plain };
    seq![
        ("[ "@, Tone::Muted),
        ("Endpoint"@, tone(DetailTab::Endpoint)),
        (" ] [ "@, Tone::Muted),
        ("Request"@, tone(DetailTab::Request)),
        (" ] [ "@, Tone::Muted),
        ("Headers"@, tone(DetailTab::Headers)),
        (" ] [ "@, Tone::Muted),
        (if s.request.executing_endpoint is Some { "Response (...)"@ } else { "Response"@ }, tone(DetailTab::Response)),
        (" ]"@, Tone::Muted),
    ]
}

fn tab_tone(active: DetailTab, t: DetailTab) -> (r: Tone)
    ensures
        r == if active == t { Tone::CyanBold } else { Tone::Plain },
{
    if active == t {
        Tone::CyanBold
    } else {
        Tone::Plain
    }
}

/// The tab bar (see `tab_bar`).
pub fn tab_bar_spans(state: &AppState) -> (r: Vec<StyledSpan>)
    ensures
        line_view(r@) == tab_bar(*state),
{
    let t = state.ui.active_detail_tab;
    let mut r: Vec<StyledSpan> = Vec::new();
    r.push(span_str("[ ", Tone::Muted));
    r.push(span_str("Endpoint", tab_tone(t, DetailTab::Endpoint)));
    r.push(span_str(" ] [ ", Tone::Muted));
    r.push(span_str("Request", tab_tone(t, DetailTab::Request)));
    r.push(span_str(" ] [ ", Tone::Muted));
    r.push(span_str("Headers", tab_tone(t, DetailTab::Headers)));
    r.push(span_str(" ] [ ", Tone::Muted));
    let label = if state.request.executing_endpoint.is_some() {
        "Response (...)"
    } else {
        "Response"
    };
    r.push(span_str(label, tab_tone(t, DetailTab::Response)));
    r.push(span_str(" ]", Tone::Muted));
    assert(line_view(r@) =~= tab_bar(*state));
    r
}

/// The Endpoint tab: the method (coloured) and path, an empty line, the
/// summary if any and the tags if any.
pub open spec fn endpoint_tab(e: EndpointView) -> Seq<Seq<(Seq<char>, Tone)>> {
    seq![
        seq![(e.method, Tone::Method(method_color(e.method))), (" "@, Tone::Plain), (e.path, Tone::Plain)],
        seq![],
    ] + match e.summary {
        Some(s) => seq![seq![("Summary: "@, Tone::Cyan), (s, Tone::Plain)]],
        None => seq![],
    } + if e.tags.len() > 0 {
        seq![seq![("Tags: "@, Tone::Cyan), (join(string_views(e.tags), ", "@), Tone::Plain)]]
    } else {
        seq![]
    }
}

/// The lines of the Endpoint tab (see `endpoint_tab`).
pub fn endpoint_tab_lines(endpoint: &ApiEndpoint) -> (r: Vec<Vec<StyledSpan>>)
    ensures
        lines_view(r@) == endpoint_tab(endpoint@),
{
    let mut r: Vec<Vec<StyledSpan>> = Vec::new();
    let mut first: Vec<StyledSpan> = Vec::new();
    first.push(span(endpoint.method.clone(), Tone::Method(get_method_color(endpoint.method.as_str()))));
    first.push(span_str(" ", Tone::Plain));
    first.push(span(endpoint.path.clone(), Tone::Plain));
    let ghost e = endpoint@;
    assert(line_view(first@) =~= seq![(e.method, Tone::Method(method_color(e.method))), (" "@, Tone::Plain), (e.path, Tone::Plain)]);
    r.push(first);
    let empty: Vec<StyledSpan> = Vec::new();
    assert(line_view(empty@) =~= Seq::<(Seq<char>, Tone)>::empty());
    r.push(empty);
    let ghost head = seq![
        seq![(e.method, Tone::Method(method_color(e.method))), (" "@, Tone::Plain), (e.path, Tone::Plain)],
        Seq::<(Seq<char>, Tone)>::empty(),
    ];
    assert(lines_view(r@)[0] == head[0]);
    assert(lines_view(r@)[1] == head[1]);
    assert(lines_view(r@) =~= head);
    let ghost sum_part: Seq<Seq<(Seq<char>, Tone)>> = match e.summary {
        Some(x) => seq![seq![("Summary: "@, Tone::Cyan), (x, Tone::Plain)]],
        None => seq![],
    };
    match &endpoint.summary {
        Some(s) => {
            let mut l: Vec<StyledSpan> = Vec::new();
            l.push(span_str("Summary: ", Tone::Cyan));
            l.push(span(s.clone(), Tone::Plain));
            assert(line_view(l@) =~= seq![("Summary: "@, Tone::Cyan), (s@, Tone::Plain)]);
            let ghost b = r@;
            r.push(l);
            assert(lines_view(r@) =~= lines_view(b).push(line_view(l@)));
            assert(lines_view(r@) =~= head + sum_part);
        },
        None => {
            assert(lines_view(r@) =~= head + sum_part);
        },
    }
    assert(lines_view(r@) =~= head + sum_part);
    if endpoint.tags.len() > 0 {
        let mut t: Vec<char> = Vec::new();
        push_joined(&mut t, endpoint.tags.as_slice(), ", ");
        assert(string_views(endpoint.tags@) =~= endpoint.tags@.map_values(|s: String| s@));
        let mut l: Vec<StyledSpan> = Vec::new();
        l.push(span_str("Tags: ", Tone::Cyan));
        l.push(span(string_from_chars(t.as_slice()), Tone::Plain));
        assert(line_view(l@) =~= seq![("Tags: "@, Tone::Cyan), (join(string_views(e.tags), ", "@), Tone::Plain)]);
        let ghost b = r@;
        r.push(l);
        assert(lines_view(r@) =~= lines_view(b).push(line_view(l@)));
    }
    assert(lines_view(r@) =~= endpoint_tab(endpoint@));
    r
}

/// One field of the URL dialog: its label (an arrow marks the field that
/// has focus), its text and their tones.
#[derive(Debug)]
pub struct UrlFieldView {
    pub label: String,
    pub label_tone: Tone,
    pub text: String,
    pub text_tone: Tone,
}

/// The URL dialog: the Swagger URL field, then the base URL field.
pub fn url_dialog_fields(state: &AppState) -> (r: (UrlFieldView, UrlFieldView))
    ensures
        ({
            let sw = state.input.active_url_field == crate::types::UrlInputField::SwaggerUrl;
            &&& r.0.label@ == if sw { "► Swagger URL:"@ } else { "  Swagger URL:"@ }
            &&& r.0.label_tone == if sw { Tone::Yellow } else { Tone::LightCyan }
            &&& r.0.text@ == state.input.url_input@
            &&& r.0.text_tone == if sw { Tone::YellowBold } else { Tone::Gray }
            &&& r.1.label@ == if !sw { "► API Base URL:"@ } else { "  API Base URL:"@ }
            &&& r.1.label_tone == if !sw { Tone::Yellow } else { Tone::LightCyan }
            &&& r.1.text@ == state.input.base_url_input@
            &&& r.1.text_tone == if !sw { Tone::YellowBold } else { Tone::Gray }
        }),
{
    let sw = matches!(state.input.active_url_field, crate::types::UrlInputField::SwaggerUrl);
    let swagger = UrlFieldView {
        label: (if sw { "► Swagger URL:" } else { "  Swagger URL:" }).to_string(),
        label_tone: if sw { Tone::Yellow } else { Tone::LightCyan },
        text: state.input.url_input.clone(),
        text_tone: if sw { Tone::YellowBold } else { Tone::Gray },
    };
    let base = UrlFieldView {
        label: (if !sw { "► API Base URL:" } else { "  API Base URL:" }).to_string(),
        label_tone: if !sw { Tone::Yellow } else { Tone::LightCyan },
        text: state.input.base_url_input.clone(),
        text_tone: if !sw { Tone::YellowBold } else { Tone::Gray },
    };
    (swagger, base)
}

/// The border tone of the endpoint list: highlighted while it has focus.
pub fn endpoints_border(state: &AppState) -> (t: Tone)
    ensures
        t == if state.ui.panel_focus == PanelFocus::EndpointsList { Tone::Cyan } else { Tone::Muted },
{
    if matches!(state.ui.panel_focus, PanelFocus::EndpointsList) {
        Tone::Cyan
    } else {
        Tone::Muted
    }
}

} // verus!
