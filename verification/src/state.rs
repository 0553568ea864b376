//! The application state and the queries and updates on it.
use vstd::prelude::*;
use crate::editor::{empty_editor, BodyEditor, ContentType};
use crate::groups::{group_endpoints, grouped, EndpointGroups, GroupView};
use crate::strmap::{has_key, insert_entry, key_index, keys_unique, lemma_insert_entry_unique, lookup, Entries, StringMap};
use crate::text::{chars_of, contains_chars, contains_seq, str_eq};
use crate::types::{
    endpoint_views, lower, to_lowercase, ApiEndpoint, ApiResponse, ConfigView,
    DefaultValue, DetailTab, EndpointView, InputMode, LoadingState, PanelFocus, Parameter,
    RenderItem, RequestConfig, RequestEditMode, UrlInputField, ViewMode,
};
use crate::utils::{mask_token, maskable, masked_form};

verus! {

/// The bearer token, if one is set.
#[derive(Debug)]
pub struct AuthState {
    pub token: Option<String>,
}

impl AuthState {
    /// No token.
    pub fn new() -> (r: Self)
        ensures
            r.token is None,
    {
        AuthState { token: None }
    }

    /// Sets the token.
    pub fn set_token(&mut self, token: String)
        ensures
            final(self).token == Some(token),
    {
        self.token = Some(token);
    }

    /// Removes the token.
    pub fn clear_token(&mut self)
        ensures
            final(self).token is None,
    {
        self.token = None;
    }

    /// Whether a token is set.
    pub fn is_authenticated(&self) -> (r: bool)
        ensures
            r == self.token is Some,
    {
        self.token.is_some()
    }

    /// The token masked for display (see `mask_token`); empty when none is set.
    pub fn get_masked_display(&self) -> (r: String)
        requires
            self.token matches Some(t) ==> maskable(t@),
        ensures
            match self.token {
                Some(t) => masked_form(t@, r@),
                None => r@.len() == 0,
            },
    {
        match &self.token {
            Some(t) => mask_token(t.as_str()),
            None => String::new(),
        }
    }
}

/// Request configurations by endpoint path.
pub type ConfigEntries = Seq<(Seq<char>, ConfigView)>;

/// Index of the first entry with key `k`, or the length when there is none.
pub open spec fn index_of_key(s: ConfigEntries, k: Seq<char>) -> int
    decreases s.len(),
{
    if s.len() == 0 {
        0
    } else if s[0].0 == k {
        0
    } else {
        1 + index_of_key(s.drop_first(), k)
    }
}

pub proof fn lemma_index_of_key(s: ConfigEntries, k: Seq<char>)
    ensures
        0 <= index_of_key(s, k) <= s.len(),
        index_of_key(s, k) < s.len() ==> s[index_of_key(s, k)].0 == k,
        forall|j: int| 0 <= j < index_of_key(s, k) ==> s[j].0 != k,
    decreases s.len(),
{
    if s.len() > 0 && s[0].0 != k {
        lemma_index_of_key(s.drop_first(), k);
        assert forall|j: int| 0 <= j < index_of_key(s, k) implies s[j].0 != k by {
            if j > 0 {
                assert(s[j] == s.drop_first()[j - 1]);
            }
        }
        if index_of_key(s, k) < s.len() {
            assert(s[index_of_key(s, k)] == s.drop_first()[index_of_key(s.drop_first(), k)]);
        }
    }
}

/// Request configurations, looked up by endpoint path.
#[derive(Debug)]
pub struct ConfigStore {
    entries: Vec<(String, RequestConfig)>,
}

impl View for ConfigStore {
    type V = ConfigEntries;

    closed spec fn view(&self) -> ConfigEntries {
        self.entries@.map_values(|e: (String, RequestConfig)| (e.0@, e.1@))
    }
}

impl ConfigStore {
    /// No configuration.
    pub fn new() -> (r: Self)
        ensures
            r@.len() == 0,
    {
        ConfigStore { entries: Vec::new() }
    }

    /// Number of configurations.
    pub fn len(&self) -> (n: usize)
        ensures
            n == self@.len(),
    {
        self.entries.len()
    }

    /// The configurations with their paths.
    pub fn entries(&self) -> (r: &[(String, RequestConfig)])
        ensures
            r@.map_values(|e: (String, RequestConfig)| (e.0@, e.1@)) == self@,
    {
        self.entries.as_slice()
    }

    fn find(&self, path: &str) -> (r: usize)
        ensures
            r == index_of_key(self@, path@),
    {
        proof {
            lemma_index_of_key(self@, path@);
        }
        let mut i: usize = 0;
        while i < self.entries.len()
            invariant
                i <= self.entries@.len(),
                self@.len() == self.entries@.len(),
                forall|j: int| 0 <= j < i ==> self@[j].0 != path@,
            decreases self.entries@.len() - i,
        {
            assert(self@[i as int].0 == self.entries@[i as int].0@);
            if str_eq(self.entries[i].0.as_str(), path) {
                proof {
                    lemma_index_of_key(self@, path@);
                    if index_of_key(self@, path@) != i {
                        assert(index_of_key(self@, path@) > i);
                    }
                }
                return i;
            }
            i = i + 1;
        }
        proof {
            lemma_index_of_key(self@, path@);
            if index_of_key(self@, path@) < i {
                assert(self@[index_of_key(self@, path@)].0 == path@);
            }
        }
        i
    }

    /// The configuration of `path`.
    pub fn get(&self, path: &str) -> (r: Option<&RequestConfig>)
        ensures
            ({
                let i = index_of_key(self@, path@);
                if i < self@.len() {
                    r matches Some(c) && c@ == self@[i].1
                } else {
                    r is None
                }
            }),
    {
        let i = self.find(path);
        proof {
            lemma_index_of_key(self@, path@);
        }
        if i < self.entries.len() {
            Some(&self.entries[i].1)
        } else {
            None
        }
    }

    /// Whether `path` has a configuration.
    pub fn contains_key(&self, path: &str) -> (r: bool)
        ensures
            r == (index_of_key(self@, path@) < self@.len()),
    {
        self.find(path) < self.entries.len()
    }

    fn at_mut(&mut self, i: usize) -> (r: &mut RequestConfig)
        requires
            i < old(self)@.len(),
        ensures
            r@ == old(self)@[i as int].1,
            final(self)@ == old(self)@.update(i as int, (old(self)@[i as int].0, final(r)@)),
    {
        let r = &mut self.entries[i].1;
        r
    }

    /// The configuration of `path`, added as `init` first when there is none.
    pub fn get_or_insert(&mut self, path: String, init: RequestConfig) -> (r: &mut RequestConfig)
        ensures
            ({
                let s = old(self)@;
                let i = index_of_key(s, path@);
                if i < s.len() {
                    &&& r@ == s[i].1
                    &&& final(self)@ == s.update(i, (path@, final(r)@))
                } else {
                    &&& r@ == init@
                    &&& final(self)@ == s.push((path@, final(r)@))
                }
            }),
    {
        proof {
            lemma_index_of_key(self@, path@);
        }
        let i = self.find(path.as_str());
        if i < self.entries.len() {
            self.at_mut(i)
        } else {
            self.entries.push((path, init));
            assert(self@ =~= old(self)@.push((path@, init@)));
            let n = self.entries.len() - 1;
            self.at_mut(n)
        }
    }
}

/// Data loaded from the specification.
#[derive(Debug)]
pub struct DataState {
    pub endpoints: Vec<ApiEndpoint>,
    pub grouped_endpoints: EndpointGroups,
    pub loading_state: LoadingState,
    pub retry_count: u32,
}

/// What is shown and where the focus is.
#[derive(Debug)]
pub struct UiState {
    pub view_mode: ViewMode,
    /// Names of the expanded groups.
    pub expanded_groups: Vec<String>,
    pub panel_focus: PanelFocus,
    pub active_detail_tab: DetailTab,
    pub selected_param_index: usize,
    pub body_section_expanded: bool,
    pub response_scroll: usize,
    pub response_selected_line: usize,
    pub yank_flash: bool,
}

/// Text typed into dialogs.
#[derive(Debug)]
pub struct InputState {
    pub mode: InputMode,
    pub token_input: String,
    pub url_input: String,
    pub base_url_input: String,
    pub active_url_field: UrlInputField,
    pub body_editor: BodyEditor,
    pub body_validation_error: Option<String>,
}

/// Requests, their configurations and the last response.
#[derive(Debug)]
pub struct RequestState {
    pub auth: AuthState,
    /// Path of the endpoint whose request is running.
    pub executing_endpoint: Option<String>,
    pub current_response: Option<ApiResponse>,
    pub configs: ConfigStore,
    pub edit_mode: RequestEditMode,
    pub param_edit_buffer: String,
}

/// The search query and what it lets through.
#[derive(Debug)]
pub struct SearchState {
    pub query: String,
    pub filtered_endpoints: Vec<ApiEndpoint>,
    pub filtered_grouped_endpoints: EndpointGroups,
}

/// The whole application state.
#[derive(Debug)]
pub struct AppState {
    pub data: DataState,
    pub ui: UiState,
    pub input: InputState,
    pub request: RequestState,
    pub search: SearchState,
}

/// The names in a list of strings, as a set.
pub open spec fn string_set(v: Seq<String>) -> Set<Seq<char>> {
    Set::new(|x: Seq<char>| exists|i: int| 0 <= i < v.len() && v[i]@ == x)
}

/// Whether some string of `v` equals `s`.
pub fn contains_string(v: &Vec<String>, s: &str) -> (r: bool)
    ensures
        r == string_set(v@).contains(s@),
{
    let mut i: usize = 0;
    while i < v.len()
        invariant
            i <= v@.len(),
            forall|j: int| 0 <= j < i ==> v@[j]@ != s@,
        decreases v@.len() - i,
    {
        if str_eq(v[i].as_str(), s) {
            return true;
        }
        i = i + 1;
    }
    false
}

/// A row of the grouped list, by view.
pub enum RowView {
    Header { name: Seq<char>, count: nat, expanded: bool },
    Row(EndpointView),
}

impl RenderItem {
    pub open spec fn row_view(self) -> RowView {
        match self {
            RenderItem::GroupHeader { name, count, expanded } => RowView::Header {
                name: name@,
                count: count as nat,
                expanded,
            },
            RenderItem::Endpoint { endpoint } => RowView::Row(endpoint@),
        }
    }
}

pub open spec fn row_views(v: Seq<RenderItem>) -> Seq<RowView> {
    v.map_values(|r: RenderItem| r.row_view())
}

/// The rows of one group: its header, then its endpoints when it is expanded.
pub open spec fn group_rows(g: GroupView, expanded: Set<Seq<char>>) -> Seq<RowView> {
    let e = expanded.contains(g.0);
    seq![RowView::Header { name: g.0, count: g.1.len(), expanded: e }] + if e {
        g.1.map_values(|v: EndpointView| RowView::Row(v))
    } else {
        Seq::empty()
    }
}

/// The rows of the grouped list, groups in order.
pub open spec fn render_rows(gs: Seq<GroupView>, expanded: Set<Seq<char>>) -> Seq<RowView>
    decreases gs.len(),
{
    if gs.len() == 0 {
        seq![]
    } else {
        render_rows(gs.drop_last(), expanded) + group_rows(gs.last(), expanded)
    }
}

/// Whether a search query is in force.
pub open spec fn searching(s: AppState) -> bool {
    s.search.query@.len() > 0
}

/// The endpoints shown in the flat list.
pub open spec fn active_endpoint_views(s: AppState) -> Seq<EndpointView> {
    if searching(s) {
        endpoint_views(s.search.filtered_endpoints@)
    } else {
        endpoint_views(s.data.endpoints@)
    }
}

/// The groups shown in the grouped list.
pub open spec fn active_groups(s: AppState) -> Seq<GroupView> {
    if searching(s) {
        s.search.filtered_grouped_endpoints@
    } else {
        s.data.grouped_endpoints@
    }
}

/// The rows of the grouped list as shown.
pub open spec fn shown_rows(s: AppState) -> Seq<RowView> {
    render_rows(active_groups(s), string_set(s.ui.expanded_groups@))
}

/// The number of rows of the list in the current view mode.
pub open spec fn visible_count(s: AppState) -> int {
    match s.ui.view_mode {
        ViewMode::Flat => active_endpoint_views(s).len() as int,
        ViewMode::Grouped => shown_rows(s).len() as int,
    }
}

/// The endpoint at position `i` of the list in the current view mode.
pub open spec fn selected_endpoint(s: AppState, i: int) -> Option<EndpointView> {
    match s.ui.view_mode {
        ViewMode::Flat => if 0 <= i < s.data.endpoints@.len() {
            Some(s.data.endpoints@[i]@)
        } else {
            None
        },
        ViewMode::Grouped => if 0 <= i < shown_rows(s).len() {
            match shown_rows(s)[i] {
                RowView::Row(e) => Some(e),
                RowView::Header { .. } => None,
            }
        } else {
            None
        },
    }
}

/// Whether the endpoint's path, method, summary or one of its tags contains
/// the (lower-case) query, compared in lower case.
pub open spec fn endpoint_matches(e: EndpointView, q: Seq<char>) -> bool {
    ||| contains_seq(lower(e.path), q)
    ||| contains_seq(lower(e.method), q)
    ||| (e.summary matches Some(s) && contains_seq(lower(s), q))
    ||| exists|i: int| 0 <= i < e.tags.len() && contains_seq(lower(e.tags[i]@), q)
}

/// Law: a search finds an endpoint exactly when its path, its method, its
/// summary or one of its tags contains the query, each compared in lower
/// case: each of these fields alone is enough.
pub proof fn law_search_by_each_field(eps: Seq<EndpointView>, query: Seq<char>, k: int)
    requires
        0 <= k < eps.len(),
    ensures
        ({
            let q = lower(query);
            let e = eps[k];
            let found = eps.filter(|e: EndpointView| endpoint_matches(e, lower(query))).contains(e);
            &&& contains_seq(lower(e.path), q) ==> found
            &&& contains_seq(lower(e.method), q) ==> found
            &&& (e.summary matches Some(s) && contains_seq(lower(s), q)) ==> found
            &&& forall|i: int| 0 <= i < e.tags.len() && #[trigger] contains_seq(lower(e.tags[i]@), q) ==> found
            &&& found ==> {
                ||| contains_seq(lower(e.path), q)
                ||| contains_seq(lower(e.method), q)
                ||| (e.summary matches Some(s) && contains_seq(lower(s), q))
                ||| exists|i: int| 0 <= i < e.tags.len() && #[trigger] contains_seq(lower(e.tags[i]@), q)
            }
        }),
{
    let pred = |e: EndpointView| endpoint_matches(e, lower(query));
    let e = eps[k];
    let r = eps.filter(pred);
    if endpoint_matches(e, lower(query)) {
        eps.lemma_filter_contains(pred, k);
    }
    if r.contains(e) {
        let j = choose|j: int| 0 <= j < r.len() && r[j] == e;
        eps.lemma_filter_pred(pred, j);
    }
}

/// The text of a default value.
pub open spec fn default_text(d: DefaultValue) -> Seq<char> {
    match d {
        DefaultValue::Text(s) => s@,
        DefaultValue::Json(s) => s@,
    }
}

/// The default value of a parameter, as text.
pub open spec fn param_default(p: Parameter) -> Option<Seq<char>> {
    match p.schema {
        Some(sc) => match sc.default {
            Some(d) => Some(default_text(d)),
            None => None,
        },
        None => None,
    }
}

/// The values after setting up parameter `p`: its default when it has one,
/// and an empty value when it has none yet.
pub open spec fn with_param(m: Entries, p: Parameter) -> Entries {
    let m1 = match param_default(p) {
        Some(t) => insert_entry(m, p.name@, t),
        None => m,
    };
    if has_key(m1, p.name@) {
        m1
    } else {
        m1.push((p.name@, seq![]))
    }
}

/// The configuration an endpoint starts with: every path and query
/// parameter present, with its default value or empty.
pub open spec fn initial_config(ps: Seq<Parameter>) -> ConfigView
    decreases ps.len(),
{
    if ps.len() == 0 {
        ConfigView { query_params: seq![], path_params: seq![], body: None }
    } else {
        let c = initial_config(ps.drop_last());
        let p = ps.last();
        if p.location@ == "path"@ {
            ConfigView { path_params: with_param(c.path_params, p), ..c }
        } else if p.location@ == "query"@ {
            ConfigView { query_params: with_param(c.query_params, p), ..c }
        } else {
            c
        }
    }
}

/// Whether `p` is the parameter named `n` at location `loc`.
pub open spec fn names_param(p: Parameter, loc: Seq<char>, n: Seq<char>) -> bool {
    p.location@ == loc && p.name@ == n
}

/// The values of `c` at location `loc` (`"path"` or `"query"`).
pub open spec fn values_at(c: ConfigView, loc: Seq<char>) -> Entries {
    if loc == "path"@ {
        c.path_params
    } else {
        c.query_params
    }
}

proof fn lemma_push_new_key(m: Entries, k: Seq<char>, v: Seq<char>, n: Seq<char>)
    requires
        keys_unique(m),
        !has_key(m, k),
    ensures
        keys_unique(m.push((k, v))),
        lookup(m.push((k, v)), n) == if n == k {
            Some(v)
        } else {
            lookup(m, n)
        },
{
    let t = m.push((k, v));
    assert(t[m.len() as int].0 == k);
    if has_key(m, n) {
        let j = key_index(m, n);
        assert(t[j].0 == n);
    }
    if has_key(t, n) {
        let j = key_index(t, n);
        if j < m.len() {
            assert(m[j].0 == n);
        }
    }
}

proof fn lemma_with_param(m: Entries, p: Parameter, n: Seq<char>)
    requires
        keys_unique(m),
    ensures
        keys_unique(with_param(m, p)),
        p.name@ != n ==> lookup(with_param(m, p), n) == lookup(m, n),
        p.name@ == n ==> lookup(with_param(m, p), n) == match param_default(p) {
            Some(t) => Some(t),
            None => if lookup(m, n) is Some {
                lookup(m, n)
            } else {
                Some(Seq::<char>::empty())
            },
        },
{
    let k = p.name@;
    let m1 = match param_default(p) {
        Some(t) => insert_entry(m, k, t),
        None => m,
    };
    if let Some(t) = param_default(p) {
        lemma_insert_entry_unique(m, k, t);
    }
    if !has_key(m1, k) {
        lemma_push_new_key(m1, k, seq![], n);
    }
}

/// Law: the configuration an endpoint starts with holds each of its path
/// and query parameters once: with the default of the last parameter of
/// that name and location that has one, else empty; names of no such
/// parameter are absent.
pub proof fn law_initial_values(ps: Seq<Parameter>, loc: Seq<char>, n: Seq<char>)
    requires
        loc == "path"@ || loc == "query"@,
    ensures
        keys_unique(values_at(initial_config(ps), loc)),
        forall|k: int|
            0 <= k < ps.len() && #[trigger] names_param(ps[k], loc, n) && param_default(ps[k]) is Some
                && (forall|j: int| k < j < ps.len() && names_param(ps[j], loc, n) ==> param_default(ps[j]) is None)
                ==> lookup(values_at(initial_config(ps), loc), n) == param_default(ps[k]),
        (exists|k: int| 0 <= k < ps.len() && #[trigger] names_param(ps[k], loc, n)) && (forall|k: int|
            0 <= k < ps.len() && #[trigger] names_param(ps[k], loc, n) ==> param_default(ps[k]) is None)
            ==> lookup(values_at(initial_config(ps), loc), n) == Some(Seq::<char>::empty()),
        (forall|k: int| 0 <= k < ps.len() ==> !#[trigger] names_param(ps[k], loc, n)) ==> lookup(
            values_at(initial_config(ps), loc),
            n,
        ) is None,
    decreases ps.len(),
{
    reveal_strlit("path");
    reveal_strlit("query");
    assert("path"@[0] != "query"@[0]);
    let vals = values_at(initial_config(ps), loc);
    if ps.len() == 0 {
        assert(!has_key(vals, n));
    } else {
        let q = ps.drop_last();
        let p = ps.last();
        law_initial_values(q, loc, n);
        let old_vals = values_at(initial_config(q), loc);
        assert forall|j: int| 0 <= j < q.len() implies ps[j] == q[j] by {}
        if p.location@ == loc {
            assert(vals == with_param(old_vals, p));
            lemma_with_param(old_vals, p, n);
        } else {
            assert(vals == old_vals);
        }
        let last = ps.len() - 1;
        assert(ps[last] == p);
        // The last parameter with a default decides.
        assert forall|k: int|
            0 <= k < ps.len() && #[trigger] names_param(ps[k], loc, n) && param_default(ps[k]) is Some
                && (forall|j: int| k < j < ps.len() && names_param(ps[j], loc, n) ==> param_default(ps[j]) is None)
            implies lookup(vals, n) == param_default(ps[k]) by {
            if k < last {
                assert(names_param(q[k], loc, n));
                assert forall|j: int| k < j < q.len() && names_param(q[j], loc, n) implies param_default(q[j]) is None by {
                    assert(ps[j] == q[j]);
                }
                if names_param(p, loc, n) {
                    assert(names_param(ps[last], loc, n));
                }
            }
        }
        if (exists|k: int| 0 <= k < ps.len() && #[trigger] names_param(ps[k], loc, n)) && (forall|k: int|
            0 <= k < ps.len() && #[trigger] names_param(ps[k], loc, n) ==> param_default(ps[k]) is None) {
            assert forall|k: int| 0 <= k < q.len() && #[trigger] names_param(q[k], loc, n) implies param_default(q[k]) is None by {
                assert(names_param(ps[k], loc, n));
            }
            if names_param(p, loc, n) {
                assert(names_param(ps[last], loc, n));
                assert(param_default(p) is None);
            }
            if exists|k: int| 0 <= k < q.len() && #[trigger] names_param(q[k], loc, n) {
                let k = choose|k: int| 0 <= k < q.len() && #[trigger] names_param(q[k], loc, n);
                assert(names_param(ps[k], loc, n));
                assert(lookup(old_vals, n) == Some(Seq::<char>::empty()));
            } else {
                let k = choose|k: int| 0 <= k < ps.len() && #[trigger] names_param(ps[k], loc, n);
                if k < last {
                    assert(names_param(q[k], loc, n));
                }
                assert(names_param(ps[last], loc, n));
            }
        }
        if forall|k: int| 0 <= k < ps.len() ==> !#[trigger] names_param(ps[k], loc, n) {
            assert forall|k: int| 0 <= k < q.len() implies !#[trigger] names_param(q[k], loc, n) by {
                assert(!names_param(ps[k], loc, n));
            }
            assert(!names_param(ps[last], loc, n));
        }
    }
}

/// Index of the first endpoint with path `p`, or the length when there is none.
pub open spec fn index_of_path(eps: Seq<ApiEndpoint>, p: Seq<char>) -> int
    decreases eps.len(),
{
    if eps.len() == 0 {
        0
    } else if eps[0].path@ == p {
        0
    } else {
        1 + index_of_path(eps.drop_first(), p)
    }
}

pub proof fn lemma_index_of_path(eps: Seq<ApiEndpoint>, p: Seq<char>)
    ensures
        0 <= index_of_path(eps, p) <= eps.len(),
        index_of_path(eps, p) < eps.len() ==> eps[index_of_path(eps, p)].path@ == p,
        forall|j: int| 0 <= j < index_of_path(eps, p) ==> eps[j].path@ != p,
    decreases eps.len(),
{
    if eps.len() > 0 && eps[0].path@ != p {
        lemma_index_of_path(eps.drop_first(), p);
        assert forall|j: int| 0 <= j < index_of_path(eps, p) implies eps[j].path@ != p by {
            if j > 0 {
                assert(eps[j] == eps.drop_first()[j - 1]);
            }
        }
        if index_of_path(eps, p) < eps.len() {
            assert(eps[index_of_path(eps, p)] == eps.drop_first()[index_of_path(eps.drop_first(), p)]);
        }
    }
}

/// The text of a default value: a JSON string as its contents, anything else
/// as its JSON text.
pub fn json_value_to_string(value: &DefaultValue) -> (r: String)
    ensures
        r@ == default_text(*value),
{
    match value {
        DefaultValue::Text(s) => s.clone(),
        DefaultValue::Json(s) => s.clone(),
    }
}

fn setup_param(m: &mut StringMap, p: &Parameter)
    ensures
        final(m)@ == with_param(old(m)@, *p),
{
    match &p.schema {
        Some(sc) => match &sc.default {
            Some(d) => {
                let t = json_value_to_string(d);
                m.insert(p.name.clone(), t);
            },
            None => {},
        },
        None => {},
    }
    m.insert_if_absent(p.name.clone(), String::new());
}

/// The configuration an endpoint starts with.
pub fn initial_request_config(params: &Vec<Parameter>) -> (r: RequestConfig)
    ensures
        r@ == initial_config(params@),
{
    let mut c = RequestConfig::default();
    let mut i: usize = 0;
    assert(c@ =~= initial_config(params@.take(0)));
    while i < params.len()
        invariant
            i <= params@.len(),
            c@ == initial_config(params@.take(i as int)),
        decreases params@.len() - i,
    {
        let p = &params[i];
        assert(params@.take(i + 1).drop_last() =~= params@.take(i as int));
        assert(params@.take(i + 1).last() == *p);
        if str_eq(p.location.as_str(), "path") {
            setup_param(&mut c.path_params, p);
        } else if str_eq(p.location.as_str(), "query") {
            setup_param(&mut c.query_params, p);
        }
        i = i + 1;
    }
    assert(params@.take(i as int) =~= params@);
    c
}

/// The state's parts other than the request configurations are equal.
pub open spec fn same_but_configs(a: AppState, b: AppState) -> bool {
    &&& a.data == b.data
    &&& a.ui == b.ui
    &&& a.input == b.input
    &&& a.search == b.search
    &&& a.request.auth == b.request.auth
    &&& a.request.executing_endpoint == b.request.executing_endpoint
    &&& a.request.current_response == b.request.current_response
    &&& a.request.edit_mode == b.request.edit_mode
    &&& a.request.param_edit_buffer == b.request.param_edit_buffer
}

/// The state's parts other than the search results are equal.
pub open spec fn same_but_search_results(a: AppState, b: AppState) -> bool {
    &&& a.data == b.data
    &&& a.ui == b.ui
    &&& a.input == b.input
    &&& a.request == b.request
    &&& a.search.query == b.search.query
}

impl AppState {
    /// The well-formedness of the state: the body editor's invariant.
    pub open spec fn wf(&self) -> bool {
        self.input.body_editor.wf()
    }

    /// The state the application starts in.
    pub fn default() -> (s: Self)
        ensures
            s.wf(),
            s.data.endpoints@.len() == 0,
            s.data.grouped_endpoints@.len() == 0,
            s.data.loading_state is Idle,
            s.data.retry_count == 0,
            s.ui.view_mode == ViewMode::Grouped,
            s.ui.expanded_groups@.len() == 0,
            s.ui.panel_focus == PanelFocus::EndpointsList,
            s.ui.active_detail_tab == DetailTab::Endpoint,
            s.ui.selected_param_index == 0,
            s.ui.body_section_expanded,
            s.ui.response_scroll == 0,
            s.ui.response_selected_line == 0,
            !s.ui.yank_flash,
            s.input.mode == InputMode::Normal,
            s.input.token_input@.len() == 0,
            s.input.url_input@.len() == 0,
            s.input.base_url_input@.len() == 0,
            s.input.active_url_field == UrlInputField::SwaggerUrl,
            s.input.body_editor@ == empty_editor(false, ContentType::Json),
            s.input.body_validation_error is None,
            s.request.auth.token is None,
            s.request.executing_endpoint is None,
            s.request.current_response is None,
            s.request.configs@.len() == 0,
            s.request.edit_mode is Viewing,
            s.request.param_edit_buffer@.len() == 0,
            s.search.query@.len() == 0,
            s.search.filtered_endpoints@.len() == 0,
            s.search.filtered_grouped_endpoints@.len() == 0,
    {
        AppState {
            data: DataState {
                endpoints: Vec::new(),
                grouped_endpoints: EndpointGroups::new(),
                loading_state: LoadingState::Idle,
                retry_count: 0,
            },
            ui: UiState {
                view_mode: ViewMode::Grouped,
                expanded_groups: Vec::new(),
                panel_focus: PanelFocus::EndpointsList,
                active_detail_tab: DetailTab::Endpoint,
                selected_param_index: 0,
                body_section_expanded: true,
                response_scroll: 0,
                response_selected_line: 0,
                yank_flash: false,
            },
            input: InputState {
                mode: InputMode::Normal,
                token_input: String::new(),
                url_input: String::new(),
                base_url_input: String::new(),
                active_url_field: UrlInputField::SwaggerUrl,
                body_editor: BodyEditor::new(),
                body_validation_error: None,
            },
            request: RequestState {
                auth: AuthState::new(),
                executing_endpoint: None,
                current_response: None,
                configs: ConfigStore::new(),
                edit_mode: RequestEditMode::Viewing,
                param_edit_buffer: String::new(),
            },
            search: SearchState {
                query: String::new(),
                filtered_endpoints: Vec::new(),
                filtered_grouped_endpoints: EndpointGroups::new(),
            },
        }
    }

    /// The rows of the grouped list: each group's header, followed by its
    /// endpoints when the group is expanded; groups in the order of their names.
    pub fn get_render_items(&self) -> (r: Vec<RenderItem>)
        ensures
            row_views(r@) == shown_rows(*self),
    {
        let groups = self.active_grouped_endpoints().groups();
        let ghost gs = active_groups(*self);
        let ghost ex = string_set(self.ui.expanded_groups@);
        let mut items: Vec<RenderItem> = Vec::new();
        let mut i: usize = 0;
        while i < groups.len()
            invariant
                crate::groups::group_views(groups@) == gs,
                ex == string_set(self.ui.expanded_groups@),
                i <= groups@.len(),
                row_views(items@) == render_rows(gs.take(i as int), ex),
            decreases groups@.len() - i,
        {
            let g = &groups[i];
            let ghost gv = gs[i as int];
            assert(gv == (g.name@, endpoint_views(g.endpoints@)));
            assert(gs.take(i + 1).drop_last() =~= gs.take(i as int));
            let expanded = contains_string(&self.ui.expanded_groups, g.name.as_str());
            let ghost start = row_views(items@);
            items.push(
                RenderItem::GroupHeader {
                    name: g.name.clone(),
                    count: g.endpoints.len(),
                    expanded,
                },
            );
            assert(row_views(items@) =~= start + seq![
                RowView::Header { name: gv.0, count: gv.1.len(), expanded },
            ]);
            if expanded {
                let mut k: usize = 0;
                while k < g.endpoints.len()
                    invariant
                        k <= g.endpoints@.len(),
                        row_views(items@) == start + seq![
                            RowView::Header { name: gv.0, count: gv.1.len(), expanded },
                        ] + endpoint_views(g.endpoints@).take(k as int).map_values(
                            |v: EndpointView| RowView::Row(v),
                        ),
                    decreases g.endpoints@.len() - k,
                {
                    let ghost before = items@;
                    items.push(RenderItem::Endpoint { endpoint: g.endpoints[k].clone() });
                    k = k + 1;
                    assert(row_views(items@) =~= row_views(before).push(
                        RowView::Row(g.endpoints@[k - 1]@),
                    ));
                    assert(endpoint_views(g.endpoints@).take(k as int).map_values(
                        |v: EndpointView| RowView::Row(v),
                    ) =~= endpoint_views(g.endpoints@).take(k - 1).map_values(
                        |v: EndpointView| RowView::Row(v),
                    ).push(RowView::Row(g.endpoints@[k - 1]@)));
                }
                assert(endpoint_views(g.endpoints@).take(k as int) =~= gv.1);
            }
            assert(row_views(items@) =~= render_rows(gs.take(i as int), ex) + group_rows(gv, ex));
            i = i + 1;
        }
        assert(gs.take(i as int) =~= gs);
        items
    }

    /// The endpoint at position `selected_index` of the list in the current
    /// view mode (none on a group header or past the end).
    pub fn get_selected_endpoint(&self, selected_index: usize) -> (r: Option<ApiEndpoint>)
        ensures
            match selected_endpoint(*self, selected_index as int) {
                Some(e) => r matches Some(x) && x@ == e,
                None => r is None,
            },
    {
        match self.ui.view_mode {
            ViewMode::Flat => {
                if selected_index < self.data.endpoints.len() {
                    Some(self.data.endpoints[selected_index].clone())
                } else {
                    None
                }
            },
            ViewMode::Grouped => {
                let items = self.get_render_items();
                if selected_index < items.len() {
                    assert(row_views(items@)[selected_index as int] == items@[selected_index as int].row_view());
                    match &items[selected_index] {
                        RenderItem::Endpoint { endpoint } => Some(endpoint.clone()),
                        RenderItem::GroupHeader { .. } => None,
                    }
                } else {
                    None
                }
            },
        }
    }

    /// The configuration of `endpoint`, created with its parameters' default
    /// values (or empty values) when it has none yet.
    pub fn get_or_create_request_config(&mut self, endpoint: &ApiEndpoint) -> (r: &mut RequestConfig)
        ensures
            ({
                let s = old(self).request.configs@;
                let i = index_of_key(s, endpoint.path@);
                if i < s.len() {
                    &&& r@ == s[i].1
                    &&& final(self).request.configs@ == s.update(i, (endpoint.path@, final(r)@))
                } else {
                    &&& r@ == initial_config(endpoint.parameters@)
                    &&& final(self).request.configs@ == s.push((endpoint.path@, final(r)@))
                }
            }),
            same_but_configs(*final(self), *old(self)),
    {
        let init = if self.request.configs.contains_key(endpoint.path.as_str()) {
            RequestConfig::default()
        } else {
            initial_request_config(&endpoint.parameters)
        };
        self.request.configs.get_or_insert(endpoint.path.clone(), init)
    }

    /// The endpoints of the flat list: the search results while a query is
    /// in force, all endpoints otherwise.
    pub fn active_endpoints(&self) -> (r: &Vec<ApiEndpoint>)
        ensures
            endpoint_views(r@) == active_endpoint_views(*self),
    {
        if self.search.query.as_str().is_empty() {
            &self.data.endpoints
        } else {
            &self.search.filtered_endpoints
        }
    }

    /// The groups of the grouped list: of the search results while a query
    /// is in force, of all endpoints otherwise.
    pub fn active_grouped_endpoints(&self) -> (r: &EndpointGroups)
        ensures
            r@ == active_groups(*self),
    {
        if self.search.query.as_str().is_empty() {
            &self.data.grouped_endpoints
        } else {
            &self.search.filtered_grouped_endpoints
        }
    }

    /// The first endpoint with path `path`.
    pub fn get_selected_endpoint_by_path(&self, path: &str) -> (r: Option<&ApiEndpoint>)
        ensures
            ({
                let i = index_of_path(self.data.endpoints@, path@);
                if i < self.data.endpoints@.len() {
                    r == Some(&self.data.endpoints@[i])
                } else {
                    r is None
                }
            }),
    {
        let mut i: usize = 0;
        while i < self.data.endpoints.len()
            invariant
                i <= self.data.endpoints@.len(),
                forall|j: int| 0 <= j < i ==> self.data.endpoints@[j].path@ != path@,
            decreases self.data.endpoints@.len() - i,
        {
            if str_eq(self.data.endpoints[i].path.as_str(), path) {
                proof {
                    lemma_index_of_path(self.data.endpoints@, path@);
                    let k = index_of_path(self.data.endpoints@, path@);
                    if k < i {
                        assert(self.data.endpoints@[k].path@ != path@);
                    }
                    if k > i {
                        assert(self.data.endpoints@[i as int].path@ != path@);
                    }
                }
                return Some(&self.data.endpoints[i]);
            }
            i = i + 1;
        }
        proof {
            lemma_index_of_path(self.data.endpoints@, path@);
            let k = index_of_path(self.data.endpoints@, path@);
            if k < i {
                assert(self.data.endpoints@[k].path@ == path@);
            }
        }
        None
    }

    /// The configuration of `path`, created empty when it has none yet.
    pub fn get_or_create_request_config_by_path(&mut self, path: &str) -> (r: &mut RequestConfig)
        ensures
            ({
                let s = old(self).request.configs@;
                let i = index_of_key(s, path@);
                if i < s.len() {
                    &&& r@ == s[i].1
                    &&& final(self).request.configs@ == s.update(i, (path@, final(r)@))
                } else {
                    &&& r@ == (ConfigView { query_params: seq![], path_params: seq![], body: None })
                    &&& final(self).request.configs@ == s.push((path@, final(r)@))
                }
            }),
            same_but_configs(*final(self), *old(self)),
    {
        let init = RequestConfig::default();
        assert(init@ =~= (ConfigView { query_params: seq![], path_params: seq![], body: None }));
        self.request.configs.get_or_insert(path.to_owned(), init)
    }

    /// Recomputes the search results: with an empty query there are none;
    /// otherwise they are the endpoints whose path, method, summary or a tag
    /// contains the query (in lower case), in order, and their groups.
    pub fn update_filtered_endpoints(&mut self)
        ensures
            same_but_search_results(*final(self), *old(self)),
            !searching(*old(self)) ==> final(self).search.filtered_endpoints@.len() == 0
                && final(self).search.filtered_grouped_endpoints@.len() == 0,
            searching(*old(self)) ==> {
                &&& endpoint_views(final(self).search.filtered_endpoints@) == endpoint_views(
                    old(self).data.endpoints@,
                ).filter(|e: EndpointView| endpoint_matches(e, lower(old(self).search.query@)))
                &&& final(self).search.filtered_grouped_endpoints@ == grouped(
                    endpoint_views(final(self).search.filtered_endpoints@),
                )
            },
    {
        if self.search.query.as_str().is_empty() {
            self.search.filtered_endpoints = Vec::new();
            self.search.filtered_grouped_endpoints = EndpointGroups::new();
            return;
        }
        let q = chars_of(to_lowercase(self.search.query.as_str()).as_str());
        let ghost pred = |e: EndpointView| endpoint_matches(e, lower(old(self).search.query@));
        let mut filtered: Vec<ApiEndpoint> = Vec::new();
        let mut i: usize = 0;
        while i < self.data.endpoints.len()
            invariant
                q@ == lower(self.search.query@),
                self.search.query == old(self).search.query,
                self.data == old(self).data,
                pred == (|e: EndpointView| endpoint_matches(e, lower(old(self).search.query@))),
                i <= self.data.endpoints@.len(),
                endpoint_views(filtered@) == endpoint_views(self.data.endpoints@).take(i as int).filter(pred),
            decreases self.data.endpoints@.len() - i,
        {
            let e = &self.data.endpoints[i];
            let m = endpoint_matches_query(e, q.as_slice());
            let ghost views = endpoint_views(self.data.endpoints@);
            assert(views.take(i + 1).drop_last() =~= views.take(i as int));
            assert(views.take(i + 1).last() == e@);
            reveal_with_fuel(Seq::filter, 1);
            if m {
                let ghost before = filtered@;
                filtered.push(e.clone());
                assert(endpoint_views(filtered@) =~= endpoint_views(before).push(e@));
            }
            i = i + 1;
        }
        assert(endpoint_views(self.data.endpoints@).take(i as int) =~= endpoint_views(self.data.endpoints@));
        let groups = group_endpoints(&filtered);
        self.search.filtered_endpoints = filtered;
        self.search.filtered_grouped_endpoints = groups;
    }
}

/// Whether `text` in lower case contains `q`.
fn lower_contains(text: &str, q: &[char]) -> (r: bool)
    ensures
        r == contains_seq(lower(text@), q@),
{
    let l = chars_of(to_lowercase(text).as_str());
    contains_chars(l.as_slice(), q)
}

/// Computes `endpoint_matches(e, q)`.
fn endpoint_matches_query(e: &ApiEndpoint, q: &[char]) -> (r: bool)
    ensures
        r == endpoint_matches(e@, q@),
{
    if lower_contains(e.path.as_str(), q) || lower_contains(e.method.as_str(), q) {
        return true;
    }
    let s = match &e.summary {
        Some(s) => lower_contains(s.as_str(), q),
        None => false,
    };
    if s {
        return true;
    }
    let mut i: usize = 0;
    while i < e.tags.len()
        invariant
            i <= e.tags@.len(),
            forall|j: int| 0 <= j < i ==> !contains_seq(lower(e.tags@[j]@), q@),
        decreases e.tags@.len() - i,
    {
        if lower_contains(e.tags[i].as_str(), q) {
            assert(e@.tags[i as int] == e.tags@[i as int]);
            assert(0 <= i < e@.tags.len() && contains_seq(lower(e@.tags[i as int]@), q@));
            return true;
        }
        i = i + 1;
    }
    false
}

/// The number of rows of the list in the current view mode (at most `usize::MAX`).
pub fn count_visible_items(state: &AppState) -> (r: usize)
    ensures
        r as int == if visible_count(*state) <= usize::MAX {
            visible_count(*state)
        } else {
            usize::MAX as int
        },
{
    match state.ui.view_mode {
        ViewMode::Flat => state.active_endpoints().len(),
        ViewMode::Grouped => {
            let groups = state.active_grouped_endpoints().groups();
            let ghost gs = active_groups(*state);
            let ghost ex = string_set(state.ui.expanded_groups@);
            let mut count: usize = 0;
            let mut i: usize = 0;
            while i < groups.len()
                invariant
                    crate::groups::group_views(groups@) == gs,
                    gs == active_groups(*state),
                    state.ui.view_mode == ViewMode::Grouped,
                    ex == string_set(state.ui.expanded_groups@),
                    i <= groups@.len(),
                    count as int == render_rows(gs.take(i as int), ex).len(),
                decreases groups@.len() - i,
            {
                let g = &groups[i];
                let ghost gv = gs[i as int];
                assert(gv == (g.name@, endpoint_views(g.endpoints@)));
                assert(gs.take(i + 1).drop_last() =~= gs.take(i as int));
                let expanded = contains_string(&state.ui.expanded_groups, g.name.as_str());
                proof {
                    lemma_group_rows_len(gv, ex);
                    assert(render_rows(gs.take(i + 1), ex) == render_rows(gs.take(i as int), ex)
                        + group_rows(gv, ex));
                }
                let add: usize = if expanded {
                    if g.endpoints.len() == usize::MAX {
                        proof {
                            lemma_rows_monotone(gs, ex, i as int + 1);
                        }
                        return usize::MAX;
                    }
                    g.endpoints.len() + 1
                } else {
                    1
                };
                if count > usize::MAX - add {
                    proof {
                        lemma_rows_monotone(gs, ex, i as int + 1);
                    }
                    return usize::MAX;
                }
                count = count + add;
                i = i + 1;
            }
            assert(gs.take(i as int) =~= gs);
            count
        },
    }
}

proof fn lemma_group_rows_len(g: GroupView, ex: Set<Seq<char>>)
    ensures
        group_rows(g, ex).len() == 1 + if ex.contains(g.0) {
            g.1.len() as int
        } else {
            0
        },
{
}

/// Rows of a prefix of the groups are no more than rows of all of them.
proof fn lemma_rows_monotone(gs: Seq<GroupView>, ex: Set<Seq<char>>, k: int)
    requires
        0 <= k <= gs.len(),
    ensures
        render_rows(gs.take(k), ex).len() <= render_rows(gs, ex).len(),
    decreases gs.len() - k,
{
    if k < gs.len() {
        lemma_rows_monotone(gs, ex, k + 1);
        assert(gs.take(k + 1).drop_last() =~= gs.take(k));
    } else {
        assert(gs.take(k) =~= gs);
    }
}

/// Law: in the grouped view the count of visible items is the number of
/// rows the grouped list shows.
pub proof fn law_count_matches_rows(s: AppState)
    requires
        s.ui.view_mode == ViewMode::Grouped,
    ensures
        visible_count(s) == shown_rows(s).len(),
{
}

} // verus!
