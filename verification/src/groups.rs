//! Endpoints grouped by tag, groups kept in the order of their names.
use vstd::prelude::*;
use crate::types::{clone_endpoints, endpoint_views, ApiEndpoint, EndpointView};
use crate::text::chars_of;

verus! {

/// `a` comes before `b` in the order of `String`: lexicographic by character
/// (for UTF-8 this is the same as comparing the bytes).
pub open spec fn str_less(a: Seq<char>, b: Seq<char>) -> bool
    decreases a.len(),
{
    if a.len() == 0 {
        b.len() > 0
    } else if b.len() == 0 {
        false
    } else if a[0] != b[0] {
        (a[0] as int) < (b[0] as int)
    } else {
        str_less(a.drop_first(), b.drop_first())
    }
}

pub proof fn lemma_str_less_irreflexive(a: Seq<char>)
    ensures
        !str_less(a, a),
    decreases a.len(),
{
    if a.len() > 0 {
        lemma_str_less_irreflexive(a.drop_first());
    }
}

pub proof fn lemma_str_less_total(a: Seq<char>, b: Seq<char>)
    ensures
        a == b || str_less(a, b) || str_less(b, a),
    decreases a.len(),
{
    if a.len() > 0 && b.len() > 0 && a[0] == b[0] {
        lemma_str_less_total(a.drop_first(), b.drop_first());
        if a.drop_first() == b.drop_first() {
            assert(a =~= seq![a[0]] + a.drop_first());
            assert(b =~= seq![b[0]] + b.drop_first());
        }
    } else if a.len() == 0 && b.len() == 0 {
        assert(a =~= b);
    } else if a.len() > 0 && b.len() > 0 {
        assert((a[0] as int) != (b[0] as int));
    }
}

pub proof fn lemma_str_less_transitive(a: Seq<char>, b: Seq<char>, c: Seq<char>)
    requires
        str_less(a, b),
        str_less(b, c),
    ensures
        str_less(a, c),
    decreases a.len(),
{
    if a.len() > 0 && b.len() > 0 && c.len() > 0 && a[0] == b[0] && b[0] == c[0] {
        lemma_str_less_transitive(a.drop_first(), b.drop_first(), c.drop_first());
    }
}

/// Whether `a` comes before `b`, computed.
pub fn chars_less(a: &[char], b: &[char]) -> (r: bool)
    ensures
        r == str_less(a@, b@),
{
    let mut i: usize = 0;
    assert(a@.skip(0) =~= a@);
    assert(b@.skip(0) =~= b@);
    while i < a.len() && i < b.len() && a[i] == b[i]
        invariant
            i <= a@.len(),
            i <= b@.len(),
            str_less(a@, b@) == str_less(a@.skip(i as int), b@.skip(i as int)),
        decreases a@.len() - i,
    {
        assert(a@.skip(i as int).drop_first() =~= a@.skip(i + 1));
        assert(b@.skip(i as int).drop_first() =~= b@.skip(i + 1));
        i = i + 1;
    }
    if i == a.len() {
        i < b.len()
    } else if i == b.len() {
        false
    } else {
        assert(a@.skip(i as int)[0] == a@[i as int]);
        assert(b@.skip(i as int)[0] == b@[i as int]);
        a[i] < b[i]
    }
}

/// A tag and the endpoints that carry it.
#[derive(Debug)]
pub struct EndpointGroup {
    pub name: String,
    pub endpoints: Vec<ApiEndpoint>,
}

/// A group, by view.
pub type GroupView = (Seq<char>, Seq<EndpointView>);

/// Groups with names in strictly increasing order.
#[derive(Debug)]
pub struct EndpointGroups {
    groups: Vec<EndpointGroup>,
}

pub open spec fn group_views(v: Seq<EndpointGroup>) -> Seq<GroupView> {
    v.map_values(|g: EndpointGroup| (g.name@, endpoint_views(g.endpoints@)))
}

/// Names strictly increasing.
pub open spec fn names_sorted(s: Seq<GroupView>) -> bool {
    forall|i: int, j: int| 0 <= i < j < s.len() ==> str_less(s[i].0, s[j].0)
}

/// Whether a group named `n` exists.
pub open spec fn has_group(s: Seq<GroupView>, n: Seq<char>) -> bool {
    exists|i: int| 0 <= i < s.len() && s[i].0 == n
}

/// The position at which a group named `n` is, or would be put.
pub open spec fn group_pos(s: Seq<GroupView>, n: Seq<char>) -> int
    decreases s.len(),
{
    if s.len() == 0 {
        0
    } else if str_less(s[0].0, n) {
        1 + group_pos(s.drop_first(), n)
    } else {
        0
    }
}

/// The groups after adding `e` to the group named `n` (created when missing).
pub open spec fn add_to_group(s: Seq<GroupView>, n: Seq<char>, e: EndpointView) -> Seq<GroupView> {
    let p = group_pos(s, n);
    if p < s.len() && s[p].0 == n {
        s.update(p, (n, s[p].1.push(e)))
    } else {
        s.insert(p, (n, seq![e]))
    }
}

impl View for EndpointGroups {
    type V = Seq<GroupView>;

    closed spec fn view(&self) -> Seq<GroupView> {
        group_views(self.groups@)
    }
}

proof fn lemma_group_pos(s: Seq<GroupView>, n: Seq<char>)
    requires
        names_sorted(s),
    ensures
        0 <= group_pos(s, n) <= s.len(),
        forall|i: int| 0 <= i < group_pos(s, n) ==> str_less(#[trigger] s[i].0, n),
        group_pos(s, n) < s.len() ==> !str_less(s[group_pos(s, n)].0, n),
    decreases s.len(),
{
    if s.len() > 0 && str_less(s[0].0, n) {
        assert forall|i: int, j: int| 0 <= i < j < s.drop_first().len() implies str_less(
            s.drop_first()[i].0,
            s.drop_first()[j].0,
        ) by {
            assert(s.drop_first()[i] == s[i + 1]);
            assert(s.drop_first()[j] == s[j + 1]);
        }
        lemma_group_pos(s.drop_first(), n);
        assert forall|i: int| 0 <= i < group_pos(s, n) implies str_less(#[trigger] s[i].0, n) by {
            if i > 0 {
                assert(s[i] == s.drop_first()[i - 1]);
            }
        }
        if group_pos(s, n) < s.len() {
            assert(s[group_pos(s, n)] == s.drop_first()[group_pos(s.drop_first(), n)]);
        }
    }
}

/// Adding keeps the names sorted, and a group named `n` then exists.
pub proof fn lemma_add_to_group(s: Seq<GroupView>, n: Seq<char>, e: EndpointView)
    requires
        names_sorted(s),
    ensures
        names_sorted(add_to_group(s, n, e)),
        has_group(add_to_group(s, n, e), n),
{
    lemma_group_pos(s, n);
    let p = group_pos(s, n);
    let t = add_to_group(s, n, e);
    if p < s.len() && s[p].0 == n {
        assert(t[p].0 == n);
        assert forall|i: int, j: int| 0 <= i < j < t.len() implies str_less(t[i].0, t[j].0) by {
            assert(t[i].0 == s[i].0);
            assert(t[j].0 == s[j].0);
        }
    } else {
        assert(t[p].0 == n);
        if p < s.len() {
            lemma_str_less_total(s[p].0, n);
        }
        assert forall|i: int, j: int| 0 <= i < j < t.len() implies str_less(t[i].0, t[j].0) by {
            if j < p {
                assert(t[i] == s[i] && t[j] == s[j]);
            } else if j == p {
                assert(t[i] == s[i]);
            } else if i < p {
                assert(t[i] == s[i] && t[j] == s[j - 1]);
                if j - 1 > p {
                    lemma_str_less_transitive(n, s[p].0, s[j - 1].0);
                }
                lemma_str_less_transitive(s[i].0, n, s[j - 1].0);
            } else if i == p {
                assert(t[j] == s[j - 1]);
                if j - 1 > p {
                    lemma_str_less_transitive(n, s[p].0, s[j - 1].0);
                }
            } else {
                assert(t[i] == s[i - 1] && t[j] == s[j - 1]);
            }
        }
    }
}

impl EndpointGroups {
    /// Group names strictly increase.
    #[verifier::type_invariant]
    pub open spec fn inv(self) -> bool {
        names_sorted(self@)
    }

    /// No groups.
    pub fn new() -> (r: Self)
        ensures
            r@ == Seq::<GroupView>::empty(),
    {
        let r = EndpointGroups { groups: Vec::new() };
        assert(r@ =~= Seq::<GroupView>::empty());
        r
    }

    /// Number of groups.
    pub fn len(&self) -> (n: usize)
        ensures
            n == self@.len(),
    {
        self.groups.len()
    }

    /// Whether there is no group.
    pub fn is_empty(&self) -> (b: bool)
        ensures
            b == (self@.len() == 0),
    {
        self.groups.len() == 0
    }

    /// The groups, in the order of their names.
    pub fn groups(&self) -> (r: &[EndpointGroup])
        ensures
            group_views(r@) == self@,
    {
        self.groups.as_slice()
    }

    /// Adds `endpoint` to the group named `name`, creating that group in its
    /// place when there is none.
    pub fn add(&mut self, name: String, endpoint: ApiEndpoint)
        ensures
            final(self)@ == add_to_group(old(self)@, name@, endpoint@),
    {
        proof {
            use_type_invariant(&*self);
            lemma_group_pos(self@, name@);
            lemma_add_to_group(self@, name@, endpoint@);
        }
        let n = chars_of(name.as_str());
        let mut p: usize = 0;
        assert(self@.skip(0) =~= self@);
        loop
            invariant_except_break
                names_sorted(self@),
                self@ == old(self)@,
                self@.len() == self.groups@.len(),
                n@ == name@,
                p <= self.groups@.len(),
                group_pos(self@, name@) == p + group_pos(self@.skip(p as int), name@),
            ensures
                self@ == old(self)@,
                self@.len() == self.groups@.len(),
                p <= self.groups@.len(),
                group_pos(self@, name@) == p,
            decreases self.groups@.len() - p,
        {
            if p >= self.groups.len() {
                assert(self@.skip(p as int).len() == 0);
                break;
            }
            assert(self@[p as int].0 == self.groups@[p as int].name@);
            assert(self@.skip(p as int)[0] == self@[p as int]);
            let less = chars_less(chars_of(self.groups[p].name.as_str()).as_slice(), n.as_slice());
            if !less {
                break;
            }
            assert(self@.skip(p as int).drop_first() =~= self@.skip(p + 1));
            p = p + 1;
        }
        let mut groups: Vec<EndpointGroup> = Vec::new();
        std::mem::swap(&mut groups, &mut self.groups);
        let ghost old_groups = groups@;
        let found = p < groups.len() && crate::text::chars_equal(
            chars_of(groups[p].name.as_str()).as_slice(),
            n.as_slice(),
        );
        if found {
            let mut g = EndpointGroup { name: String::new(), endpoints: Vec::new() };
            groups.set_and_swap(p, &mut g);
            let ghost eps = g.endpoints@;
            g.endpoints.push(endpoint);
            assert(endpoint_views(g.endpoints@) =~= endpoint_views(eps).push(endpoint@));
            groups.set(p, g);
        } else {
            let mut eps: Vec<ApiEndpoint> = Vec::new();
            eps.push(endpoint);
            assert(endpoint_views(eps@) =~= seq![endpoint@]);
            groups.insert(p, EndpointGroup { name, endpoints: eps });
        }
        assert(group_views(groups@) =~= add_to_group(old(self)@, name@, endpoint@));
        *self = EndpointGroups { groups };
    }

    /// The endpoints of the group named `name`.
    pub fn get(&self, name: &str) -> (r: Option<&Vec<ApiEndpoint>>)
        ensures
            r is Some <==> has_group(self@, name@),
            r matches Some(v) ==> exists|i: int|
                0 <= i < self@.len() && self@[i].0 == name@ && self@[i].1 == endpoint_views(v@),
    {
        let n = chars_of(name);
        let mut i: usize = 0;
        while i < self.groups.len()
            invariant
                self@.len() == self.groups@.len(),
                n@ == name@,
                i <= self.groups@.len(),
                forall|j: int| 0 <= j < i ==> self@[j].0 != name@,
            decreases self.groups@.len() - i,
        {
            assert(self@[i as int].0 == self.groups@[i as int].name@);
            if crate::text::chars_equal(chars_of(self.groups[i].name.as_str()).as_slice(), n.as_slice()) {
                assert(self@[i as int].0 == name@);
                assert(self@[i as int].1 == endpoint_views(self.groups@[i as int].endpoints@));
                return Some(&self.groups[i].endpoints);
            }
            i = i + 1;
        }
        None
    }
}

impl Clone for EndpointGroups {
    fn clone(&self) -> (r: Self)
        ensures
            r@ == self@,
    {
        proof {
            use_type_invariant(self);
        }
        let mut v: Vec<EndpointGroup> = Vec::new();
        let mut i: usize = 0;
        while i < self.groups.len()
            invariant
                names_sorted(self@),
                i <= self.groups@.len(),
                group_views(v@) == group_views(self.groups@).take(i as int),
            decreases self.groups@.len() - i,
        {
            let ghost before = v@;
            let g = EndpointGroup {
                name: self.groups[i].name.clone(),
                endpoints: clone_endpoints(&self.groups[i].endpoints),
            };
            v.push(g);
            assert(group_views(v@) =~= group_views(before).push(group_views(self.groups@)[i as int]));
            i = i + 1;
            assert(group_views(self.groups@).take(i as int) =~= group_views(self.groups@).take(
                i - 1,
            ).push(group_views(self.groups@)[i - 1]));
        }
        assert(group_views(self.groups@).take(i as int) =~= group_views(self.groups@));
        EndpointGroups { groups: v }
    }
}

/// The tags an endpoint is listed under: its tags, or "Other" when it has none.
pub open spec fn group_names_of(e: EndpointView) -> Seq<Seq<char>> {
    if e.tags.len() == 0 {
        seq!["Other"@]
    } else {
        e.tags.map_values(|t: String| t@)
    }
}

/// Groups after adding `e` under each of the names in `names`, in order.
pub open spec fn add_under(s: Seq<GroupView>, names: Seq<Seq<char>>, e: EndpointView) -> Seq<GroupView>
    decreases names.len(),
{
    if names.len() == 0 {
        s
    } else {
        add_to_group(add_under(s, names.drop_last(), e), names.last(), e)
    }
}

/// The groups of a list of endpoints: each endpoint, in order, added under
/// each of its tags, or under "Other" when it has none.
pub open spec fn grouped(eps: Seq<EndpointView>) -> Seq<GroupView>
    decreases eps.len(),
{
    if eps.len() == 0 {
        seq![]
    } else {
        add_under(grouped(eps.drop_last()), group_names_of(eps.last()), eps.last())
    }
}

/// Groups endpoints by tag; endpoints without a tag go under "Other".
pub fn group_endpoints(endpoints: &Vec<ApiEndpoint>) -> (r: EndpointGroups)
    ensures
        r@ == grouped(endpoint_views(endpoints@)),
{
    let mut g = EndpointGroups::new();
    let mut i: usize = 0;
    while i < endpoints.len()
        invariant
            i <= endpoints@.len(),
            g@ == grouped(endpoint_views(endpoints@).take(i as int)),
        decreases endpoints@.len() - i,
    {
        let e = &endpoints[i];
        let ghost start = g@;
        assert(endpoint_views(endpoints@).take(i + 1).drop_last() =~= endpoint_views(endpoints@).take(
            i as int,
        ));
        assert(endpoint_views(endpoints@).take(i + 1).last() == e@);
        if e.tags.len() == 0 {
            g.add(String::from_str("Other"), e.clone());
            assert(add_under(start, seq!["Other"@], e@) == add_to_group(
                add_under(start, seq!["Other"@].drop_last(), e@),
                "Other"@,
                e@,
            ));
            assert(seq!["Other"@].drop_last() =~= Seq::<Seq<char>>::empty());
        } else {
            let ghost names = e.tags@.map_values(|t: String| t@);
            let mut k: usize = 0;
            while k < e.tags.len()
                invariant
                    names == e.tags@.map_values(|t: String| t@),
                    k <= e.tags@.len(),
                    g@ == add_under(start, names.take(k as int), e@),
                decreases e.tags@.len() - k,
            {
                assert(names.take(k + 1).drop_last() =~= names.take(k as int));
                g.add(e.tags[k].clone(), e.clone());
                k = k + 1;
            }
            assert(names.take(k as int) =~= names);
        }
        i = i + 1;
    }
    assert(endpoint_views(endpoints@).take(i as int) =~= endpoint_views(endpoints@));
    g
}

/// Whether the group named `n` lists `x`.
pub open spec fn listed(s: Seq<GroupView>, n: Seq<char>, x: EndpointView) -> bool {
    exists|i: int| 0 <= i < s.len() && s[i].0 == n && #[trigger] s[i].1.contains(x)
}

proof fn lemma_group_pos_bound(s: Seq<GroupView>, n: Seq<char>)
    ensures
        0 <= group_pos(s, n) <= s.len(),
    decreases s.len(),
{
    if s.len() > 0 && str_less(s[0].0, n) {
        lemma_group_pos_bound(s.drop_first(), n);
    }
}

proof fn lemma_add_to_group_listed(s: Seq<GroupView>, n: Seq<char>, e: EndpointView, m: Seq<char>, x: EndpointView)
    ensures
        listed(add_to_group(s, n, e), m, x) <==> (listed(s, m, x) || (m == n && x == e)),
{
    lemma_group_pos_bound(s, n);
    let p = group_pos(s, n);
    let t = add_to_group(s, n, e);
    if p < s.len() && s[p].0 == n {
        if listed(s, m, x) {
            let i = choose|i: int| 0 <= i < s.len() && s[i].0 == m && #[trigger] s[i].1.contains(x);
            if i == p {
                assert(t[p].1 == s[p].1.push(e));
                let k = choose|k: int| 0 <= k < s[p].1.len() && s[p].1[k] == x;
                assert(t[i].1[k] == x);
            }
            assert(t[i].1.contains(x));
        }
        if m == n && x == e {
            assert(t[p].1[s[p].1.len() as int] == e);
            assert(t[p].1.contains(e));
        }
        if listed(t, m, x) {
            let i = choose|i: int| 0 <= i < t.len() && t[i].0 == m && #[trigger] t[i].1.contains(x);
            if i == p {
                let k = choose|k: int| 0 <= k < t[p].1.len() && t[p].1[k] == x;
                if k < s[p].1.len() {
                    assert(s[p].1[k] == x);
                    assert(s[p].1.contains(x));
                }
            } else {
                assert(s[i] == t[i]);
            }
        }
    } else {
        if listed(s, m, x) {
            let i = choose|i: int| 0 <= i < s.len() && s[i].0 == m && #[trigger] s[i].1.contains(x);
            if i < p {
                assert(t[i] == s[i]);
            } else {
                assert(t[i + 1] == s[i]);
            }
        }
        if m == n && x == e {
            assert(t[p].1[0] == e);
            assert(t[p].1.contains(e));
        }
        if listed(t, m, x) {
            let i = choose|i: int| 0 <= i < t.len() && t[i].0 == m && #[trigger] t[i].1.contains(x);
            if i < p {
                assert(s[i] == t[i]);
            } else if i > p {
                assert(s[i - 1] == t[i]);
            } else {
                let k = choose|k: int| 0 <= k < t[p].1.len() && t[p].1[k] == x;
                assert(t[p].1 == seq![e]);
            }
        }
    }
}

proof fn lemma_add_under_listed(s: Seq<GroupView>, names: Seq<Seq<char>>, e: EndpointView, m: Seq<char>, x: EndpointView)
    ensures
        listed(add_under(s, names, e), m, x) <==> (listed(s, m, x) || (names.contains(m) && x == e)),
    decreases names.len(),
{
    if names.len() > 0 {
        lemma_add_under_listed(s, names.drop_last(), e, m, x);
        lemma_add_to_group_listed(add_under(s, names.drop_last(), e), names.last(), e, m, x);
        if names.contains(m) {
            let k = choose|k: int| 0 <= k < names.len() && names[k] == m;
            if k < names.len() - 1 {
                assert(names.drop_last()[k] == m);
            }
        }
        if names.drop_last().contains(m) {
            let k = choose|k: int| 0 <= k < names.drop_last().len() && names.drop_last()[k] == m;
            assert(names[k] == m);
        }
        assert(names[names.len() - 1] == names.last());
    }
}

/// Law: the grouped list shows each endpoint under each of its tags (under
/// "Other" when it has none), and nothing else.
pub proof fn law_grouped_lists_by_tag(eps: Seq<EndpointView>, n: Seq<char>, x: EndpointView)
    ensures
        listed(grouped(eps), n, x) <==> exists|k: int|
            0 <= k < eps.len() && eps[k] == x && #[trigger] group_names_of(eps[k]).contains(n),
    decreases eps.len(),
{
    if eps.len() > 0 {
        law_grouped_lists_by_tag(eps.drop_last(), n, x);
        lemma_add_under_listed(grouped(eps.drop_last()), group_names_of(eps.last()), eps.last(), n, x);
        if exists|k: int| 0 <= k < eps.len() && eps[k] == x && #[trigger] group_names_of(eps[k]).contains(n) {
            let k = choose|k: int| 0 <= k < eps.len() && eps[k] == x && #[trigger] group_names_of(eps[k]).contains(n);
            if k < eps.len() - 1 {
                assert(eps.drop_last()[k] == eps[k]);
            }
        }
        if exists|k: int| 0 <= k < eps.drop_last().len() && eps.drop_last()[k] == x && #[trigger] group_names_of(
            eps.drop_last()[k],
        ).contains(n) {
            let k = choose|k: int| 0 <= k < eps.drop_last().len() && eps.drop_last()[k] == x && #[trigger] group_names_of(
                eps.drop_last()[k],
            ).contains(n);
            assert(eps[k] == eps.drop_last()[k]);
        }
        if listed(grouped(eps), n, x) && !listed(grouped(eps.drop_last()), n, x) {
            assert(eps[eps.len() - 1] == eps.last());
        }
    }
}

} // verus!
