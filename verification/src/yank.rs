//! Copying a line of the Response tab: which text is copied.
use vstd::prelude::*;
use crate::editor::{split_text_lines, string_views, text_lines};
use crate::json::try_format_json;
use crate::navigation::shown_body;
use crate::state::{AppState, UiState};
use crate::text::{
    chars_of, is_ws, leading_ws_len, slice_range, string_from_chars, trim, trim_chars, trimmed_end_len,
};

verus! {

/// A set of characters stripped from the ends of a text.
pub enum CharClass {
    /// One character.
    Only(char),
    /// Braces, brackets and commas.
    Brackets,
}

/// Whether `c` belongs to the class `k`.
pub open spec fn in_class(k: CharClass, c: char) -> bool {
    match k {
        CharClass::Only(x) => c == x,
        CharClass::Brackets => c == '{' || c == '}' || c == '[' || c == ']' || c == ',',
    }
}

/// Decides `in_class(k, c)`.
pub fn class_has(k: &CharClass, c: char) -> (r: bool)
    ensures
        r == in_class(*k, c),
{
    match k {
        CharClass::Only(x) => c == *x,
        CharClass::Brackets => c == '{' || c == '}' || c == '[' || c == ']' || c == ',',
    }
}

/// Number of leading characters of `s` in `k`.
pub open spec fn lead_len(s: Seq<char>, k: CharClass) -> nat
    decreases s.len(),
{
    if s.len() > 0 && in_class(k, s[0]) {
        1 + lead_len(s.drop_first(), k)
    } else {
        0
    }
}

/// Length of `s` once its trailing characters in `k` are removed.
pub open spec fn kept_len(s: Seq<char>, k: CharClass) -> nat
    decreases s.len(),
{
    if s.len() > 0 && in_class(k, s.last()) {
        kept_len(s.drop_last(), k)
    } else {
        s.len()
    }
}

/// `s` without its trailing characters in `k` (`str::trim_end_matches`).
pub open spec fn strip_trailing(s: Seq<char>, k: CharClass) -> Seq<char> {
    s.take(kept_len(s, k) as int)
}

/// `s` without its leading and trailing characters in `k` (`str::trim_matches`).
pub open spec fn strip_both(s: Seq<char>, k: CharClass) -> Seq<char> {
    let t = s.skip(lead_len(s, k) as int);
    strip_trailing(t, k)
}

/// Position of the first `c` in `s`, if any.
pub open spec fn first_index(s: Seq<char>, c: char) -> Option<int>
    decreases s.len(),
{
    if s.len() == 0 {
        None
    } else if s[0] == c {
        Some(0)
    } else {
        match first_index(s.drop_first(), c) {
            Some(i) => Some(i + 1),
            None => None,
        }
    }
}

/// The value of a line of pretty-printed JSON: after the first colon, with
/// white space, a trailing comma and quotes removed; without a colon, the
/// line with white space, braces, brackets and commas removed.
pub open spec fn json_line_value(line: Seq<char>) -> Seq<char> {
    let t = trim(line);
    match first_index(t, ':') {
        Some(k) => strip_both(
            trim(strip_trailing(trim(t.skip(k + 1)), CharClass::Only(','))),
            CharClass::Only('"'),
        ),
        None => trim(strip_both(t, CharClass::Brackets)),
    }
}

/// Whether every character of `s` is white space.
pub open spec fn all_ws(s: Seq<char>) -> bool {
    forall|i: int| 0 <= i < s.len() ==> is_ws(#[trigger] s[i])
}

/// Whether every character of `s` is in the class `k`.
pub open spec fn all_in(s: Seq<char>, k: CharClass) -> bool {
    forall|i: int| 0 <= i < s.len() ==> in_class(k, #[trigger] s[i])
}

proof fn lemma_leading_ws_prefix(a: Seq<char>, b: Seq<char>)
    requires
        all_ws(a),
        b.len() > 0 && !is_ws(b[0]),
    ensures
        leading_ws_len(a + b) == a.len(),
    decreases a.len(),
{
    if a.len() > 0 {
        assert((a + b).drop_first() =~= a.drop_first() + b);
        assert(all_ws(a.drop_first())) by {
            assert forall|i: int| 0 <= i < a.drop_first().len() implies is_ws(#[trigger] a.drop_first()[i]) by {
                assert(a.drop_first()[i] == a[i + 1]);
            }
        }
        lemma_leading_ws_prefix(a.drop_first(), b);
    } else {
        assert(a + b =~= b);
    }
}

proof fn lemma_trimmed_end_suffix(a: Seq<char>, b: Seq<char>)
    requires
        all_ws(b),
        a.len() > 0 && !is_ws(a.last()),
    ensures
        trimmed_end_len(a + b) == a.len(),
    decreases b.len(),
{
    if b.len() > 0 {
        assert((a + b).drop_last() =~= a + b.drop_last());
        assert((a + b).last() == b.last());
        assert(all_ws(b.drop_last())) by {
            assert forall|i: int| 0 <= i < b.drop_last().len() implies is_ws(#[trigger] b.drop_last()[i]) by {
                assert(b.drop_last()[i] == b[i]);
            }
        }
        lemma_trimmed_end_suffix(a, b.drop_last());
    } else {
        assert(a + b =~= a);
    }
}

proof fn lemma_lead_len_prefix(a: Seq<char>, b: Seq<char>, k: CharClass)
    requires
        all_in(a, k),
        b.len() > 0 && !in_class(k, b[0]),
    ensures
        lead_len(a + b, k) == a.len(),
    decreases a.len(),
{
    if a.len() > 0 {
        assert((a + b).drop_first() =~= a.drop_first() + b);
        assert(all_in(a.drop_first(), k)) by {
            assert forall|i: int| 0 <= i < a.drop_first().len() implies in_class(k, #[trigger] a.drop_first()[i]) by {
                assert(a.drop_first()[i] == a[i + 1]);
            }
        }
        lemma_lead_len_prefix(a.drop_first(), b, k);
    } else {
        assert(a + b =~= b);
    }
}

proof fn lemma_kept_len_suffix(a: Seq<char>, b: Seq<char>, k: CharClass)
    requires
        all_in(b, k),
        a.len() > 0 && !in_class(k, a.last()),
    ensures
        kept_len(a + b, k) == a.len(),
    decreases b.len(),
{
    if b.len() > 0 {
        assert((a + b).drop_last() =~= a + b.drop_last());
        assert((a + b).last() == b.last());
        assert(all_in(b.drop_last(), k)) by {
            assert forall|i: int| 0 <= i < b.drop_last().len() implies in_class(k, #[trigger] b.drop_last()[i]) by {
                assert(b.drop_last()[i] == b[i]);
            }
        }
        lemma_kept_len_suffix(a, b.drop_last(), k);
    } else {
        assert(a + b =~= a);
    }
}

proof fn lemma_first_index_none(s: Seq<char>, c: char)
    requires
        !s.contains(c),
    ensures
        first_index(s, c) is None,
    decreases s.len(),
{
    if s.len() > 0 {
        assert(s[0] != c);
        assert forall|i: int| 0 <= i < s.drop_first().len() implies s.drop_first()[i] != c by {
            assert(s.drop_first()[i] == s[i + 1]);
        }
        lemma_first_index_none(s.drop_first(), c);
    }
}

/// Trimming a text that is white space around `m`, where `m` starts and
/// ends with characters that are not white space, gives `m`.
proof fn lemma_trim_padded(w1: Seq<char>, m: Seq<char>, w2: Seq<char>)
    requires
        all_ws(w1),
        all_ws(w2),
        m.len() > 0,
        !is_ws(m[0]) && !is_ws(m.last()),
    ensures
        trim(w1 + m + w2) == m,
{
    lemma_trimmed_end_suffix(w1 + m, w2);
    assert((w1 + m).last() == m.last());
    assert((w1 + m + w2).take((w1 + m).len() as int) =~= w1 + m);
    lemma_leading_ws_prefix(w1, m);
    assert((w1 + m).skip(w1.len() as int) =~= m);
}

proof fn lemma_first_index_after(a: Seq<char>, c: char, r: Seq<char>)
    requires
        !a.contains(c),
    ensures
        first_index(a + seq![c] + r, c) == Some(a.len() as int),
    decreases a.len(),
{
    if a.len() > 0 {
        assert((a + seq![c] + r)[0] == a[0]);
        assert((a + seq![c] + r).drop_first() =~= a.drop_first() + seq![c] + r);
        assert forall|i: int| 0 <= i < a.drop_first().len() implies a.drop_first()[i] != c by {
            assert(a.drop_first()[i] == a[i + 1]);
        }
        lemma_first_index_after(a.drop_first(), c, r);
    } else {
        assert(a + seq![c] + r =~= seq![c] + r);
    }
}

/// Law: a line `key: value` (as a member of a pretty-printed object is,
/// such as `    "id": "abc",`) gives the value after the first colon,
/// without the white space around it, the commas after it and, when it is
/// quoted, its quotes.
pub proof fn law_key_value_line(
    w1: Seq<char>,
    key: Seq<char>,
    w2: Seq<char>,
    v: Seq<char>,
    quoted: bool,
    cs: Seq<char>,
    w3: Seq<char>,
)
    requires
        all_ws(w1),
        all_ws(w2),
        all_ws(w3),
        all_in(cs, CharClass::Only(',')),
        key.len() > 0 && !is_ws(key[0]),
        !key.contains(':'),
        v.len() > 0,
        !is_ws(v[0]) && !is_ws(v.last()),
        v[0] != '"' && v.last() != '"',
        v.last() != ',',
    ensures
        json_line_value(
            w1 + key + seq![':'] + w2 + (if quoted {
                seq!['"'] + v + seq!['"']
            } else {
                v
            }) + cs + w3,
        ) == v,
{
    let qv = if quoted {
        seq!['"'] + v + seq!['"']
    } else {
        v
    };
    let m = key + seq![':'] + w2 + qv + cs;
    let line = w1 + key + seq![':'] + w2 + qv + cs + w3;
    assert(line =~= w1 + m + w3);
    assert(qv.len() > 0 && !is_ws(qv[0]) && !is_ws(qv.last()) && qv.last() != ',') by {
        if quoted {
            assert(qv[0] == '"');
            assert(qv.last() == '"');
        }
    }
    assert(!is_ws(','));
    assert(m[0] == key[0]);
    assert(m.last() == if cs.len() > 0 { cs.last() } else { qv.last() });
    if cs.len() > 0 {
        assert(in_class(CharClass::Only(','), cs[cs.len() - 1]));
    }
    lemma_trim_padded(w1, m, w3);
    assert(m =~= key + seq![':'] + (w2 + qv + cs));
    lemma_first_index_after(key, ':', w2 + qv + cs);
    assert(m.skip(key.len() + 1int) =~= w2 + (qv + cs) + Seq::<char>::empty());
    assert(all_ws(Seq::<char>::empty()));
    assert((qv + cs)[0] == qv[0]);
    assert((qv + cs).last() == if cs.len() > 0 { cs.last() } else { qv.last() });
    lemma_trim_padded(w2, qv + cs, Seq::<char>::empty());
    lemma_kept_len_suffix(qv, cs, CharClass::Only(','));
    assert((qv + cs).take(qv.len() as int) =~= qv);
    lemma_trim_padded(Seq::<char>::empty(), qv, Seq::<char>::empty());
    assert(Seq::<char>::empty() + qv + Seq::<char>::empty() =~= qv);
    let k = CharClass::Only('"');
    if quoted {
        assert(all_in(seq!['"'], k));
        assert(qv =~= seq!['"'] + (v + seq!['"']));
        assert((v + seq!['"'])[0] == v[0]);
        lemma_lead_len_prefix(seq!['"'], v + seq!['"'], k);
        assert(qv.skip(1) =~= v + seq!['"']);
        assert(all_in(seq!['"'], k));
        lemma_kept_len_suffix(v, seq!['"'], k);
        assert((v + seq!['"']).take(v.len() as int) =~= v);
    } else {
        assert(all_in(Seq::<char>::empty(), k));
        lemma_lead_len_prefix(Seq::<char>::empty(), v, k);
        assert(Seq::<char>::empty() + v =~= v);
        assert(v.skip(0) =~= v);
        lemma_kept_len_suffix(v, Seq::<char>::empty(), k);
        assert(v + Seq::<char>::empty() =~= v);
        assert(v.take(v.len() as int) =~= v);
    }
}

/// Law: a line without a colon made of a value between white space and
/// braces, brackets or commas (as an element of a pretty-printed array is,
/// such as `    42,`) gives exactly that value: none of the white space,
/// braces, brackets or commas around it is kept.
pub proof fn law_bare_value_line(w1: Seq<char>, b1: Seq<char>, v: Seq<char>, b2: Seq<char>, w2: Seq<char>)
    requires
        all_ws(w1),
        all_ws(w2),
        all_in(b1, CharClass::Brackets),
        all_in(b2, CharClass::Brackets),
        v.len() > 0,
        !is_ws(v[0]) && !is_ws(v.last()),
        !in_class(CharClass::Brackets, v[0]) && !in_class(CharClass::Brackets, v.last()),
        !v.contains(':'),
    ensures
        json_line_value(w1 + b1 + v + b2 + w2) == v,
{
    let k = CharClass::Brackets;
    let m = b1 + v + b2;
    let line = w1 + b1 + v + b2 + w2;
    assert(line =~= w1 + m + w2);
    // The ends of `m` are not white space: brackets are not, nor are the ends of `v`.
    assert(!is_ws('{') && !is_ws('}') && !is_ws('[') && !is_ws(']') && !is_ws(','));
    assert(m[0] == if b1.len() > 0 { b1[0] } else { v[0] });
    assert(m.last() == if b2.len() > 0 { b2.last() } else { v.last() });
    lemma_trim_padded(w1, m, w2);
    assert(!m.contains(':')) by {
        assert forall|i: int| 0 <= i < m.len() implies m[i] != ':' by {
            if i < b1.len() {
                assert(m[i] == b1[i]);
                assert(in_class(k, b1[i]));
            } else if i < b1.len() + v.len() {
                assert(m[i] == v[i - b1.len()]);
            } else {
                assert(m[i] == b2[i - b1.len() - v.len()]);
                assert(in_class(k, b2[i - b1.len() - v.len()]));
            }
        }
    }
    lemma_first_index_none(m, ':');
    assert(m =~= b1 + (v + b2));
    assert((v + b2)[0] == v[0]);
    lemma_lead_len_prefix(b1, v + b2, k);
    assert(m.skip(b1.len() as int) =~= v + b2);
    lemma_kept_len_suffix(v, b2, k);
    assert((v + b2).take(v.len() as int) =~= v);
    assert(strip_both(m, k) == v);
    assert(all_ws(Seq::<char>::empty()));
    lemma_trim_padded(Seq::<char>::empty(), v, Seq::<char>::empty());
    assert(Seq::<char>::empty() + v + Seq::<char>::empty() =~= v);
}

proof fn lemma_first_index(s: Seq<char>, c: char)
    ensures
        first_index(s, c) matches Some(i) ==> 0 <= i < s.len() && s[i] == c,
    decreases s.len(),
{
    if s.len() > 0 && s[0] != c {
        lemma_first_index(s.drop_first(), c);
    }
}

proof fn lemma_lead_len(s: Seq<char>, k: CharClass)
    ensures
        lead_len(s, k) <= s.len(),
    decreases s.len(),
{
    if s.len() > 0 && in_class(k, s[0]) {
        lemma_lead_len(s.drop_first(), k);
    }
}

proof fn lemma_kept_len(s: Seq<char>, k: CharClass)
    ensures
        kept_len(s, k) <= s.len(),
    decreases s.len(),
{
    if s.len() > 0 && in_class(k, s.last()) {
        lemma_kept_len(s.drop_last(), k);
    }
}

/// Computes `lead_len(s, k)`.
fn lead_count(s: &[char], k: &CharClass) -> (n: usize)
    ensures
        n == lead_len(s@, *k),
{
    let mut n: usize = 0;
    assert(s@.skip(0) =~= s@);
    while n < s.len() && class_has(k, s[n])
        invariant
            n <= s@.len(),
            lead_len(s@, *k) == n + lead_len(s@.skip(n as int), *k),
        decreases s@.len() - n,
    {
        assert(s@.skip(n as int).drop_first() =~= s@.skip(n + 1));
        n = n + 1;
    }
    n
}

/// Computes `kept_len(s, k)`.
fn kept_count(s: &[char], k: &CharClass) -> (n: usize)
    ensures
        n == kept_len(s@, *k),
{
    let mut n = s.len();
    assert(s@.take(n as int) =~= s@);
    while n > 0 && class_has(k, s[n - 1])
        invariant
            n <= s@.len(),
            kept_len(s@, *k) == kept_len(s@.take(n as int), *k),
        decreases n,
    {
        assert(s@.take(n as int).drop_last() =~= s@.take(n - 1));
        n = n - 1;
    }
    n
}

/// `strip_trailing(s, k)`, as a new vector.
pub fn strip_trailing_chars(s: &[char], k: &CharClass) -> (r: Vec<char>)
    ensures
        r@ == strip_trailing(s@, *k),
{
    let n = kept_count(s, k);
    proof {
        lemma_kept_len(s@, *k);
    }
    let r = slice_range(s, 0, n);
    assert(r@ =~= s@.take(n as int));
    r
}

/// `strip_both(s, k)`, as a new vector.
pub fn strip_both_chars(s: &[char], k: &CharClass) -> (r: Vec<char>)
    ensures
        r@ == strip_both(s@, *k),
{
    let b = lead_count(s, k);
    proof {
        lemma_lead_len(s@, *k);
    }
    let t = slice_range(s, b, s.len());
    assert(t@ =~= s@.skip(b as int));
    strip_trailing_chars(t.as_slice(), k)
}

/// Computes `first_index(s, c)`.
pub fn find_char(s: &[char], c: char) -> (r: Option<usize>)
    ensures
        match first_index(s@, c) {
            Some(i) => r == Some(i as usize),
            None => r is None,
        },
{
    let mut i: usize = 0;
    assert(s@.skip(0) =~= s@);
    while i < s.len()
        invariant
            i <= s@.len(),
            first_index(s@, c) == match first_index(s@.skip(i as int), c) {
                Some(j) => Some(j + i),
                None => None::<int>,
            },
        decreases s@.len() - i,
    {
        if s[i] == c {
            return Some(i);
        }
        assert(s@.skip(i as int).drop_first() =~= s@.skip(i + 1));
        i = i + 1;
    }
    None
}

/// The value to copy from a line of pretty-printed JSON (see `json_line_value`).
pub fn extract_json_value(line: &str) -> (r: String)
    ensures
        r@ == json_line_value(line@),
{
    let lc = chars_of(line);
    let t = trim_chars(lc.as_slice());
    proof {
        lemma_first_index(t@, ':');
    }
    match find_char(t.as_slice(), ':') {
        Some(k) => {
            let tl = t.len();
            let v = slice_range(t.as_slice(), k + 1, tl);
            assert(v@ =~= t@.skip(k + 1));
            let a = trim_chars(v.as_slice());
            let b = strip_trailing_chars(a.as_slice(), &CharClass::Only(','));
            let c = trim_chars(b.as_slice());
            let d = strip_both_chars(c.as_slice(), &CharClass::Only('"'));
            string_from_chars(d.as_slice())
        },
        None => {
            let a = strip_both_chars(t.as_slice(), &CharClass::Brackets);
            let b = trim_chars(a.as_slice());
            string_from_chars(b.as_slice())
        },
    }
}

/// The text a yank copies: the value of the selected body line of a
/// successful response. The first two lines (status and a blank line) and
/// lines past the body give nothing; so do a missing or failed response.
pub open spec fn yank_text(s: AppState) -> Option<Seq<char>> {
    match s.request.current_response {
        Some(r) => if r.is_error {
            None
        } else {
            let lines = text_lines(shown_body(r.body@));
            let l = s.ui.response_selected_line as int;
            if 2 <= l && l - 2 < lines.len() {
                Some(json_line_value(lines[l - 2]))
            } else {
                None
            }
        },
        None => None,
    }
}

/// The text to copy for the selected Response line, if there is one.
pub fn yank_response_line(state: &AppState) -> (r: Option<String>)
    ensures
        match yank_text(*state) {
            Some(t) => r matches Some(x) && x@ == t,
            None => r is None,
        },
{
    match &state.request.current_response {
        Some(response) => {
            if response.is_error {
                return None;
            }
            let formatted = try_format_json(response.body.as_str());
            let lines = split_text_lines(chars_of(formatted.as_str()).as_slice());
            let l = state.ui.response_selected_line;
            if l < 2 {
                return None;
            }
            if l - 2 >= lines.len() {
                return None;
            }
            assert(string_views(lines@)[l - 2] == lines@[l - 2]@);
            Some(extract_json_value(lines[l - 2].as_str()))
        },
        None => None,
    }
}

/// Marks that a line was copied (the Response tab flashes).
pub fn set_yank_flash(state: &mut AppState, on: bool)
    ensures
        final(state).ui == (UiState { yank_flash: on, ..old(state).ui }),
        final(state).data == old(state).data,
        final(state).input == old(state).input,
        final(state).request == old(state).request,
        final(state).search == old(state).search,
{
    state.ui.yank_flash = on;
}

} // verus!
