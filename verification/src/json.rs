//! JSON values as the library reads and builds them. Parsing and printing
//! are done by `serde_json`; everything else works on [`Json`].
use vstd::prelude::*;

use crate::text::str_eq;

verus! {

/// A JSON number, in the three forms `serde_json` keeps apart.
pub enum JsonNumber {
    PosInt(u64),
    NegInt(i64),
    /// A number that is not an integer in range, kept as its decimal text.
    Float(String),
}

/// A JSON value. Object members keep their order and keys are unique.
pub enum Json {
    Null,
    Bool(bool),
    Number(JsonNumber),
    Str(String),
    Array(Vec<Json>),
    Object(Vec<(String, Json)>),
}

/// The mathematical value of a [`JsonNumber`].
pub enum NumberView {
    PosInt(u64),
    NegInt(i64),
    Float(Seq<char>),
}

/// The mathematical value of a [`Json`].
pub enum JsonView {
    Null,
    Bool(bool),
    Number(NumberView),
    Str(Seq<char>),
    Array(Seq<JsonView>),
    Object(Seq<(Seq<char>, JsonView)>),
}

pub open spec fn number_view(n: JsonNumber) -> NumberView {
    match n {
        JsonNumber::PosInt(u) => NumberView::PosInt(u),
        JsonNumber::NegInt(i) => NumberView::NegInt(i),
        JsonNumber::Float(t) => NumberView::Float(t@),
    }
}

pub open spec fn json_view(j: Json) -> JsonView
    decreases j, 0nat,
{
    match j {
        Json::Null => JsonView::Null,
        Json::Bool(b) => JsonView::Bool(b),
        Json::Number(n) => JsonView::Number(number_view(n)),
        Json::Str(s) => JsonView::Str(s@),
        Json::Array(v) => JsonView::Array(json_seq_view(v@)),
        Json::Object(m) => JsonView::Object(json_members_view(m@)),
    }
}

pub open spec fn json_seq_view(s: Seq<Json>) -> Seq<JsonView>
    decreases s, s.len(),
{
    if s.len() == 0 {
        Seq::empty()
    } else {
        seq![json_view(s[0])] + json_seq_view(s.drop_first())
    }
}

pub open spec fn json_members_view(s: Seq<(String, Json)>) -> Seq<(Seq<char>, JsonView)>
    decreases s, s.len(),
{
    if s.len() == 0 {
        Seq::empty()
    } else {
        seq![(s[0].0@, json_view(s[0].1))] + json_members_view(s.drop_first())
    }
}

impl View for Json {
    type V = JsonView;

    open spec fn view(&self) -> JsonView {
        json_view(*self)
    }
}

/// The value of member `k` of an object's member list (the first one with that
/// key).
pub open spec fn lookup(m: Seq<(Seq<char>, JsonView)>, k: Seq<char>) -> Option<JsonView>
    decreases m.len(),
{
    if m.len() == 0 {
        None
    } else if m[0].0 == k {
        Some(m[0].1)
    } else {
        lookup(m.drop_first(), k)
    }
}

/// `Value::get(key)`: member `k` of an object; nothing for other values.
pub open spec fn jget(j: JsonView, k: Seq<char>) -> Option<JsonView> {
    match j {
        JsonView::Object(m) => lookup(m, k),
        _ => None,
    }
}

/// `Value::as_str`.
pub open spec fn jstr(j: JsonView) -> Option<Seq<char>> {
    match j {
        JsonView::Str(s) => Some(s),
        _ => None,
    }
}

/// `Value::as_u64`.
pub open spec fn ju64(j: JsonView) -> Option<u64> {
    match j {
        JsonView::Number(NumberView::PosInt(u)) => Some(u),
        _ => None,
    }
}

/// Member `k` of `j` when it is a string.
pub open spec fn jget_str(j: JsonView, k: Seq<char>) -> Option<Seq<char>> {
    match jget(j, k) {
        Some(v) => jstr(v),
        None => None,
    }
}

/// Member `k` of `j` when it is a non-negative integer.
pub open spec fn jget_u64(j: JsonView, k: Seq<char>) -> Option<u64> {
    match jget(j, k) {
        Some(v) => ju64(v),
        None => None,
    }
}

/// The JSON value that `serde_json::from_str::<Value>` reads from `text`, or its
/// error message.
pub uninterp spec fn json_parse(text: Seq<char>) -> Result<JsonView, Seq<char>>;

/// The compact JSON text that `serde_json` prints for a value
/// (`Value::to_string`).
pub uninterp spec fn json_text(v: JsonView) -> Seq<char>;

pub proof fn lemma_seq_view_index(s: Seq<Json>, i: int)
    requires
        0 <= i < s.len(),
    ensures
        json_seq_view(s).len() == s.len(),
        json_seq_view(s)[i] == json_view(s[i]),
    decreases s.len(),
{
    lemma_seq_view_len(s);
    if i > 0 {
        lemma_seq_view_index(s.drop_first(), i - 1);
    }
}

pub proof fn lemma_seq_view_len(s: Seq<Json>)
    ensures
        json_seq_view(s).len() == s.len(),
    decreases s.len(),
{
    if s.len() > 0 {
        lemma_seq_view_len(s.drop_first());
    }
}

pub proof fn lemma_members_view_len(s: Seq<(String, Json)>)
    ensures
        json_members_view(s).len() == s.len(),
    decreases s.len(),
{
    if s.len() > 0 {
        lemma_members_view_len(s.drop_first());
    }
}

pub proof fn lemma_members_view_index(s: Seq<(String, Json)>, i: int)
    requires
        0 <= i < s.len(),
    ensures
        json_members_view(s).len() == s.len(),
        json_members_view(s)[i] == (s[i].0@, json_view(s[i].1)),
    decreases s.len(),
{
    lemma_members_view_len(s);
    if i > 0 {
        lemma_members_view_index(s.drop_first(), i - 1);
    }
}

pub proof fn lemma_members_view_skip(s: Seq<(String, Json)>, i: int)
    requires
        0 <= i < s.len(),
    ensures
        json_members_view(s.skip(i)).drop_first() == json_members_view(s.skip(i + 1)),
        json_members_view(s.skip(i))[0] == (s[i].0@, json_view(s[i].1)),
{
    assert(s.skip(i).drop_first() =~= s.skip(i + 1));
    lemma_members_view_index(s.skip(i), 0);
}

impl Json {
    /// `Value::get(key)`.
    pub fn get(&self, key: &str) -> (r: Option<&Json>)
        ensures
            r matches Some(v) ==> jget(self@, key@) == Some(v@),
            r is None ==> jget(self@, key@) is None,
    {
        match self {
            Json::Object(m) => {
                let mut i: usize = 0;
                proof {
                    assert(m@.skip(0) =~= m@);
                }
                while i < m.len()
                    invariant
                        i <= m.len(),
                        self@ == JsonView::Object(json_members_view(m@)),
                        lookup(json_members_view(m@.skip(i as int)), key@) == lookup(
                            json_members_view(m@),
                            key@,
                        ),
                    decreases m.len() - i,
                {
                    proof {
                        lemma_members_view_skip(m@, i as int);
                    }
                    if str_eq(m[i].0.as_str(), key) {
                        return Some(&m[i].1);
                    }
                    i = i + 1;
                }
                proof {
                    assert(m@.skip(i as int).len() == 0);
                }
                None
            },
            _ => None,
        }
    }

    /// `Value::as_str`.
    pub fn as_str(&self) -> (r: Option<&str>)
        ensures
            r matches Some(s) ==> jstr(self@) == Some(s@),
            r is None ==> jstr(self@) is None,
    {
        match self {
            Json::Str(s) => Some(s.as_str()),
            _ => None,
        }
    }

    /// `Value::as_u64`.
    pub fn as_u64(&self) -> (r: Option<u64>)
        ensures
            r == ju64(self@),
    {
        match self {
            Json::Number(JsonNumber::PosInt(u)) => Some(*u),
            _ => None,
        }
    }

    /// Member `key` when it is a string (`v.get(key).and_then(|x| x.as_str())`).
    pub fn get_str(&self, key: &str) -> (r: Option<&str>)
        ensures
            r matches Some(s) ==> jget_str(self@, key@) == Some(s@),
            r is None ==> jget_str(self@, key@) is None,
    {
        match self.get(key) {
            Some(v) => v.as_str(),
            None => None,
        }
    }

    /// Member `key` when it is a non-negative integer.
    pub fn get_u64(&self, key: &str) -> (r: Option<u64>)
        ensures
            r == jget_u64(self@, key@),
    {
        match self.get(key) {
            Some(v) => v.as_u64(),
            None => None,
        }
    }

    /// A JSON string holding `s`.
    pub fn string(s: &str) -> (r: Json)
        ensures
            r@ == JsonView::Str(s@),
    {
        Json::Str(s.to_owned())
    }

    /// A deep copy.
    pub fn copy(&self) -> (r: Json)
        ensures
            r@ == self@,
        decreases self,
    {
        match self {
            Json::Null => Json::Null,
            Json::Bool(b) => Json::Bool(*b),
            Json::Number(JsonNumber::PosInt(u)) => Json::Number(JsonNumber::PosInt(*u)),
            Json::Number(JsonNumber::NegInt(i)) => Json::Number(JsonNumber::NegInt(*i)),
            Json::Number(JsonNumber::Float(t)) => Json::Number(JsonNumber::Float(t.clone())),
            Json::Str(s) => Json::Str(s.clone()),
            Json::Array(v) => {
                let mut out: Vec<Json> = Vec::new();
                let mut i: usize = 0;
                #[verifier::loop_isolation(false)]
                while i < v.len()
                    invariant
                        i <= v.len(),
                        json_seq_view(out@) == json_seq_view(v@.take(i as int)),
                    decreases v.len() - i,
                {
                    proof {
                        assert(decreases_to!(*self => self->Array_0));
                        assert(decreases_to!(*v => v@));
                        assert(decreases_to!(v@ => v@[i as int]));
                    }
                    let c = v[i].copy();
                    proof {
                        lemma_seq_view_snoc(out@, c);
                        lemma_seq_view_snoc(v@.take(i as int), v@[i as int]);
                        assert(v@.take(i + 1) =~= v@.take(i as int).push(v@[i as int]));
                    }
                    out.push(c);
                    i = i + 1;
                }
                assert(v@.take(v@.len() as int) =~= v@);
                Json::Array(out)
            },
            Json::Object(m) => {
                let mut out: Vec<(String, Json)> = Vec::new();
                let mut i: usize = 0;
                #[verifier::loop_isolation(false)]
                while i < m.len()
                    invariant
                        i <= m.len(),
                        json_members_view(out@) == json_members_view(m@.take(i as int)),
                    decreases m.len() - i,
                {
                    proof {
                        assert(decreases_to!(*self => self->Object_0));
                        assert(decreases_to!(*m => m@));
                        assert(decreases_to!(m@ => m@[i as int]));
                        assert(decreases_to!(m@[i as int] => m@[i as int].1));
                    }
                    let c = m[i].1.copy();
                    let k = m[i].0.clone();
                    proof {
                        lemma_members_view_snoc(out@, (k, c));
                        lemma_members_view_snoc(m@.take(i as int), m@[i as int]);
                        assert(m@.take(i + 1) =~= m@.take(i as int).push(m@[i as int]));
                    }
                    out.push((k, c));
                    i = i + 1;
                }
                assert(m@.take(m@.len() as int) =~= m@);
                Json::Object(out)
            },
        }
    }
}

pub proof fn lemma_seq_view_snoc(s: Seq<Json>, x: Json)
    ensures
        json_seq_view(s.push(x)) == json_seq_view(s).push(json_view(x)),
    decreases s.len(),
{
    if s.len() == 0 {
        assert(s.push(x).drop_first() =~= Seq::<Json>::empty());
        assert(json_seq_view(s.push(x).drop_first()) =~= Seq::<JsonView>::empty());
        assert(json_seq_view(s) =~= Seq::<JsonView>::empty());
        assert(json_seq_view(s.push(x)) =~= seq![json_view(x)]);
    } else {
        assert(s.push(x).drop_first() =~= s.drop_first().push(x));
        lemma_seq_view_snoc(s.drop_first(), x);
        assert(json_seq_view(s.push(x)) =~= json_seq_view(s).push(json_view(x)));
    }
}

pub proof fn lemma_members_view_snoc(s: Seq<(String, Json)>, x: (String, Json))
    ensures
        json_members_view(s.push(x)) == json_members_view(s).push((x.0@, json_view(x.1))),
    decreases s.len(),
{
    if s.len() == 0 {
        assert(s.push(x).drop_first() =~= Seq::<(String, Json)>::empty());
        assert(json_members_view(s.push(x).drop_first()) =~= Seq::<(Seq<char>, JsonView)>::empty());
        assert(json_members_view(s) =~= Seq::<(Seq<char>, JsonView)>::empty());
        assert(json_members_view(s.push(x)) =~= seq![(x.0@, json_view(x.1))]);
    } else {
        assert(s.push(x).drop_first() =~= s.drop_first().push(x));
        lemma_members_view_snoc(s.drop_first(), x);
        assert(json_members_view(s.push(x)) =~= json_members_view(s).push(
            (x.0@, json_view(x.1)),
        ));
    }
}

/// Appends member `(k, v)` to an object's member list.
pub fn push_member(m: &mut Vec<(String, Json)>, k: &str, v: Json)
    ensures
        json_members_view(final(m)@) == json_members_view(old(m)@).push((k@, v@)),
{
    let ghost before = m@;
    let item = (k.to_owned(), v);
    let ghost g = item;
    m.push(item);
    proof {
        lemma_members_view_snoc(before, g);
    }
}

/// Appends `v` to an array's items.
pub fn push_item(a: &mut Vec<Json>, v: Json)
    ensures
        json_seq_view(final(a)@) == json_seq_view(old(a)@).push(v@),
{
    let ghost before = a@;
    let ghost g = v;
    a.push(v);
    proof {
        lemma_seq_view_snoc(before, g);
    }
}

/// `serde_json::Value`, carried through the conversions below.
#[verifier::external_type_specification]
#[verifier::external_body]
pub struct ExValue(serde_json::Value);

/// `serde_json::Number`, carried through the conversions below.
#[verifier::external_type_specification]
#[verifier::external_body]
pub struct ExNumber(serde_json::Number);

/// The mathematical value of a parse outcome.
pub open spec fn parse_view(r: Result<Json, String>) -> Result<JsonView, Seq<char>> {
    match r {
        Ok(j) => Ok(j@),
        Err(e) => Err(e@),
    }
}

/// Reads a JSON value from `text` with `serde_json::from_str::<serde_json::Value>`;
/// the contract claims only that the outcome is the one that
/// [`json_parse`] names for this text, the error being the parser's message.
#[verifier::external_body]
pub(crate) fn parse_json(text: &str) -> (r: Result<Json, String>)
    ensures
        parse_view(r) == json_parse(text@),
{
    match serde_json::from_str::<serde_json::Value>(text) {
        Ok(v) => Ok(from_value(v)),
        Err(e) => Err(e.to_string()),
    }
}

/// Prints `v` as compact JSON text with `serde_json` (`Value::to_string`); the
/// contract claims that the text is the one [`json_text`] names for the value.
#[verifier::external_body]
pub(crate) fn json_to_string(v: &Json) -> (r: String)
    ensures
        r@ == json_text(v@),
{
    to_value(v).to_string()
}

/// The text that `serde_json::to_string_pretty` writes for a value (two-space
/// indentation).
pub uninterp spec fn json_pretty_text(v: JsonView) -> Seq<char>;

/// Prints `v` as indented JSON text with `serde_json::to_string_pretty`; the
/// contract claims that the text is the one [`json_pretty_text`] names for the
/// value.
#[verifier::external_body]
pub(crate) fn json_to_string_pretty(v: &Json) -> (r: String)
    ensures
        r@ == json_pretty_text(v@),
{
    serde_json::to_string_pretty(&to_value(v)).unwrap_or_default()
}

/// `m` with member `k` set to `v`: the first member of that name gets the new
/// value, or the member is added at the end.
pub open spec fn upsert(m: Seq<(Seq<char>, JsonView)>, k: Seq<char>, v: JsonView) -> Seq<(Seq<char>, JsonView)> {
    if exists|i: int| 0 <= i < m.len() && #[trigger] m[i].0 == k {
        let i = choose|i: int| 0 <= i < m.len() && #[trigger] m[i].0 == k && forall|j: int| 0 <= j < i ==> m[j].0 != k;
        m.update(i, (k, v))
    } else {
        m.push((k, v))
    }
}

proof fn lemma_lookup_first(m: Seq<(Seq<char>, JsonView)>, q: Seq<char>, i: int)
    requires
        0 <= i < m.len(),
        m[i].0 == q,
        forall|j: int| 0 <= j < i ==> m[j].0 != q,
    ensures
        lookup(m, q) == Some(m[i].1),
    decreases i,
{
    if i > 0 {
        lemma_lookup_first(m.drop_first(), q, i - 1);
    }
}

proof fn lemma_lookup_absent(m: Seq<(Seq<char>, JsonView)>, q: Seq<char>)
    requires
        forall|j: int| 0 <= j < m.len() ==> m[j].0 != q,
    ensures
        lookup(m, q) is None,
    decreases m.len(),
{
    if m.len() > 0 {
        lemma_lookup_absent(m.drop_first(), q);
    }
}

proof fn lemma_first_key(m: Seq<(Seq<char>, JsonView)>, q: Seq<char>, w: int)
    requires
        0 <= w < m.len(),
        m[w].0 == q,
    ensures
        exists|i: int| 0 <= i < m.len() && m[i].0 == q && forall|j: int| 0 <= j < i ==> m[j].0 != q,
    decreases w,
{
    if exists|j: int| 0 <= j < w && m[j].0 == q {
        let j = choose|j: int| 0 <= j < w && m[j].0 == q;
        lemma_first_key(m, q, j);
    } else {
        assert(0 <= w < m.len() && m[w].0 == q && forall|j: int| 0 <= j < w ==> m[j].0 != q);
    }
}

/// Setting a member gives it the new value and leaves every other member's
/// value as it was.
pub proof fn upsert_lookup(m: Seq<(Seq<char>, JsonView)>, k: Seq<char>, v: JsonView, q: Seq<char>)
    ensures
        lookup(upsert(m, k, v), q) == if q == k {
            Some(v)
        } else {
            lookup(m, q)
        },
{
    let u = upsert(m, k, v);
    if exists|i: int| 0 <= i < m.len() && #[trigger] m[i].0 == k {
        let w = choose|i: int| 0 <= i < m.len() && #[trigger] m[i].0 == k;
        lemma_first_key(m, k, w);
        let c = choose|i: int| 0 <= i < m.len() && #[trigger] m[i].0 == k && forall|j: int| 0 <= j < i ==> m[j].0 != k;
        assert(u == m.update(c, (k, v)));
        if q == k {
            lemma_lookup_first(u, q, c);
        } else if exists|i: int| 0 <= i < m.len() && m[i].0 == q {
            let w2 = choose|i: int| 0 <= i < m.len() && m[i].0 == q;
            lemma_first_key(m, q, w2);
            let p = choose|i: int| 0 <= i < m.len() && m[i].0 == q && forall|j: int| 0 <= j < i ==> m[j].0 != q;
            lemma_lookup_first(m, q, p);
            assert forall|j: int| 0 <= j < p implies u[j].0 != q by {
                if j != c {
                    assert(u[j] == m[j]);
                }
            }
            lemma_lookup_first(u, q, p);
        } else {
            lemma_lookup_absent(m, q);
            assert forall|j: int| 0 <= j < u.len() implies u[j].0 != q by {
                if j != c {
                    assert(u[j] == m[j]);
                }
            }
            lemma_lookup_absent(u, q);
        }
    } else {
        assert(u == m.push((k, v)));
        if q == k {
            assert forall|j: int| 0 <= j < m.len() implies u[j].0 != q by {
                assert(u[j] == m[j]);
            }
            lemma_lookup_first(u, q, m.len() as int);
        } else if exists|i: int| 0 <= i < m.len() && m[i].0 == q {
            let w2 = choose|i: int| 0 <= i < m.len() && m[i].0 == q;
            lemma_first_key(m, q, w2);
            let p = choose|i: int| 0 <= i < m.len() && m[i].0 == q && forall|j: int| 0 <= j < i ==> m[j].0 != q;
            lemma_lookup_first(m, q, p);
            assert forall|j: int| 0 <= j < p implies u[j].0 != q by {
                assert(u[j] == m[j]);
            }
            lemma_lookup_first(u, q, p);
        } else {
            lemma_lookup_absent(m, q);
            assert forall|j: int| 0 <= j < u.len() implies u[j].0 != q by {
                if j < m.len() {
                    assert(u[j] == m[j]);
                }
            }
            lemma_lookup_absent(u, q);
        }
    }
}

fn find_member(m: &Vec<(String, Json)>, k: &str) -> (r: Option<usize>)
    ensures
        match r {
            Some(i) => i < m.len() && json_members_view(m@)[i as int].0 == k@ && forall|j: int|
                0 <= j < i ==> json_members_view(m@)[j].0 != k@,
            None => forall|j: int| 0 <= j < m.len() ==> json_members_view(m@)[j].0 != k@,
        },
{
    let ghost mv = json_members_view(m@);
    proof {
        lemma_members_view_len(m@);
    }
    let mut i: usize = 0;
    while i < m.len()
        invariant
            i <= m.len() == mv.len(),
            mv == json_members_view(m@),
            forall|j: int| 0 <= j < i ==> mv[j].0 != k@,
        decreases m.len() - i,
    {
        proof {
            lemma_members_view_index(m@, i as int);
        }
        if str_eq(m[i].0.as_str(), k) {
            return Some(i);
        }
        i = i + 1;
    }
    None
}

proof fn lemma_members_view_update(s: Seq<(String, Json)>, i: int, x: (String, Json))
    requires
        0 <= i < s.len(),
    ensures
        json_members_view(s.update(i, x)) == json_members_view(s).update(i, (x.0@, json_view(x.1))),
{
    lemma_members_view_len(s);
    lemma_members_view_len(s.update(i, x));
    assert forall|j: int| 0 <= j < s.len() implies #[trigger] json_members_view(s.update(i, x))[j]
        == json_members_view(s).update(i, (x.0@, json_view(x.1)))[j] by {
        lemma_members_view_index(s.update(i, x), j);
        lemma_members_view_index(s, j);
    }
    assert(json_members_view(s.update(i, x)) =~= json_members_view(s).update(
        i,
        (x.0@, json_view(x.1)),
    ));
}

/// Sets member `k` of an object's member list to `v`.
pub fn set_member(m: &mut Vec<(String, Json)>, k: &str, v: Json)
    ensures
        json_members_view(final(m)@) == upsert(json_members_view(old(m)@), k@, v@),
{
    let ghost mv = json_members_view(m@);
    match find_member(m, k) {
        Some(i) => {
            let item = (k.to_owned(), v);
            let ghost g = item;
            let ghost before = m@;
            m.set(i, item);
            proof {
                lemma_members_view_len(before);
                lemma_members_view_update(before, i as int, g);
                assert(m@ == before.update(i as int, g));
                assert(0 <= i < mv.len() && mv[i as int].0 == k@ && forall|j: int| 0 <= j < i ==> mv[j].0 != k@);
                let c = choose|c: int| 0 <= c < mv.len() && #[trigger] mv[c].0 == k@ && forall|j: int|
                    0 <= j < c ==> mv[j].0 != k@;
                assert(0 <= i < mv.len() && mv[i as int].0 == k@);
                if c < i {
                    assert(mv[c].0 != k@);
                }
                if i < c {
                    assert(mv[i as int].0 != k@);
                }
            }
        },
        None => {
            proof {
                lemma_members_view_len(m@);
            }
            push_member(m, k, v);
        },
    }
}

/// Moves a `serde_json::Value` into a [`Json`], variant by variant.
#[verifier::external_body]
fn from_value(v: serde_json::Value) -> Json {
    match v {
        serde_json::Value::Null => Json::Null,
        serde_json::Value::Bool(b) => Json::Bool(b),
        serde_json::Value::Number(n) => Json::Number(from_number(n)),
        serde_json::Value::String(s) => Json::Str(s),
        serde_json::Value::Array(a) => Json::Array(a.into_iter().map(from_value).collect()),
        serde_json::Value::Object(m) => Json::Object(
            m.into_iter().map(|(k, x)| (k, from_value(x))).collect(),
        ),
    }
}

/// Tells the three kinds of `serde_json::Number` apart.
#[verifier::external_body]
fn from_number(n: serde_json::Number) -> JsonNumber {
    match (n.as_u64(), n.as_i64()) {
        (Some(u), _) => JsonNumber::PosInt(u),
        (None, Some(i)) => JsonNumber::NegInt(i),
        (None, None) => JsonNumber::Float(n.to_string()),
    }
}

/// Moves a [`Json`] into a `serde_json::Value`, variant by variant.
#[verifier::external_body]
fn to_value(v: &Json) -> serde_json::Value {
    match v {
        Json::Null => serde_json::Value::Null,
        Json::Bool(b) => serde_json::Value::Bool(*b),
        Json::Number(JsonNumber::PosInt(u)) => serde_json::Value::from(*u),
        Json::Number(JsonNumber::NegInt(i)) => serde_json::Value::from(*i),
        Json::Number(JsonNumber::Float(t)) => serde_json::from_str(t).unwrap_or_default(),
        Json::Str(s) => serde_json::Value::String(s.clone()),
        Json::Array(a) => serde_json::Value::Array(a.iter().map(to_value).collect()),
        Json::Object(m) => serde_json::Value::Object(
            m.iter().map(|(k, x)| (k.clone(), to_value(x))).collect(),
        ),
    }
}

} // verus!
