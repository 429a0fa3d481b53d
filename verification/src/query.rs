//! Building v1 requests from HTTP query strings and path variables, the
//! directory scope of a request, and the URI that the gRPC binding dispatches
//! to the HTTP router.
use vstd::prelude::*;
use vstd::utf8::encode_utf8;
use vstd::string::StringSliceAdditionalSpecFns;
use crate::text::{
    lemma_lex_antisymmetric, lemma_lex_total, lemma_lex_transitive, lex_le, str_lex_le,
    decimal, decimal_string, opt_str_view, opt_string_view, owned, push_char, str_equals, trim,
    trimmed,
};

verus! {

/// Directory scope header: overrides the `directory` request field.
pub const DIRECTORY_HEADER: &'static str = "x-hya-directory";

/// gRPC metadata key that carries the directory scope of a call.
pub const DIRECTORY_METADATA: &'static str = "hya-directory";

/// The header a gRPC call dispatched to the HTTP router carries for its
/// `hya-directory` metadata value: `x-hya-directory` with that value, so the
/// scope resolves as it does for an HTTP client; none without metadata.
pub fn forwarded_directory_header(metadata: Option<&str>) -> (res: Option<(String, String)>)
    ensures
        match metadata {
            None => res is None,
            Some(v) => res matches Some(h) && h.0@ == DIRECTORY_HEADER@ && h.1@ == v@,
        },
{
    match metadata {
        None => None,
        Some(v) => Some((owned(DIRECTORY_HEADER), owned(v))),
    }
}

/// The directory scope of a request: the trimmed `x-hya-directory` header when
/// it is not blank, else the trimmed `directory` field when it is not blank,
/// else the process workdir `.`.
pub open spec fn scope_directory_of(header: Option<Seq<char>>, requested: Seq<char>) -> Seq<char> {
    match header {
        Some(h) if trimmed(h).len() > 0 => trimmed(h),
        _ => if trimmed(requested).len() > 0 {
            trimmed(requested)
        } else {
            "."@
        },
    }
}

/// Resolve the directory scope for a request from the header value (when it
/// is present and readable as text) and the request's `directory` field.
pub fn scope_directory(header: Option<&str>, requested: &str) -> (res: String)
    ensures
        res@ == scope_directory_of(opt_str_view(header), requested@),
{
    match header {
        Some(h) => {
            let t = trim(h);
            if !t.as_str().is_empty() {
                return t;
            }
        },
        None => {},
    }
    let r = trim(requested);
    if !r.as_str().is_empty() {
        return r;
    }
    owned(".")
}

/// A scalar request field decoded from query text.
#[derive(Debug, PartialEq, Eq)]
pub enum QueryScalar {
    Bool(bool),
    Text(String),
}

/// The meaning of a scalar request field.
pub enum ScalarValue {
    Bool(bool),
    Text(Seq<char>),
}

impl View for QueryScalar {
    type V = ScalarValue;

    open spec fn view(&self) -> ScalarValue {
        match self {
            QueryScalar::Bool(b) => ScalarValue::Bool(*b),
            QueryScalar::Text(t) => ScalarValue::Text(t@),
        }
    }
}

/// Whether the keys of an association list are pairwise distinct.
pub open spec fn keys_unique<T>(s: Seq<(String, T)>) -> bool {
    forall|i: int, j: int| 0 <= i < j < s.len() ==> (#[trigger] s[i]).0@ != (#[trigger] s[j]).0@
}

/// The map an association list stands for: each entry in turn, later entries
/// replacing earlier ones.
pub open spec fn assoc_map<T: View>(s: Seq<(String, T)>) -> Map<Seq<char>, T::V>
    decreases s.len(),
{
    if s.len() == 0 {
        Map::empty()
    } else {
        assoc_map(s.drop_last()).insert(s.last().0@, s.last().1@)
    }
}

proof fn lemma_assoc_map_update<T: View>(s: Seq<(String, T)>, i: int, k: String, x: T)
    requires
        keys_unique(s),
        0 <= i < s.len(),
        s[i].0@ == k@,
    ensures
        assoc_map(s.update(i, (k, x))) =~= assoc_map(s).insert(k@, x@),
    decreases s.len(),
{
    let t = s.update(i, (k, x));
    if i == s.len() - 1 {
        assert(t.drop_last() =~= s.drop_last());
    } else {
        assert(t.drop_last() =~= s.drop_last().update(i, (k, x)));
        lemma_assoc_map_update(s.drop_last(), i, k, x);
        assert(s.last().0@ != k@);
    }
}

/// Insert `x` under `k` into an association list with distinct keys,
/// replacing the entry of `k` if there is one.
fn assoc_insert<T: View>(v: &mut Vec<(String, T)>, k: String, x: T)
    requires
        keys_unique(old(v)@),
    ensures
        keys_unique(final(v)@),
        assoc_map(final(v)@) =~= assoc_map(old(v)@).insert(k@, x@),
{
    let mut i: usize = 0;
    while i < v.len()
        invariant
            i <= v@.len(),
            v@ == old(v)@,
            keys_unique(old(v)@),
            forall|j: int| 0 <= j < i ==> (#[trigger] v@[j]).0@ != k@,
        decreases v@.len() - i,
    {
        if str_equals(v[i].0.as_str(), k.as_str()) {
            let ghost s = v@;
            proof {
                lemma_assoc_map_update(s, i as int, k, x);
            }
            v.set(i, (k, x));
            proof {
                assert(v@ =~= s.update(i as int, (k, x)));
                assert forall|a: int, b: int| 0 <= a < b < v@.len() implies (#[trigger] v@[a]).0@
                    != (#[trigger] v@[b]).0@ by {
                    assert(s[a].0@ != s[b].0@);
                }
            }
            return;
        }
        i = i + 1;
    }
    let ghost s = v@;
    v.push((k, x));
    proof {
        assert(v@.drop_last() =~= s);
        assert forall|a: int, b: int| 0 <= a < b < v@.len() implies (#[trigger] v@[a]).0@
            != (#[trigger] v@[b]).0@ by {
            if b < s.len() {
                assert(s[a].0@ != s[b].0@);
            } else {
                assert(s[a].0@ != k@);
            }
        }
    }
}

/// A request field built from query text: a scalar, or the nested `page`
/// object.
#[derive(Debug, PartialEq, Eq)]
pub enum QueryField {
    Scalar(QueryScalar),
    Page(Vec<(String, QueryScalar)>),
}

/// The meaning of a request field.
pub enum FieldValue {
    Scalar(ScalarValue),
    Page(Map<Seq<char>, ScalarValue>),
}

impl View for QueryField {
    type V = FieldValue;

    open spec fn view(&self) -> FieldValue {
        match self {
            QueryField::Scalar(s) => FieldValue::Scalar(s@),
            QueryField::Page(v) => FieldValue::Page(assoc_map(v@)),
        }
    }
}

/// Query text as a protojson value: the literals `true` and `false` become
/// booleans, any other text stays text.
pub open spec fn coerce(v: Seq<char>) -> ScalarValue {
    if v == "true"@ {
        ScalarValue::Bool(true)
    } else if v == "false"@ {
        ScalarValue::Bool(false)
    } else {
        ScalarValue::Text(v)
    }
}

/// The `page` field that a dotted query key fills, if any.
pub open spec fn page_field_name(k: Seq<char>) -> Option<Seq<char>> {
    if k == "page.cursor"@ {
        Some("cursor"@)
    } else if k == "page.limit"@ {
        Some("limit"@)
    } else {
        None
    }
}

/// The top-level fields that the query parameters set, in turn.
pub open spec fn query_top(q: Seq<(String, String)>) -> Map<Seq<char>, FieldValue>
    decreases q.len(),
{
    if q.len() == 0 {
        Map::empty()
    } else {
        let m = query_top(q.drop_last());
        let (k, v) = q.last();
        if v@.len() == 0 || page_field_name(k@) is Some {
            m
        } else {
            m.insert(k@, FieldValue::Scalar(coerce(v@)))
        }
    }
}

/// The fields of the nested `page` object that the query parameters set.
pub open spec fn query_page(q: Seq<(String, String)>) -> Map<Seq<char>, ScalarValue>
    decreases q.len(),
{
    if q.len() == 0 {
        Map::empty()
    } else {
        let m = query_page(q.drop_last());
        let (k, v) = q.last();
        match page_field_name(k@) {
            Some(f) => if v@.len() == 0 {
                m
            } else {
                m.insert(f, coerce(v@))
            },
            None => m,
        }
    }
}

/// Whether some non-empty query parameter fills the `page` object.
pub open spec fn query_has_page(q: Seq<(String, String)>) -> bool {
    exists|i: int|
        0 <= i < q.len() && (#[trigger] q[i]).1@.len() > 0 && page_field_name(q[i].0@) is Some
}

/// `m` with each path variable set as text, in turn.
pub open spec fn with_path_vars(m: Map<Seq<char>, FieldValue>, p: Seq<(String, String)>) -> Map<
    Seq<char>,
    FieldValue,
>
    decreases p.len(),
{
    if p.len() == 0 {
        m
    } else {
        with_path_vars(m, p.drop_last()).insert(
            p.last().0@,
            FieldValue::Scalar(ScalarValue::Text(p.last().1@)),
        )
    }
}

/// The fields of a request built from path variables and query parameters:
/// empty parameters are skipped, `page.cursor` and `page.limit` fill the
/// nested `page` object, the other parameters set top-level fields, and path
/// variables override them.
pub open spec fn request_fields(
    path_vars: Seq<(String, String)>,
    query: Seq<(String, String)>,
) -> Map<Seq<char>, FieldValue> {
    let top = query_top(query);
    let with_page = if query_has_page(query) {
        top.insert("page"@, FieldValue::Page(query_page(query)))
    } else {
        top
    };
    with_path_vars(with_page, path_vars)
}

proof fn lemma_with_path_vars_last(m: Map<Seq<char>, FieldValue>, p: Seq<(String, String)>, i: int)
    requires
        0 <= i < p.len(),
        forall|j: int| i < j < p.len() ==> (#[trigger] p[j]).0@ != p[i].0@,
    ensures
        with_path_vars(m, p).contains_key(p[i].0@),
        with_path_vars(m, p)[p[i].0@] == FieldValue::Scalar(ScalarValue::Text(p[i].1@)),
    decreases p.len(),
{
    if i < p.len() - 1 {
        let q = p.drop_last();
        assert forall|j: int| i < j < q.len() implies (#[trigger] q[j]).0@ != q[i].0@ by {
            assert(q[j] == p[j]);
        }
        lemma_with_path_vars_last(m, q, i);
        assert(p.last().0@ != p[i].0@);
    }
}

/// Path variables override query values: the last path variable of a key
/// sets that field as text, whatever the query parameters hold.
pub proof fn lemma_path_vars_override(
    path_vars: Seq<(String, String)>,
    query: Seq<(String, String)>,
    i: int,
)
    requires
        0 <= i < path_vars.len(),
        forall|j: int| i < j < path_vars.len() ==> (#[trigger] path_vars[j]).0@ != path_vars[i].0@,
    ensures
        request_fields(path_vars, query).contains_key(path_vars[i].0@),
        request_fields(path_vars, query)[path_vars[i].0@] == FieldValue::Scalar(
            ScalarValue::Text(path_vars[i].1@),
        ),
{
    let top = query_top(query);
    let with_page = if query_has_page(query) {
        top.insert("page"@, FieldValue::Page(query_page(query)))
    } else {
        top
    };
    lemma_with_path_vars_last(with_page, path_vars, i);
}

/// A query text as the request field reads it: `true` and `false` are
/// booleans, any other text stays text.
pub open spec fn read_as_field(v: Seq<char>) -> ScalarValue {
    if v == "true"@ {
        ScalarValue::Bool(true)
    } else if v == "false"@ {
        ScalarValue::Bool(false)
    } else {
        ScalarValue::Text(v)
    }
}

proof fn lemma_query_top_keeps(q: Seq<(String, String)>, i: int)
    requires
        0 <= i < q.len(),
        q[i].1@.len() > 0,
        page_field_name(q[i].0@) is None,
        forall|j: int| i < j < q.len() ==> (#[trigger] q[j]).0@ != q[i].0@,
    ensures
        query_top(q).contains_key(q[i].0@),
        query_top(q)[q[i].0@] == FieldValue::Scalar(read_as_field(q[i].1@)),
    decreases q.len(),
{
    if i < q.len() - 1 {
        let r = q.drop_last();
        assert forall|j: int| i < j < r.len() implies (#[trigger] r[j]).0@ != r[i].0@ by {
            assert(r[j] == q[j]);
        }
        lemma_query_top_keeps(r, i);
        assert(q.last().0@ != q[i].0@);
    }
}

proof fn lemma_query_page_keeps(q: Seq<(String, String)>, i: int, f: Seq<char>)
    requires
        0 <= i < q.len(),
        q[i].1@.len() > 0,
        page_field_name(q[i].0@) == Some(f),
        forall|j: int| i < j < q.len() ==> (#[trigger] q[j]).0@ != q[i].0@,
    ensures
        query_page(q).contains_key(f),
        query_page(q)[f] == read_as_field(q[i].1@),
    decreases q.len(),
{
    reveal_strlit("page.cursor");
    reveal_strlit("page.limit");
    reveal_strlit("cursor");
    reveal_strlit("limit");
    if i < q.len() - 1 {
        let r = q.drop_last();
        assert forall|j: int| i < j < r.len() implies (#[trigger] r[j]).0@ != r[i].0@ by {
            assert(r[j] == q[j]);
        }
        lemma_query_page_keeps(r, i, f);
        let k = q.last().0@;
        assert(k != q[i].0@);
        assert("cursor"@.len() != "limit"@.len());
        assert("page.cursor"@.len() != "page.limit"@.len());
        if page_field_name(k) is Some {
            assert(page_field_name(k) != Some(f));
        }
    }
}

proof fn lemma_with_path_vars_keeps(m: Map<Seq<char>, FieldValue>, p: Seq<(String, String)>, k: Seq<char>)
    requires
        m.contains_key(k),
        forall|j: int| 0 <= j < p.len() ==> (#[trigger] p[j]).0@ != k,
    ensures
        with_path_vars(m, p).contains_key(k),
        with_path_vars(m, p)[k] == m[k],
    decreases p.len(),
{
    if p.len() > 0 {
        let r = p.drop_last();
        assert forall|j: int| 0 <= j < r.len() implies (#[trigger] r[j]).0@ != k by {
            assert(r[j] == p[j]);
        }
        lemma_with_path_vars_keeps(m, r, k);
        assert(p.last().0@ != k);
    }
}

/// A non-empty query parameter other than `page.cursor`, `page.limit` and
/// `page` sets its own top-level field, whatever the other parameters are:
/// to a boolean when it reads `true` or `false`, else to its text. Only a
/// later parameter or a path variable of the same key replaces it.
pub proof fn lemma_query_parameter_sets_its_field(
    path_vars: Seq<(String, String)>,
    query: Seq<(String, String)>,
    i: int,
)
    requires
        0 <= i < query.len(),
        query[i].1@.len() > 0,
        query[i].0@ != "page.cursor"@,
        query[i].0@ != "page.limit"@,
        query[i].0@ != "page"@,
        forall|j: int| i < j < query.len() ==> (#[trigger] query[j]).0@ != query[i].0@,
        forall|j: int| 0 <= j < path_vars.len() ==> (#[trigger] path_vars[j]).0@ != query[i].0@,
    ensures
        request_fields(path_vars, query).contains_key(query[i].0@),
        request_fields(path_vars, query)[query[i].0@] == FieldValue::Scalar(
            if query[i].1@ == "true"@ {
                ScalarValue::Bool(true)
            } else if query[i].1@ == "false"@ {
                ScalarValue::Bool(false)
            } else {
                ScalarValue::Text(query[i].1@)
            },
        ),
{
    let k = query[i].0@;
    lemma_query_top_keeps(query, i);
    let top = query_top(query);
    let with_page = if query_has_page(query) {
        top.insert("page"@, FieldValue::Page(query_page(query)))
    } else {
        top
    };
    assert(with_page.contains_key(k) && with_page[k] == top[k]);
    lemma_with_path_vars_keeps(with_page, path_vars, k);
}

/// A non-empty `page.cursor` or `page.limit` parameter sets that field of the
/// nested `page` object (`cursor` or `limit`), as a boolean when it reads
/// `true` or `false`, else as text, whatever the other parameters are; only a
/// later parameter of the same key, or a path variable `page`, replaces it.
pub proof fn lemma_page_parameter_sets_the_page_field(
    path_vars: Seq<(String, String)>,
    query: Seq<(String, String)>,
    i: int,
)
    requires
        0 <= i < query.len(),
        query[i].1@.len() > 0,
        query[i].0@ == "page.cursor"@ || query[i].0@ == "page.limit"@,
        forall|j: int| i < j < query.len() ==> (#[trigger] query[j]).0@ != query[i].0@,
        forall|j: int| 0 <= j < path_vars.len() ==> (#[trigger] path_vars[j]).0@ != "page"@,
    ensures
        request_fields(path_vars, query).contains_key("page"@),
        request_fields(path_vars, query)["page"@] matches FieldValue::Page(page) && page.contains_key(
            if query[i].0@ == "page.cursor"@ {
                "cursor"@
            } else {
                "limit"@
            },
        ) && page[if query[i].0@ == "page.cursor"@ {
            "cursor"@
        } else {
            "limit"@
        }] == if query[i].1@ == "true"@ {
            ScalarValue::Bool(true)
        } else if query[i].1@ == "false"@ {
            ScalarValue::Bool(false)
        } else {
            ScalarValue::Text(query[i].1@)
        },
{
    let f = if query[i].0@ == "page.cursor"@ {
        "cursor"@
    } else {
        "limit"@
    };
    lemma_query_page_keeps(query, i, f);
    assert(query_has_page(query)) by {
        assert(page_field_name(query[i].0@) is Some);
    }
    let with_page = query_top(query).insert("page"@, FieldValue::Page(query_page(query)));
    lemma_with_path_vars_keeps(with_page, path_vars, "page"@);
}

fn coerce_text(v: &String) -> (res: QueryScalar)
    ensures
        res@ == coerce(v@),
{
    if str_equals(v.as_str(), "true") {
        QueryScalar::Bool(true)
    } else if str_equals(v.as_str(), "false") {
        QueryScalar::Bool(false)
    } else {
        QueryScalar::Text(v.clone())
    }
}

fn page_field(k: &String) -> (res: Option<String>)
    ensures
        match res {
            Some(f) => page_field_name(k@) == Some(f@),
            None => page_field_name(k@) is None,
        },
{
    if str_equals(k.as_str(), "page.cursor") {
        Some(owned("cursor"))
    } else if str_equals(k.as_str(), "page.limit") {
        Some(owned("limit"))
    } else {
        None
    }
}

/// Build the fields of a request message from path variables and query
/// parameters (in the order of the query map). The result holds each field
/// once; its meaning is `request_fields`.
pub fn query_request_fields(
    path_vars: &Vec<(String, String)>,
    query: &Vec<(String, String)>,
) -> (res: Vec<(String, QueryField)>)
    ensures
        keys_unique(res@),
        assoc_map(res@) == request_fields(path_vars@, query@),
{
    let mut map: Vec<(String, QueryField)> = Vec::new();
    let mut page: Vec<(String, QueryScalar)> = Vec::new();
    let mut has_page = false;
    let mut i: usize = 0;
    while i < query.len()
        invariant
            i <= query@.len(),
            keys_unique(map@),
            keys_unique(page@),
            assoc_map(map@) == query_top(query@.take(i as int)),
            assoc_map(page@) == query_page(query@.take(i as int)),
            has_page == query_has_page(query@.take(i as int)),
        decreases query@.len() - i,
    {
        let ghost prev = query@.take(i as int);
        let ghost cur = query@.take(i + 1);
        proof {
            assert(cur.drop_last() =~= prev);
            assert(cur.last() == query@[i as int]);
        }
        let key = &query[i].0;
        let value = &query[i].1;
        if !value.as_str().is_empty() {
            let json = coerce_text(value);
            match page_field(key) {
                Some(field) => {
                    assoc_insert(&mut page, field, json);
                    has_page = true;
                },
                None => {
                    assoc_insert(&mut map, key.clone(), QueryField::Scalar(json));
                },
            }
        }
        proof {
            if query_has_page(cur) && !query_has_page(prev) {
                let j = choose|j: int|
                    0 <= j < cur.len() && (#[trigger] cur[j]).1@.len() > 0 && page_field_name(
                        cur[j].0@,
                    ) is Some;
                if j < prev.len() {
                    assert(prev[j] == cur[j]);
                }
            }
            if query_has_page(prev) {
                let j = choose|j: int|
                    0 <= j < prev.len() && (#[trigger] prev[j]).1@.len() > 0 && page_field_name(
                        prev[j].0@,
                    ) is Some;
                assert(cur[j] == prev[j]);
            }
        }
        i = i + 1;
    }
    proof {
        assert(query@.take(query@.len() as int) =~= query@);
    }
    if has_page {
        assoc_insert(&mut map, owned("page"), QueryField::Page(page));
    }
    let ghost base = assoc_map(map@);
    let mut j: usize = 0;
    while j < path_vars.len()
        invariant
            j <= path_vars@.len(),
            keys_unique(map@),
            assoc_map(map@) == with_path_vars(base, path_vars@.take(j as int)),
        decreases path_vars@.len() - j,
    {
        proof {
            assert(path_vars@.take(j + 1).drop_last() =~= path_vars@.take(j as int));
        }
        assoc_insert(
            &mut map,
            path_vars[j].0.clone(),
            QueryField::Scalar(QueryScalar::Text(path_vars[j].1.clone())),
        );
        j = j + 1;
    }
    proof {
        assert(path_vars@.take(path_vars@.len() as int) =~= path_vars@);
    }
    map
}

/// A field of a serialized request, as the query builder sees it: a string,
/// a number (rendered as its JSON text), a boolean, a nested object (its
/// fields in order), or anything else.
#[derive(Debug, PartialEq, Eq)]
pub enum SerializedField {
    Text(String),
    Number(String),
    Bool(bool),
    Object(Vec<(String, SerializedField)>),
    Other,
}

/// The query text of a scalar serialized field, if it has one.
pub open spec fn field_query_text(f: SerializedField) -> Option<Seq<char>> {
    match f {
        SerializedField::Text(t) => Some(t@),
        SerializedField::Number(n) => Some(n@),
        SerializedField::Bool(b) => Some(
            if b {
                "true"@
            } else {
                "false"@
            },
        ),
        _ => None,
    }
}

/// Whether a query text is sent: defaults (`""`, `0`, `false`) are not.
pub open spec fn sent_text(t: Seq<char>) -> bool {
    t.len() > 0 && t != "0"@ && t != "false"@
}

/// The parameter of a scalar field under `key`, if it is sent.
pub open spec fn scalar_params(key: Seq<char>, f: SerializedField) -> Seq<(Seq<char>, Seq<char>)> {
    match field_query_text(f) {
        Some(t) => if sent_text(t) {
            seq![(key, t)]
        } else {
            Seq::empty()
        },
        None => Seq::empty(),
    }
}

/// The parameters of the scalar fields of a nested object under `prefix`,
/// each keyed `<prefix>.<field>`, in order.
pub open spec fn nested_params(prefix: Seq<char>, fields: Seq<(String, SerializedField)>) -> Seq<
    (Seq<char>, Seq<char>),
>
    decreases fields.len(),
{
    if fields.len() == 0 {
        Seq::empty()
    } else {
        nested_params(prefix, fields.drop_last()) + scalar_params(
            prefix + "."@ + fields.last().0@,
            fields.last().1,
        )
    }
}

/// The parameters one top-level field becomes: a scalar its own, a nested
/// object those of its scalar fields under dotted keys.
pub open spec fn entry_params(entry: (String, SerializedField)) -> Seq<(Seq<char>, Seq<char>)> {
    match entry.1 {
        SerializedField::Object(v) => nested_params(entry.0@, v@),
        f => scalar_params(entry.0@, f),
    }
}

/// The query parameters of a serialized request, field after field.
pub open spec fn query_params(fields: Seq<(String, SerializedField)>) -> Seq<
    (Seq<char>, Seq<char>),
>
    decreases fields.len(),
{
    if fields.len() == 0 {
        Seq::empty()
    } else {
        query_params(fields.drop_last()) + entry_params(fields.last())
    }
}


/// The views of a sequence of string pairs.
pub open spec fn pair_views(v: Seq<(String, String)>) -> Seq<(Seq<char>, Seq<char>)> {
    v.map_values(|p: (String, String)| (p.0@, p.1@))
}

fn scalar_text(f: &SerializedField) -> (res: Option<String>)
    ensures
        opt_string_view(res) == field_query_text(*f),
{
    match f {
        SerializedField::Text(t) => Some(t.clone()),
        SerializedField::Number(n) => Some(n.clone()),
        SerializedField::Bool(b) => Some(
            if *b {
                owned("true")
            } else {
                owned("false")
            },
        ),
        _ => None,
    }
}

/// Appends the parameter of a scalar field under `key` to `out`, if it is
/// sent.
fn push_scalar(out: &mut Vec<(String, String)>, key: String, f: &SerializedField)
    ensures
        pair_views(final(out)@) == pair_views(old(out)@) + scalar_params(key@, *f),
{
    let ghost before = out@;
    match scalar_text(f) {
        Some(t) => {
            if !t.as_str().is_empty() && !str_equals(t.as_str(), "0") && !str_equals(
                t.as_str(),
                "false",
            ) {
                let ghost tv = t@;
                out.push((key, t));
                proof {
                    assert(pair_views(out@) =~= pair_views(before) + seq![(key@, tv)]);
                }
            } else {
                proof {
                    assert(pair_views(out@) =~= pair_views(before) + Seq::empty());
                }
            }
        },
        None => {
            proof {
                assert(pair_views(out@) =~= pair_views(before) + Seq::empty());
            }
        },
    }
}

/// Appends the parameters of a nested object's scalar fields under `prefix`.
fn push_nested(out: &mut Vec<(String, String)>, prefix: &String, fields: &Vec<(String, SerializedField)>)
    ensures
        pair_views(final(out)@) == pair_views(old(out)@) + nested_params(prefix@, fields@),
{
    let mut i: usize = 0;
    while i < fields.len()
        invariant
            i <= fields@.len(),
            pair_views(out@) == pair_views(old(out)@) + nested_params(
                prefix@,
                fields@.take(i as int),
            ),
        decreases fields@.len() - i,
    {
        let ghost mid = out@;
        let mut key = prefix.clone();
        push_char(&mut key, '.');
        key.append(fields[i].0.as_str());
        push_scalar(out, key, &fields[i].1);
        proof {
            let cur = fields@.take(i + 1);
            assert(cur.drop_last() =~= fields@.take(i as int));
            assert(cur.last() == fields@[i as int]);
            assert(key@ =~= prefix@ + "."@ + fields@[i as int].0@) by {
                reveal_strlit(".");
            }
            assert(pair_views(out@) =~= pair_views(old(out)@) + nested_params(prefix@, cur));
        }
        i = i + 1;
    }
    proof {
        assert(fields@.take(fields@.len() as int) =~= fields@);
    }
}

/// The value of the last parameter with key `k`, if any: later parameters
/// replace earlier ones, as inserting them into a map does.
pub open spec fn last_value(params: Seq<(Seq<char>, Seq<char>)>, k: Seq<char>) -> Option<Seq<char>>
    decreases params.len(),
{
    if params.len() == 0 {
        None
    } else if params.last().0 == k {
        Some(params.last().1)
    } else {
        last_value(params.drop_last(), k)
    }
}

/// Whether the keys strictly ascend in `String` order (so no key repeats).
pub open spec fn keys_ascending(s: Seq<(Seq<char>, Seq<char>)>) -> bool {
    forall|i: int, j: int|
        0 <= i < j < s.len() ==> lex_le((#[trigger] s[i]).0, (#[trigger] s[j]).0) && s[i].0
            != s[j].0
}

/// Whether `s` is the map that inserting `params` in turn builds, listed in
/// ascending key order: each key once, with the value of its last parameter.
pub open spec fn sorted_map_of(s: Seq<(Seq<char>, Seq<char>)>, params: Seq<(Seq<char>, Seq<char>)>) -> bool {
    &&& keys_ascending(s)
    &&& forall|i: int| 0 <= i < s.len() ==> last_value(params, (#[trigger] s[i]).0) == Some(s[i].1)
    &&& forall|k: Seq<char>|
        #[trigger] last_value(params, k) is Some ==> exists|i: int| 0 <= i < s.len() && (#[trigger] s[i]).0 == k
}

fn str_lex_lt(a: &str, b: &str) -> (res: bool)
    ensures
        res == (lex_le(a@, b@) && a@ != b@),
{
    str_lex_le(a, b) && !str_equals(a, b)
}

proof fn lemma_insert_keeps_ascending(s: Seq<(Seq<char>, Seq<char>)>, p: int, kv: (Seq<char>, Seq<char>))
    requires
        keys_ascending(s),
        0 <= p <= s.len(),
        forall|q: int| 0 <= q < p ==> lex_le((#[trigger] s[q]).0, kv.0) && s[q].0 != kv.0,
        p < s.len() ==> !(lex_le(s[p].0, kv.0) && s[p].0 != kv.0) && s[p].0 != kv.0,
    ensures
        keys_ascending(s.insert(p, kv)),
        forall|i: int| p < i < s.len() + 1 ==> (#[trigger] s.insert(p, kv)[i]).0 != kv.0,
{
    let t = s.insert(p, kv);
    if p < s.len() {
        lemma_lex_total(s[p].0, kv.0);
        assert(lex_le(kv.0, s[p].0));
    }
    assert forall|i: int, j: int| 0 <= i < j < t.len() implies lex_le((#[trigger] t[i]).0, (#[trigger] t[j]).0) && t[i].0 != t[j].0 by {
        if j < p {
            assert(t[i] == s[i] && t[j] == s[j]);
        } else if j == p {
            assert(t[i] == s[i]);
        } else if i < p {
            assert(t[i] == s[i] && t[j] == s[j - 1]);
            if j - 1 > p {
                assert(lex_le(s[p].0, s[j - 1].0));
                lemma_lex_transitive(kv.0, s[p].0, s[j - 1].0);
            }
            lemma_lex_transitive(s[i].0, kv.0, s[j - 1].0);
            if s[i].0 == s[j - 1].0 {
                lemma_lex_antisymmetric(s[i].0, kv.0);
            }
        } else if i == p {
            assert(t[i] == kv && t[j] == s[j - 1]);
            if j - 1 > p {
                assert(lex_le(s[p].0, s[j - 1].0));
                lemma_lex_transitive(kv.0, s[p].0, s[j - 1].0);
                if kv.0 == s[j - 1].0 {
                    lemma_lex_antisymmetric(kv.0, s[p].0);
                }
            }
        } else {
            assert(t[i] == s[i - 1] && t[j] == s[j - 1]);
        }
    }
    assert forall|i: int| p < i < s.len() + 1 implies (#[trigger] t[i]).0 != kv.0 by {
        assert(t[i] == s[i - 1]);
        if i - 1 > p {
            assert(lex_le(s[p].0, s[i - 1].0) && s[p].0 != s[i - 1].0);
            if kv.0 == s[i - 1].0 {
                lemma_lex_antisymmetric(s[p].0, kv.0);
            }
        }
    }
}

/// Insert the pair `(k, x)` into pairs whose keys ascend, replacing the pair
/// of `k` if there is one.
fn sorted_insert(v: &mut Vec<(String, String)>, k: String, x: String)
    requires
        keys_ascending(pair_views(old(v)@)),
    ensures
        keys_ascending(pair_views(final(v)@)),
        exists|i: int| 0 <= i < final(v)@.len() && #[trigger] pair_views(final(v)@)[i] == (k@, x@),
        forall|i: int|
            0 <= i < final(v)@.len() && (#[trigger] pair_views(final(v)@)[i]).0 != k@ ==> exists|j: int|
                0 <= j < old(v)@.len() && #[trigger] pair_views(old(v)@)[j] == pair_views(final(v)@)[i],
        forall|i: int| 0 <= i < final(v)@.len() && (#[trigger] pair_views(final(v)@)[i]).0 == k@ ==> pair_views(final(v)@)[i].1 == x@,
        forall|j: int|
            0 <= j < old(v)@.len() && (#[trigger] pair_views(old(v)@)[j]).0 != k@ ==> exists|i: int|
                0 <= i < final(v)@.len() && #[trigger] pair_views(final(v)@)[i] == pair_views(old(v)@)[j],
{
    let ghost s = pair_views(v@);
    let ghost kv = (k@, x@);
    let mut p: usize = 0;
    while p < v.len() && str_lex_lt(v[p].0.as_str(), k.as_str())
        invariant
            p <= v@.len(),
            s == pair_views(v@),
            v@ == old(v)@,
            forall|q: int| 0 <= q < p ==> lex_le((#[trigger] s[q]).0, k@) && s[q].0 != k@,
        decreases v@.len() - p,
    {
        p = p + 1;
    }
    if p < v.len() && str_equals(v[p].0.as_str(), k.as_str()) {
        v.set(p, (k, x));
        proof {
            let t = pair_views(v@);
            assert(t =~= s.update(p as int, kv));
            assert forall|i: int, j: int| 0 <= i < j < t.len() implies lex_le((#[trigger] t[i]).0, (#[trigger] t[j]).0) && t[i].0 != t[j].0 by {
                assert(lex_le(s[i].0, s[j].0) && s[i].0 != s[j].0);
            }
            assert(t[p as int] == kv);
            assert forall|j: int| 0 <= j < s.len() && (#[trigger] s[j]).0 != k@ implies exists|i: int|
                0 <= i < t.len() && #[trigger] t[i] == s[j] by {
                assert(j != p);
                assert(t[j] == s[j]);
            }
            assert forall|i: int| 0 <= i < t.len() && (#[trigger] t[i]).0 != k@ implies exists|j: int|
                0 <= j < s.len() && #[trigger] s[j] == t[i] by {
                assert(t[i] == s[i]);
            }
        }
    } else {
        v.insert(p, (k, x));
        proof {
            let t = pair_views(v@);
            assert(t =~= s.insert(p as int, kv));
            lemma_insert_keeps_ascending(s, p as int, kv);
            assert(t[p as int] == kv);
            assert forall|j: int| 0 <= j < s.len() && (#[trigger] s[j]).0 != k@ implies exists|i: int|
                0 <= i < t.len() && #[trigger] t[i] == s[j] by {
                if j < p {
                    assert(t[j] == s[j]);
                } else {
                    assert(t[j + 1] == s[j]);
                }
            }
            assert forall|i: int| 0 <= i < t.len() && (#[trigger] t[i]).0 != k@ implies exists|j: int|
                0 <= j < s.len() && #[trigger] s[j] == t[i] by {
                if i < p {
                    assert(t[i] == s[i]);
                } else {
                    assert(i != p);
                    assert(t[i] == s[i - 1]);
                }
            }
            assert forall|i: int| 0 <= i < t.len() && (#[trigger] t[i]).0 == k@ implies t[i].1 == x@ by {
                if i < p {
                    assert(t[i] == s[i]);
                }
            }
        }
    }
}

/// The pairs of `params` as a map: each key once, with the value of its last
/// pair, in ascending key order.
fn sorted_map(params: &Vec<(String, String)>) -> (res: Vec<(String, String)>)
    ensures
        sorted_map_of(pair_views(res@), pair_views(params@)),
{
    let mut out: Vec<(String, String)> = Vec::new();
    let ghost all = pair_views(params@);
    let mut j: usize = 0;
    while j < params.len()
        invariant
            j <= params@.len(),
            all == pair_views(params@),
            sorted_map_of(pair_views(out@), all.take(j as int)),
        decreases params@.len() - j,
    {
        let ghost old_out = pair_views(out@);
        let ghost t = all.take(j as int);
        let ghost t2 = all.take(j + 1);
        let ghost kv = all[j as int];
        proof {
            assert(t2.drop_last() =~= t);
            assert(t2.last() == kv);
        }
        sorted_insert(&mut out, params[j].0.clone(), params[j].1.clone());
        proof {
            let o = pair_views(out@);
            assert forall|i: int| 0 <= i < o.len() implies last_value(t2, (#[trigger] o[i]).0) == Some(o[i].1) by {
                if o[i].0 != kv.0 {
                    let jj = choose|jj: int| 0 <= jj < old_out.len() && #[trigger] old_out[jj] == o[i];
                    assert(last_value(t, old_out[jj].0) == Some(old_out[jj].1));
                }
            }
            assert forall|k: Seq<char>| #[trigger] last_value(t2, k) is Some implies exists|i: int|
                0 <= i < o.len() && (#[trigger] o[i]).0 == k by {
                if k == kv.0 {
                    let i = choose|i: int| 0 <= i < o.len() && #[trigger] o[i] == kv;
                    assert(o[i].0 == k);
                } else {
                    assert(last_value(t, k) is Some);
                    let jj = choose|jj: int| 0 <= jj < old_out.len() && (#[trigger] old_out[jj]).0 == k;
                    assert(old_out[jj].0 != kv.0);
                    let i = choose|i: int| 0 <= i < o.len() && #[trigger] o[i] == old_out[jj];
                    assert(o[i].0 == k);
                }
            }
        }
        j = j + 1;
    }
    proof {
        assert(all.take(params@.len() as int) =~= all);
    }
    out
}

/// Serialize a request (its fields in the order of the serialized object)
/// into non-empty query parameters: scalar fields under their names, the
/// scalar fields of a nested object (such as `page`) under dotted names
/// (`page.cursor`, `page.limit`), dropping defaults (`""`, `0`, `false`) and
/// anything that is neither a string, a number nor a boolean. The parameters
/// come as a map does: each key once, with the value of its last parameter,
/// in ascending key order.
pub fn query_of(fields: &Vec<(String, SerializedField)>) -> (res: Vec<(String, String)>)
    ensures
        sorted_map_of(pair_views(res@), query_params(fields@)),
{
    let mut out: Vec<(String, String)> = Vec::new();
    let mut i: usize = 0;
    proof {
        assert(pair_views(out@) =~= Seq::<(Seq<char>, Seq<char>)>::empty());
    }
    while i < fields.len()
        invariant
            i <= fields@.len(),
            pair_views(out@) == query_params(fields@.take(i as int)),
        decreases fields@.len() - i,
    {
        let ghost prev = fields@.take(i as int);
        let ghost cur = fields@.take(i + 1);
        proof {
            assert(cur.drop_last() =~= prev);
            assert(cur.last() == fields@[i as int]);
        }
        match &fields[i].1 {
            SerializedField::Object(nested) => {
                push_nested(&mut out, &fields[i].0, nested);
            },
            other => {
                push_scalar(&mut out, fields[i].0.clone(), other);
            },
        }
        i = i + 1;
    }
    proof {
        assert(fields@.take(fields@.len() as int) =~= fields@);
    }
    sorted_map(&out)
}


/// The text of a serialized field used in a path: strings and numbers as
/// they are, anything else (or an absent field) empty.
pub open spec fn path_field_text(f: Option<SerializedField>) -> Seq<char> {
    match f {
        Some(SerializedField::Text(t)) => t@,
        Some(SerializedField::Number(n)) => n@,
        _ => Seq::empty(),
    }
}

/// The text of one field of a serialized request, for building a path.
pub fn field_text(field: &Option<SerializedField>) -> (res: String)
    ensures
        res@ == path_field_text(*field),
{
    match field {
        Some(SerializedField::Text(t)) => t.clone(),
        Some(SerializedField::Number(n)) => n.clone(),
        _ => String::new(),
    }
}

/// Bytes that a query component carries as they are.
pub open spec fn is_unreserved(b: u8) -> bool {
    ||| (65 <= b && b <= 90)
    ||| (97 <= b && b <= 122)
    ||| (48 <= b && b <= 57)
    ||| b == 45
    ||| b == 95
    ||| b == 46
    ||| b == 126
}

/// The upper-case hexadecimal digit for `d < 16`.
pub open spec fn hex_digit(d: nat) -> char {
    if d < 10 {
        crate::text::digit_char(d)
    } else if d == 10 {
        'A'
    } else if d == 11 {
        'B'
    } else if d == 12 {
        'C'
    } else if d == 13 {
        'D'
    } else if d == 14 {
        'E'
    } else {
        'F'
    }
}

/// The percent-encoding of one byte.
pub open spec fn encode_byte(b: u8) -> Seq<char> {
    if is_unreserved(b) {
        seq![b as char]
    } else {
        seq!['%', hex_digit((b / 16) as nat), hex_digit((b % 16) as nat)]
    }
}

/// The percent-encoding of a byte sequence.
pub open spec fn percent_encoded(bytes: Seq<u8>) -> Seq<char>
    decreases bytes.len(),
{
    if bytes.len() == 0 {
        Seq::empty()
    } else {
        percent_encoded(bytes.drop_last()) + encode_byte(bytes.last())
    }
}

fn hex(d: u8) -> (c: char)
    requires
        d < 16,
    ensures
        c == hex_digit(d as nat),
{
    if d < 10 {
        crate::text::digit(d as u128)
    } else if d == 10 {
        'A'
    } else if d == 11 {
        'B'
    } else if d == 12 {
        'C'
    } else if d == 13 {
        'D'
    } else if d == 14 {
        'E'
    } else {
        'F'
    }
}

/// Whether a character separates the parts of a query string.
pub open spec fn is_query_delimiter(c: char) -> bool {
    c == '&' || c == '=' || c == '?' || c == '#'
}

proof fn lemma_percent_encoded_has_no_delimiter(bytes: Seq<u8>)
    ensures
        forall|i: int|
            0 <= i < percent_encoded(bytes).len() ==> !is_query_delimiter(
                #[trigger] percent_encoded(bytes)[i],
            ),
    decreases bytes.len(),
{
    if bytes.len() > 0 {
        lemma_percent_encoded_has_no_delimiter(bytes.drop_last());
        let a = percent_encoded(bytes.drop_last());
        let b = encode_byte(bytes.last());
        let x = bytes.last();
        assert forall|i: int| 0 <= i < (a + b).len() implies !is_query_delimiter(
            #[trigger] (a + b)[i],
        ) by {
            if i >= a.len() {
                assert((a + b)[i] == b[i - a.len()]);
            } else {
                assert((a + b)[i] == a[i]);
            }
        }
    }
}

/// Text made only of unreserved bytes is carried unchanged.
pub proof fn lemma_unreserved_bytes_unchanged(bytes: Seq<u8>)
    requires
        forall|i: int| 0 <= i < bytes.len() ==> is_unreserved(#[trigger] bytes[i]),
    ensures
        percent_encoded(bytes) == bytes.map_values(|b: u8| b as char),
    decreases bytes.len(),
{
    if bytes.len() > 0 {
        let q = bytes.drop_last();
        assert forall|i: int| 0 <= i < q.len() implies is_unreserved(#[trigger] q[i]) by {
            assert(q[i] == bytes[i]);
        }
        lemma_unreserved_bytes_unchanged(q);
        assert(is_unreserved(bytes[bytes.len() - 1]));
        assert(q.map_values(|b: u8| b as char) + seq![bytes.last() as char] =~= bytes.map_values(
            |b: u8| b as char,
        ));
    } else {
        assert(bytes.map_values(|b: u8| b as char) =~= Seq::<char>::empty());
    }
}

/// Percent-encode a query component: unreserved bytes (`A-Z a-z 0-9 - _ . ~`)
/// stay, every other byte of the UTF-8 text becomes `%XX`. The result never
/// holds `&`, `=`, `?` or `#`, is well-formed encoded text one or three
/// characters per byte, and decodes back to the text's bytes.
pub fn encode(text: &str) -> (res: String)
    ensures
        res@ == percent_encoded(text.spec_bytes()),
        forall|i: int| 0 <= i < res@.len() ==> !is_query_delimiter(#[trigger] res@[i]),
        well_formed_encoding(res@),
        percent_decoded(res@) == text.spec_bytes(),
        res@.len() == text.spec_bytes().len() + 2 * escaped_count(text.spec_bytes()),
{
    let bytes = text.as_bytes();
    let n = bytes.len();
    let mut out = String::new();
    let mut i: usize = 0;
    while i < n
        invariant
            n == bytes@.len(),
            bytes@ == text.spec_bytes(),
            i <= n,
            out@ == percent_encoded(bytes@.take(i as int)),
        decreases n - i,
    {
        let b = bytes[i];
        let ghost before = out@;
        if (65 <= b && b <= 90) || (97 <= b && b <= 122) || (48 <= b && b <= 57) || b == 45 || b
            == 95 || b == 46 || b == 126 {
            push_char(&mut out, b as char);
        } else {
            push_char(&mut out, '%');
            push_char(&mut out, hex(b / 16));
            push_char(&mut out, hex(b % 16));
        }
        proof {
            let cur = bytes@.take(i + 1);
            assert(cur.drop_last() =~= bytes@.take(i as int));
            assert(cur.last() == b);
            assert(out@ =~= before + encode_byte(b));
        }
        i = i + 1;
    }
    proof {
        assert(bytes@.take(n as int) =~= bytes@);
        lemma_percent_encoded_has_no_delimiter(bytes@);
        lemma_percent_encoded_well_formed(bytes@);
        lemma_percent_round_trip(bytes@);
        lemma_percent_encoded_len(bytes@);
    }
    out
}

/// The value of an upper-case hexadecimal digit character.
pub open spec fn hex_value(c: char) -> nat {
    if '0' <= c && c <= '9' {
        ((c as u32) - 48) as nat
    } else if 'A' <= c && c <= 'F' {
        ((c as u32) - 55) as nat
    } else {
        0
    }
}

/// Reading percent-encoded text back into bytes: `%XX` is the byte with hex
/// value `XX`, any other character the byte of its code.
pub open spec fn percent_decoded(cs: Seq<char>) -> Seq<u8>
    decreases cs.len(),
{
    if cs.len() == 0 {
        Seq::empty()
    } else if cs[0] == '%' && cs.len() >= 3 {
        seq![(hex_value(cs[1]) * 16 + hex_value(cs[2])) as u8] + percent_decoded(
            cs.subrange(3, cs.len() as int),
        )
    } else {
        seq![(cs[0] as u32) as u8] + percent_decoded(cs.subrange(1, cs.len() as int))
    }
}

proof fn lemma_hex_digit_value(d: nat)
    requires
        d < 16,
    ensures
        hex_value(hex_digit(d)) == d,
        is_upper_hex(hex_digit(d)),
{
}

proof fn lemma_decode_encoded_prefix(a: Seq<u8>, b: Seq<char>)
    ensures
        percent_decoded(percent_encoded(a) + b) == a + percent_decoded(b),
    decreases a.len(),
{
    if a.len() == 0 {
        assert(percent_encoded(a) + b =~= b);
        assert(a + percent_decoded(b) =~= percent_decoded(b));
    } else {
        let rest = a.drop_last();
        let x = a.last();
        let e = encode_byte(x);
        lemma_decode_encoded_prefix(rest, e + b);
        assert(percent_encoded(a) + b =~= percent_encoded(rest) + (e + b));
        let t = e + b;
        if is_unreserved(x) {
            assert(t[0] == x as char);
            assert(t.subrange(1, t.len() as int) =~= b);
            assert(((x as char) as u32) as u8 == x);
        } else {
            lemma_hex_digit_value((x / 16) as nat);
            lemma_hex_digit_value((x % 16) as nat);
            assert(t.subrange(3, t.len() as int) =~= b);
            assert((hex_value(t[1]) * 16 + hex_value(t[2])) as u8 == x);
        }
        assert(percent_decoded(t) =~= seq![x] + percent_decoded(b));
        assert(rest + (seq![x] + percent_decoded(b)) =~= a + percent_decoded(b));
    }
}

/// Percent-encoding is undone by decoding: the bytes come back unchanged.
pub proof fn lemma_percent_round_trip(bytes: Seq<u8>)
    ensures
        percent_decoded(percent_encoded(bytes)) == bytes,
{
    lemma_decode_encoded_prefix(bytes, Seq::empty());
    assert(percent_encoded(bytes) + Seq::<char>::empty() =~= percent_encoded(bytes));
    assert(bytes + percent_decoded(Seq::<char>::empty()) =~= bytes);
}

/// Encoding two byte strings joined gives their encodings joined.
pub proof fn lemma_percent_encoded_concat(a: Seq<u8>, b: Seq<u8>)
    ensures
        percent_encoded(a + b) == percent_encoded(a) + percent_encoded(b),
    decreases b.len(),
{
    if b.len() == 0 {
        assert(a + b =~= a);
        assert(percent_encoded(a) + percent_encoded(b) =~= percent_encoded(a));
    } else {
        lemma_percent_encoded_concat(a, b.drop_last());
        assert((a + b).drop_last() =~= a + b.drop_last());
        assert((a + b).last() == b.last());
        assert(percent_encoded(a) + percent_encoded(b) =~= percent_encoded(a) + percent_encoded(
            b.drop_last(),
        ) + encode_byte(b.last()));
    }
}

/// The number of bytes that percent-encoding escapes.
pub open spec fn escaped_count(bytes: Seq<u8>) -> nat
    decreases bytes.len(),
{
    if bytes.len() == 0 {
        0
    } else {
        escaped_count(bytes.drop_last()) + if is_unreserved(bytes.last()) {
            0nat
        } else {
            1nat
        }
    }
}

/// Each unreserved byte takes one character, each other byte three.
pub proof fn lemma_percent_encoded_len(bytes: Seq<u8>)
    ensures
        percent_encoded(bytes).len() == bytes.len() + 2 * escaped_count(bytes),
    decreases bytes.len(),
{
    if bytes.len() > 0 {
        lemma_percent_encoded_len(bytes.drop_last());
    }
}

/// An upper-case hexadecimal digit character.
pub open spec fn is_upper_hex(c: char) -> bool {
    ('0' <= c && c <= '9') || ('A' <= c && c <= 'F')
}

/// A character that encoded text may hold: `A-Z a-z 0-9 - _ . ~` or `%`.
pub open spec fn is_encoded_char(c: char) -> bool {
    ||| ('A' <= c && c <= 'Z')
    ||| ('a' <= c && c <= 'z')
    ||| ('0' <= c && c <= '9')
    ||| c == '-'
    ||| c == '_'
    ||| c == '.'
    ||| c == '~'
    ||| c == '%'
}

/// Whether `cs` is well-formed encoded text: only encoded characters, and
/// every `%` followed by two upper-case hexadecimal digits.
pub open spec fn well_formed_encoding(cs: Seq<char>) -> bool {
    &&& forall|i: int| 0 <= i < cs.len() ==> is_encoded_char(#[trigger] cs[i])
    &&& forall|i: int|
        0 <= i < cs.len() && #[trigger] cs[i] == '%' ==> i + 2 < cs.len() && is_upper_hex(cs[i + 1])
            && is_upper_hex(cs[i + 2])
}

/// Percent-encoded text is well formed: it holds only `A-Z a-z 0-9 - _ . ~`
/// and `%`, and each `%` is followed by two upper-case hexadecimal digits, so
/// it never holds `&`, `=`, `+` or a space.
pub proof fn lemma_percent_encoded_well_formed(bytes: Seq<u8>)
    ensures
        well_formed_encoding(percent_encoded(bytes)),
    decreases bytes.len(),
{
    if bytes.len() > 0 {
        lemma_percent_encoded_well_formed(bytes.drop_last());
        let a = percent_encoded(bytes.drop_last());
        let x = bytes.last();
        let e = encode_byte(x);
        if !is_unreserved(x) {
            lemma_hex_digit_value((x / 16) as nat);
            lemma_hex_digit_value((x % 16) as nat);
        } else {
            assert(is_encoded_char(x as char));
        }
        assert(well_formed_encoding(e));
        let t = a + e;
        assert forall|i: int| 0 <= i < t.len() implies is_encoded_char(#[trigger] t[i]) by {
            if i < a.len() {
                assert(t[i] == a[i]);
            } else {
                assert(t[i] == e[i - a.len()]);
            }
        }
        assert forall|i: int| 0 <= i < t.len() && #[trigger] t[i] == '%' implies i + 2 < t.len()
            && is_upper_hex(t[i + 1]) && is_upper_hex(t[i + 2]) by {
            if i < a.len() {
                assert(t[i] == a[i]);
                assert(t[i + 1] == a[i + 1]);
                assert(t[i + 2] == a[i + 2]);
            } else {
                let j = i - a.len();
                assert(t[i] == e[j]);
                assert(e[j] == '%');
                assert(t[i + 1] == e[j + 1]);
                assert(t[i + 2] == e[j + 2]);
            }
        }
    }
}

/// The percent-encoding of a text's UTF-8 bytes.
pub open spec fn encoded_text(s: Seq<char>) -> Seq<char> {
    percent_encoded(encode_utf8(s))
}

/// The query part of a dispatch URI: `?k=v` for the first parameter, `&k=v`
/// for each next one, keys and values percent-encoded.
pub open spec fn query_suffix(q: Seq<(String, String)>) -> Seq<char>
    decreases q.len(),
{
    if q.len() == 0 {
        Seq::empty()
    } else {
        let sep = if q.len() == 1 {
            '?'
        } else {
            '&'
        };
        query_suffix(q.drop_last()) + seq![sep] + encoded_text(q.last().0@) + seq!['=']
            + encoded_text(q.last().1@)
    }
}

/// The URI a gRPC call is dispatched to: the route path followed by its
/// query parameters.
pub fn dispatch_uri(path: &str, query: &Vec<(String, String)>) -> (res: String)
    ensures
        res@ == path@ + query_suffix(query@),
{
    let mut uri = owned(path);
    let mut i: usize = 0;
    while i < query.len()
        invariant
            i <= query@.len(),
            uri@ == path@ + query_suffix(query@.take(i as int)),
        decreases query@.len() - i,
    {
        let ghost before = uri@;
        if i == 0 {
            push_char(&mut uri, '?');
        } else {
            push_char(&mut uri, '&');
        }
        let k = encode(query[i].0.as_str());
        let v = encode(query[i].1.as_str());
        uri.append(k.as_str());
        push_char(&mut uri, '=');
        uri.append(v.as_str());
        proof {
            let cur = query@.take(i + 1);
            assert(cur.drop_last() =~= query@.take(i as int));
            assert(cur.last() == query@[i as int]);
            let sep = if i == 0 {
                '?'
            } else {
                '&'
            };
            assert(uri@ =~= before + seq![sep] + encoded_text(cur.last().0@) + seq!['=']
                + encoded_text(cur.last().1@));
        }
        i = i + 1;
    }
    proof {
        assert(query@.take(query@.len() as int) =~= query@);
    }
    uri
}

/// The `content-length` header value of a request body: its length in
/// decimal.
pub fn body_len(body: &[u8]) -> (res: String)
    ensures
        res@ == decimal(body@.len()),
{
    decimal_string(body.len() as u128)
}

} // verus!
