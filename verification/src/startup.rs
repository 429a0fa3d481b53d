//! Backend startup tracing and catalog refresh notices: when a startup mark
//! is emitted, the line it is emitted as, and the id of a `catalog.updated`
//! notice.
use vstd::prelude::*;
use crate::text::{
    chars_of, decimal, digit_char, json_escaped, owned, push_decimal, push_json_escaped,
};

verus! {

/// `c` lower-cased if it is an ASCII upper-case letter.
pub open spec fn ascii_lower(c: char) -> char {
    if 'A' <= c && c <= 'Z' {
        ((c as int) + 32) as char
    } else {
        c
    }
}

/// ASCII case-insensitive equality, as `str::eq_ignore_ascii_case`.
pub open spec fn eq_ignore_ascii_case(a: Seq<char>, b: Seq<char>) -> bool {
    a.len() == b.len() && forall|i: int| 0 <= i < a.len() ==> ascii_lower(#[trigger] a[i])
        == ascii_lower(b[i])
}

fn lower(c: char) -> (res: char)
    ensures
        res == ascii_lower(c),
{
    if 'A' <= c && c <= 'Z' {
        ((c as u8) + 32) as char
    } else {
        c
    }
}

/// Whether `a` and `b` are equal up to ASCII case.
pub fn str_eq_ignore_ascii_case(a: &str, b: &str) -> (res: bool)
    ensures
        res == eq_ignore_ascii_case(a@, b@),
{
    let x = chars_of(a);
    let y = chars_of(b);
    if x.len() != y.len() {
        return false;
    }
    let mut i: usize = 0;
    while i < x.len()
        invariant
            x@ == a@,
            y@ == b@,
            x@.len() == y@.len(),
            i <= x@.len(),
            forall|k: int| 0 <= k < i ==> ascii_lower(#[trigger] x@[k]) == ascii_lower(y@[k]),
        decreases x@.len() - i,
    {
        if lower(x[i]) != lower(y[i]) {
            proof {
                assert(ascii_lower(x@[i as int]) != ascii_lower(y@[i as int]));
            }
            return false;
        }
        i = i + 1;
    }
    true
}

/// Whether the `HYA_STARTUP_TRACE` value (read as text) turns startup marks
/// on: `1` or `true`, in any ASCII case.
pub open spec fn trace_enabled(value: Option<Seq<char>>) -> bool {
    match value {
        Some(v) => eq_ignore_ascii_case(v, "1"@) || eq_ignore_ascii_case(v, "true"@),
        None => false,
    }
}

/// Which `HYA_STARTUP_TRACE` values turn startup marks on: exactly `1` and
/// `true` in any ASCII case; an unset variable does not.
pub proof fn lemma_trace_values(v: Seq<char>)
    ensures
        !trace_enabled(None),
        trace_enabled(Some(v)) <==> (v == "1"@ || (v.len() == 4 && (v[0] == 't' || v[0] == 'T') && (
        v[1] == 'r' || v[1] == 'R') && (v[2] == 'u' || v[2] == 'U') && (v[3] == 'e' || v[3]
            == 'E'))),
{
    reveal_strlit("1");
    reveal_strlit("true");
    if v.len() == 1 && eq_ignore_ascii_case(v, "1"@) {
        assert(ascii_lower(v[0]) == ascii_lower("1"@[0]));
        assert(v =~= "1"@);
    }
    if v.len() == 4 {
        assert(ascii_lower(v[0]) == ascii_lower("true"@[0]) <==> (v[0] == 't' || v[0] == 'T'));
        assert(ascii_lower(v[1]) == ascii_lower("true"@[1]) <==> (v[1] == 'r' || v[1] == 'R'));
        assert(ascii_lower(v[2]) == ascii_lower("true"@[2]) <==> (v[2] == 'u' || v[2] == 'U'));
        assert(ascii_lower(v[3]) == ascii_lower("true"@[3]) <==> (v[3] == 'e' || v[3] == 'E'));
    }
}

/// Whether startup marks are emitted, from the `HYA_STARTUP_TRACE` value.
pub fn startup_trace_enabled(value: Option<&str>) -> (res: bool)
    ensures
        res == trace_enabled(crate::text::opt_str_view(value)),
{
    match value {
        Some(v) => str_eq_ignore_ascii_case(v, "1") || str_eq_ignore_ascii_case(v, "true"),
        None => false,
    }
}

/// The structured line of a startup mark: one JSON object whose strings
/// (the mark and the detail) are escaped as JSON strings.
pub open spec fn startup_mark_text(
    mark: Seq<char>,
    wall_ms: u128,
    detail: Option<Seq<char>>,
) -> Seq<char> {
    let head = "{\"hya_startup\":true,\"mark\":\""@ + json_escaped(mark) + "\",\"wall_ms\":"@
        + decimal(wall_ms as nat);
    match detail {
        Some(d) => head + ",\"detail\":\""@ + json_escaped(d) + "\"}"@,
        None => head + "}"@,
    }
}

proof fn lemma_decimal_digits(n: nat)
    ensures
        forall|i: int| 0 <= i < decimal(n).len() ==> '0' <= #[trigger] decimal(n)[i] <= '9',
    decreases n,
{
    if n >= 10 {
        lemma_decimal_digits(n / 10);
        let a = decimal(n / 10);
        assert forall|i: int| 0 <= i < a.push(digit_char(n % 10)).len() implies '0'
            <= #[trigger] a.push(digit_char(n % 10))[i] <= '9' by {
            if i < a.len() {
                assert(a.push(digit_char(n % 10))[i] == a[i]);
            }
        }
    }
}

proof fn lemma_no_control_concat(a: Seq<char>, b: Seq<char>)
    requires
        forall|i: int| 0 <= i < a.len() ==> (#[trigger] a[i] as u32) >= 32,
        forall|i: int| 0 <= i < b.len() ==> (#[trigger] b[i] as u32) >= 32,
    ensures
        forall|i: int| 0 <= i < (a + b).len() ==> (#[trigger] (a + b)[i] as u32) >= 32,
{
    assert forall|i: int| 0 <= i < (a + b).len() implies (#[trigger] (a + b)[i] as u32) >= 32 by {
        if i < a.len() {
            assert((a + b)[i] == a[i]);
        } else {
            assert((a + b)[i] == b[i - a.len()]);
        }
    }
}

/// The line emitted for startup mark `mark` at `wall_ms` milliseconds since
/// the Unix epoch, with an optional detail. The line holds no control
/// character (no newline in particular), so it is one JSON line whatever the
/// mark and the detail hold.
pub fn startup_mark_line(mark: &str, wall_ms: u128, detail: Option<&str>) -> (res: String)
    ensures
        res@ == startup_mark_text(mark@, wall_ms, crate::text::opt_str_view(detail)),
        forall|i: int| 0 <= i < res@.len() ==> (#[trigger] res@[i] as u32) >= 32,
{
    let mut line = owned("{\"hya_startup\":true,\"mark\":\"");
    push_json_escaped(&mut line, mark);
    line.append("\",\"wall_ms\":");
    push_decimal(&mut line, wall_ms);
    proof {
        reveal_strlit("{\"hya_startup\":true,\"mark\":\"");
        reveal_strlit("\",\"wall_ms\":");
        reveal_strlit(",\"detail\":\"");
        reveal_strlit("\"}");
        reveal_strlit("}");
        lemma_decimal_digits(wall_ms as nat);
        let d = decimal(wall_ms as nat);
        assert forall|i: int| 0 <= i < d.len() implies (#[trigger] d[i] as u32) >= 32 by {}
        let l1 = "{\"hya_startup\":true,\"mark\":\""@;
        let l2 = "\",\"wall_ms\":"@;
        assert forall|i: int| 0 <= i < l1.len() implies (#[trigger] l1[i] as u32) >= 32 by {}
        assert forall|i: int| 0 <= i < l2.len() implies (#[trigger] l2[i] as u32) >= 32 by {}
        lemma_no_control_concat(l1, json_escaped(mark@));
        lemma_no_control_concat(l1 + json_escaped(mark@), l2);
        lemma_no_control_concat(l1 + json_escaped(mark@) + l2, d);
    }
    match detail {
        Some(dt) => {
            line.append(",\"detail\":\"");
            push_json_escaped(&mut line, dt);
            line.append("\"}");
            proof {
                let head = "{\"hya_startup\":true,\"mark\":\""@ + json_escaped(mark@)
                    + "\",\"wall_ms\":"@ + decimal(wall_ms as nat);
                let l3 = ",\"detail\":\""@;
                let l4 = "\"}"@;
                assert forall|i: int| 0 <= i < l3.len() implies (#[trigger] l3[i] as u32) >= 32 by {}
                assert forall|i: int| 0 <= i < l4.len() implies (#[trigger] l4[i] as u32) >= 32 by {}
                lemma_no_control_concat(head, l3);
                lemma_no_control_concat(head + l3, json_escaped(dt@));
                lemma_no_control_concat(head + l3 + json_escaped(dt@), l4);
            }
        },
        None => {
            line.append("}");
            proof {
                let head = "{\"hya_startup\":true,\"mark\":\""@ + json_escaped(mark@)
                    + "\",\"wall_ms\":"@ + decimal(wall_ms as nat);
                let l5 = "}"@;
                assert forall|i: int| 0 <= i < l5.len() implies (#[trigger] l5[i] as u32) >= 32 by {}
                lemma_no_control_concat(head, l5);
            }
        },
    }
    line
}

/// The id of a `catalog.updated` notice published at `millis` since the Unix
/// epoch: `catalog-<millis>`.
pub fn catalog_event_id(millis: u128) -> (res: String)
    ensures
        res@ == "catalog-"@ + decimal(millis as nat),
{
    let mut id = owned("catalog-");
    push_decimal(&mut id, millis);
    id
}

} // verus!
