//! `/v1` auth domain: provider credential storage.
//!
//! API keys are stored per provider in the user auth directory as
//! `<provider_id>.yaml`. The functions here decide what is stored, under which
//! file name, and which provider ids a directory listing reports; reading and
//! writing the directory is left to the caller. Provider OAuth flows are not
//! wired and answer `unavailable`.
use vstd::prelude::*;
use crate::error::{Code, V1Error};
use crate::timestamp::{rfc3339_of, rfc3339_utc};
use crate::text::{
    chars_of, concat, lemma_lex_total, lemma_lex_transitive, lex_le, lex_sorted, owned,
    push_char, str_equals, str_lex_le, trim, trimmed,
};

verus! {

/// A character allowed in a provider id: ASCII alphanumeric, `-` or `_`.
pub open spec fn is_provider_id_char(c: char) -> bool {
    ||| ('a' <= c && c <= 'z')
    ||| ('A' <= c && c <= 'Z')
    ||| ('0' <= c && c <= '9')
    ||| c == '-'
    ||| c == '_'
}

/// Whether `s` holds `..` somewhere.
pub open spec fn has_double_dot(s: Seq<char>) -> bool {
    exists|i: int| 0 <= i && i + 1 < s.len() && #[trigger] s[i] == '.' && s[i + 1] == '.'
}

/// A provider id that may name a credential file: non-empty, made of
/// provider-id characters only, and without `..`.
pub open spec fn valid_provider_id(s: Seq<char>) -> bool {
    &&& forall|i: int| 0 <= i < s.len() ==> is_provider_id_char(#[trigger] s[i])
    &&& s.len() > 0
    &&& !has_double_dot(s)
}

/// Which provider ids are valid: exactly the non-empty ids made only of
/// ASCII letters of either case, ASCII digits, `-` and `_` (such an id has no
/// `.`, so no `..` either).
pub proof fn lemma_valid_provider_ids(s: Seq<char>)
    ensures
        valid_provider_id(s) <==> (s.len() > 0 && forall|i: int|
            0 <= i < s.len() ==> ('a' <= #[trigger] s[i] <= 'z' || 'A' <= s[i] <= 'Z' || '0'
                <= s[i] <= '9' || s[i] == '-' || s[i] == '_')),
{
    if s.len() > 0 && forall|i: int|
        0 <= i < s.len() ==> ('a' <= #[trigger] s[i] <= 'z' || 'A' <= s[i] <= 'Z' || '0' <= s[i]
            <= '9' || s[i] == '-' || s[i] == '_') {
        if has_double_dot(s) {
            let i = choose|i: int| 0 <= i && i + 1 < s.len() && #[trigger] s[i] == '.' && s[i + 1] == '.';
            assert(s[i] == '.');
        }
    }
}

fn provider_id_char(c: char) -> (res: bool)
    ensures
        res == is_provider_id_char(c),
{
    ('a' <= c && c <= 'z') || ('A' <= c && c <= 'Z') || ('0' <= c && c <= '9') || c == '-' || c
        == '_'
}

/// Reject provider ids that could escape the auth directory or are empty.
pub fn validate_provider_id(provider_id: &str) -> (res: Result<(), V1Error>)
    ensures
        res is Ok <==> valid_provider_id(provider_id@),
        res matches Err(e) ==> e.code == Code::InvalidArgument && e.message@
            == "invalid provider id"@,
{
    let v = chars_of(provider_id);
    let n = v.len();
    let mut all_allowed = true;
    let mut i: usize = 0;
    while i < n
        invariant
            n == v@.len(),
            v@ == provider_id@,
            i <= n,
            all_allowed <==> forall|k: int| 0 <= k < i ==> is_provider_id_char(#[trigger] v@[k]),
        decreases n - i,
    {
        if !provider_id_char(v[i]) {
            all_allowed = false;
        }
        i = i + 1;
    }
    let mut double_dot = false;
    let mut j: usize = 0;
    while j < n
        invariant
            n == v@.len(),
            j <= n,
            v@ == provider_id@,
            double_dot <==> exists|k: int|
                0 <= k && k < j && k + 1 < n && #[trigger] v@[k] == '.' && v@[k + 1] == '.',
        decreases n - j,
    {
        if j + 1 < n && v[j] == '.' && v[j + 1] == '.' {
            double_dot = true;
        }
        j = j + 1;
    }
    proof {
        if double_dot {
            let k = choose|k: int|
                0 <= k && k < j && k + 1 < n && #[trigger] v@[k] == '.' && v@[k + 1] == '.';
            assert(has_double_dot(provider_id@));
        }
        if has_double_dot(provider_id@) {
            let k = choose|k: int|
                0 <= k && k + 1 < provider_id@.len() && #[trigger] provider_id@[k] == '.'
                    && provider_id@[k + 1] == '.';
            assert(k < j);
        }
    }
    if all_allowed && n > 0 && !double_dot {
        Ok(())
    } else {
        Err(V1Error::invalid_argument("invalid provider id"))
    }
}

/// The YAML double-quoted form of one character.
pub open spec fn yaml_escape_char(c: char) -> Seq<char> {
    if c == '\\' {
        seq!['\\', '\\']
    } else if c == '"' {
        seq!['\\', '"']
    } else if c == '\n' {
        seq!['\\', 'n']
    } else {
        seq![c]
    }
}

/// `s` with backslash, double quote and newline escaped for a YAML
/// double-quoted scalar.
pub open spec fn yaml_escaped(s: Seq<char>) -> Seq<char>
    decreases s.len(),
{
    if s.len() == 0 {
        Seq::empty()
    } else {
        yaml_escaped(s.drop_last()) + yaml_escape_char(s.last())
    }
}

proof fn lemma_yaml_escaped_single_line(s: Seq<char>)
    ensures
        forall|i: int| 0 <= i < yaml_escaped(s).len() ==> #[trigger] yaml_escaped(s)[i] != '\n',
    decreases s.len(),
{
    if s.len() > 0 {
        lemma_yaml_escaped_single_line(s.drop_last());
        let a = yaml_escaped(s.drop_last());
        let b = yaml_escape_char(s.last());
        assert forall|i: int| 0 <= i < (a + b).len() implies #[trigger] (a + b)[i] != '\n' by {
            if i >= a.len() {
                assert((a + b)[i] == b[i - a.len()]);
            } else {
                assert((a + b)[i] == a[i]);
            }
        }
    }
}

/// The number of backslashes that immediately precede position `i` of `s`.
pub open spec fn backslash_run(s: Seq<char>, i: int) -> nat
    decreases i,
{
    if i <= 0 || i > s.len() || s[i - 1] != '\\' {
        0
    } else {
        1 + backslash_run(s, i - 1)
    }
}

/// Whether every double quote of `s` is escaped: preceded by an odd run of
/// backslashes, so it cannot end a double-quoted scalar early.
pub open spec fn quotes_escaped(s: Seq<char>) -> bool {
    forall|i: int| 0 <= i < s.len() && #[trigger] s[i] == '"' ==> backslash_run(s, i) % 2 == 1
}

proof fn lemma_backslash_run_prefix(a: Seq<char>, b: Seq<char>, i: int)
    requires
        0 <= i <= a.len(),
    ensures
        backslash_run(a + b, i) == backslash_run(a, i),
    decreases i,
{
    if i > 0 {
        assert((a + b)[i - 1] == a[i - 1]);
        lemma_backslash_run_prefix(a, b, i - 1);
    }
}

proof fn lemma_yaml_escaped_quotes(s: Seq<char>)
    ensures
        quotes_escaped(yaml_escaped(s)),
        backslash_run(yaml_escaped(s), yaml_escaped(s).len() as int) % 2 == 0,
    decreases s.len(),
{
    if s.len() > 0 {
        lemma_yaml_escaped_quotes(s.drop_last());
        let a = yaml_escaped(s.drop_last());
        let c = s.last();
        let e = yaml_escape_char(c);
        let t = a + e;
        let n = a.len() as int;
        assert forall|i: int| 0 <= i <= n implies backslash_run(t, i) == backslash_run(a, i) by {
            lemma_backslash_run_prefix(a, e, i);
        }
        if c == '\\' {
            assert(t[n] == '\\' && t[n + 1] == '\\');
            assert(backslash_run(t, n + 2) == backslash_run(t, n) + 2) by {
                assert(backslash_run(t, n + 1) == 1 + backslash_run(t, n));
            }
        } else if c == '"' {
            assert(t[n] == '\\' && t[n + 1] == '"');
            assert(backslash_run(t, n + 1) == 1 + backslash_run(t, n));
            assert(backslash_run(t, n + 2) == 0);
        } else if c == '\n' {
            assert(t[n + 1] == 'n');
            assert(backslash_run(t, n + 2) == 0);
        } else {
            assert(t[n] == c);
            assert(backslash_run(t, n + 1) == 0);
        }
        assert forall|i: int| 0 <= i < t.len() && #[trigger] t[i] == '"' implies backslash_run(t, i)
            % 2 == 1 by {
            if i < n {
                assert(t[i] == a[i]);
            }
        }
    }
}

/// Reading back a YAML double-quoted scalar body with the escapes that
/// `yaml_escape` emits: `\\` is a backslash, `\"` a double quote, `\n` a
/// newline.
pub open spec fn yaml_unescaped(s: Seq<char>) -> Seq<char>
    decreases s.len(),
{
    if s.len() == 0 {
        Seq::empty()
    } else if s[0] == '\\' && s.len() >= 2 {
        let c = if s[1] == 'n' {
            '\n'
        } else {
            s[1]
        };
        seq![c] + yaml_unescaped(s.subrange(2, s.len() as int))
    } else {
        seq![s[0]] + yaml_unescaped(s.subrange(1, s.len() as int))
    }
}

proof fn lemma_yaml_unescape_prefix(a: Seq<char>, b: Seq<char>)
    ensures
        yaml_unescaped(yaml_escaped(a) + b) == a + yaml_unescaped(b),
    decreases a.len(),
{
    if a.len() == 0 {
        assert(yaml_escaped(a) + b =~= b);
        assert(a + yaml_unescaped(b) =~= yaml_unescaped(b));
    } else {
        let rest = a.drop_last();
        let c = a.last();
        let e = yaml_escape_char(c);
        lemma_yaml_unescape_prefix(rest, e + b);
        assert(yaml_escaped(a) + b =~= yaml_escaped(rest) + (e + b));
        let t = e + b;
        if c == '\\' || c == '"' || c == '\n' {
            assert(t.subrange(2, t.len() as int) =~= b);
        } else {
            assert(t.subrange(1, t.len() as int) =~= b);
        }
        assert(yaml_unescaped(t) =~= seq![c] + yaml_unescaped(b));
        assert(rest + (seq![c] + yaml_unescaped(b)) =~= a + yaml_unescaped(b));
    }
}

/// The stored credential reads back as the token: unescaping what
/// `yaml_escape` produced gives back the original text.
pub proof fn lemma_yaml_escape_round_trip(s: Seq<char>)
    ensures
        yaml_unescaped(yaml_escaped(s)) == s,
{
    lemma_yaml_unescape_prefix(s, Seq::empty());
    assert(yaml_escaped(s) + Seq::<char>::empty() =~= yaml_escaped(s));
    assert(s + yaml_unescaped(Seq::<char>::empty()) =~= s);
}

/// Escape `s` for a YAML double-quoted scalar. The result never holds a
/// newline, so the stored credential stays on one line, and every double
/// quote in it is escaped, so it cannot end the scalar early.
pub fn yaml_escape(s: &str) -> (res: String)
    ensures
        res@ == yaml_escaped(s@),
        forall|i: int| 0 <= i < res@.len() ==> #[trigger] res@[i] != '\n',
        quotes_escaped(res@),
{
    let v = chars_of(s);
    let n = v.len();
    let mut out = String::new();
    let mut i: usize = 0;
    while i < n
        invariant
            n == v@.len(),
            v@ == s@,
            i <= n,
            out@ == yaml_escaped(v@.subrange(0, i as int)),
        decreases n - i,
    {
        let c = v[i];
        if c == '\\' {
            push_char(&mut out, '\\');
            push_char(&mut out, '\\');
        } else if c == '"' {
            push_char(&mut out, '\\');
            push_char(&mut out, '"');
        } else if c == '\n' {
            push_char(&mut out, '\\');
            push_char(&mut out, 'n');
        } else {
            push_char(&mut out, c);
        }
        proof {
            let t = v@.subrange(0, i + 1);
            assert(t.drop_last() =~= v@.subrange(0, i as int));
            assert(t.last() == c);
            assert(out@ =~= yaml_escaped(t));
        }
        i = i + 1;
    }
    proof {
        assert(v@.subrange(0, n as int) =~= s@);
        lemma_yaml_escaped_single_line(s@);
        lemma_yaml_escaped_quotes(s@);
    }
    out
}

/// The stored credential file for a token: `token: "<escaped trimmed token>"`
/// followed by a newline.
pub open spec fn token_file_text(token: Seq<char>) -> Seq<char> {
    "token: \""@ + yaml_escaped(trimmed(token)) + "\"\n"@
}

/// The body of the credential file that stores `token`.
pub fn token_file_body(token: &str) -> (res: String)
    ensures
        res@ == token_file_text(token@),
{
    let trimmed_token = trim(token);
    let escaped = yaml_escape(trimmed_token.as_str());
    let mut body = owned("token: \"");
    body.append(escaped.as_str());
    body.append("\"\n");
    body
}

/// The credential file name of a provider: `<provider_id>.yaml`.
pub open spec fn credential_file_name(provider_id: Seq<char>) -> Seq<char> {
    provider_id + ".yaml"@
}

/// The credential file name of a provider.
pub fn auth_file_name(provider_id: &str) -> (res: String)
    ensures
        res@ == credential_file_name(provider_id@),
{
    concat(provider_id, ".yaml")
}

/// OAuth tokens handed to the credential store.
#[derive(Debug)]
pub struct OauthCredential {
    /// Access token issued by the provider.
    pub access_token: String,
    /// Refresh token, empty when the provider issued none.
    pub refresh_token: String,
    /// Expiry as Unix epoch seconds; 0 when unknown.
    pub expires_at: i64,
}

/// The `expires_at` line of an OAuth credential file: the expiry as a quoted
/// RFC 3339 UTC timestamp, when it is known (not 0) and its year lies between
/// 0000 and 9999; no line otherwise.
pub open spec fn expiry_line(expires_at: i64) -> Seq<char> {
    if expires_at != 0 {
        match rfc3339_utc(expires_at as int) {
            Some(ts) => "expires_at: \""@ + ts + "\"\n"@,
            None => Seq::empty(),
        }
    } else {
        Seq::empty()
    }
}

/// The stored credential file for OAuth tokens: `type: oauth`, the trimmed
/// escaped access token, the trimmed escaped refresh token when there is one,
/// and the expiry line, one field per line.
pub open spec fn oauth_file_text(access: Seq<char>, refresh: Seq<char>, expires_at: i64) -> Seq<
    char,
> {
    "type: oauth\naccess_token: \""@ + yaml_escaped(trimmed(access)) + "\"\n"@ + (if trimmed(
        refresh,
    ).len() > 0 {
        "refresh_token: \""@ + yaml_escaped(trimmed(refresh)) + "\"\n"@
    } else {
        Seq::empty()
    }) + expiry_line(expires_at)
}

/// The body of the credential file that stores OAuth tokens.
pub fn oauth_file_body(oauth: &OauthCredential) -> (res: String)
    ensures
        res@ == oauth_file_text(oauth.access_token@, oauth.refresh_token@, oauth.expires_at),
{
    let access = trim(oauth.access_token.as_str());
    let mut body = owned("type: oauth\naccess_token: \"");
    body.append(yaml_escape(access.as_str()).as_str());
    body.append("\"\n");
    let ghost head = body@;
    let refresh = trim(oauth.refresh_token.as_str());
    if !refresh.as_str().is_empty() {
        body.append("refresh_token: \"");
        body.append(yaml_escape(refresh.as_str()).as_str());
        body.append("\"\n");
    }
    let ghost mid = body@;
    proof {
        if trimmed(oauth.refresh_token@).len() == 0 {
            assert(mid =~= head + Seq::<char>::empty());
        }
    }
    let expiry = if oauth.expires_at != 0 {
        rfc3339_of(oauth.expires_at)
    } else {
        None
    };
    match expiry {
        Some(ts) => {
            body.append("expires_at: \"");
            body.append(ts.as_str());
            body.append("\"\n");
        },
        None => {
            proof {
                assert(body@ =~= mid + Seq::<char>::empty());
            }
        },
    }
    body
}

/// The credential payload of a set-auth request.
#[derive(Debug)]
pub enum ProviderSecret {
    ApiKey(String),
    Oauth(OauthCredential),
}

/// The token that a credential payload carries.
pub open spec fn secret_token(secret: ProviderSecret) -> Seq<char> {
    match secret {
        ProviderSecret::ApiKey(key) => key@,
        ProviderSecret::Oauth(oauth) => oauth.access_token@,
    }
}

/// The token to store for a credential payload: the API key, or the OAuth
/// access token. A missing payload, or one that is only whitespace, is an
/// invalid argument.
pub fn credential_token(secret: &Option<ProviderSecret>) -> (res: Result<String, V1Error>)
    ensures
        match secret {
            None => res matches Err(e) && e.code == Code::InvalidArgument && e.message@
                == "missing credential payload"@,
            Some(s) => if trimmed(secret_token(*s)).len() == 0 {
                res matches Err(e) && e.code == Code::InvalidArgument && e.message@
                    == "credential payload is empty"@
            } else {
                res matches Ok(t) && t@ == secret_token(*s)
            },
        },
{
    let token = match secret {
        Some(ProviderSecret::ApiKey(key)) => key.clone(),
        Some(ProviderSecret::Oauth(oauth)) => oauth.access_token.clone(),
        None => {
            return Err(V1Error::invalid_argument("missing credential payload"));
        },
    };
    let trimmed_token = trim(token.as_str());
    if trimmed_token.as_str().is_empty() {
        return Err(V1Error::invalid_argument("credential payload is empty"));
    }
    Ok(token)
}

/// Index of the last `.` among the first `n` characters of `name`, or -1.
pub open spec fn last_dot_before(name: Seq<char>, n: int) -> int
    decreases n,
{
    if n <= 0 {
        -1
    } else if name[n - 1] == '.' {
        n - 1
    } else {
        last_dot_before(name, n - 1)
    }
}

/// The provider id that an auth directory entry named `name` stands for: the
/// file stem of a `.yaml` file (the name up to its last dot, when that dot is
/// not the first character), unless the stem starts with a dot.
pub open spec fn listed_provider_id(name: Seq<char>) -> Option<Seq<char>> {
    let d = last_dot_before(name, name.len() as int);
    if d > 0 && name.subrange(d + 1, name.len() as int) == "yaml"@ && name[0] != '.' {
        Some(name.subrange(0, d))
    } else {
        None
    }
}

/// The provider id of an auth directory entry, if it names one.
pub fn provider_id_of_entry(name: &str) -> (res: Option<String>)
    ensures
        match res {
            Some(id) => listed_provider_id(name@) == Some(id@),
            None => listed_provider_id(name@) is None,
        },
{
    let v = chars_of(name);
    let n = v.len();
    let mut j: usize = n;
    while j > 0 && v[j - 1] != '.'
        invariant
            j <= n,
            n == v@.len(),
            last_dot_before(v@, n as int) == last_dot_before(v@, j as int),
        decreases j,
    {
        j = j - 1;
    }
    if j <= 1 {
        return None;
    }
    let d = j - 1;
    let ext = crate::text::string_from_chars(&v, d + 1, n);
    if !str_equals(ext.as_str(), "yaml") || v[0] == '.' {
        return None;
    }
    Some(crate::text::string_from_chars(&v, 0, d))
}

/// The views of a sequence of strings.
pub open spec fn string_views(v: Seq<String>) -> Seq<Seq<char>> {
    v.map_values(|s: String| s@)
}

/// The provider ids that a listing of entry names stands for, in entry order.
pub open spec fn listed_ids(names: Seq<Seq<char>>) -> Seq<Seq<char>> {
    names.filter_map(|name: Seq<char>| listed_provider_id(name))
}

proof fn lemma_insert_to_multiset<A>(s: Seq<A>, p: int, x: A)
    requires
        0 <= p <= s.len(),
    ensures
        s.insert(p, x).to_multiset() =~= s.to_multiset().insert(x),
{
    broadcast use vstd::multiset::group_multiset_axioms;
    let t = s.insert(p, x);
    assert(t.remove(p) =~= s);
    t.to_multiset_ensures();
    assert(t[p] == x);
    assert(t.contains(x));
    assert(t.to_multiset().count(x) > 0);
}

/// Insert `x` into the sorted list `v`, keeping it sorted.
fn insert_sorted(v: &mut Vec<String>, x: String)
    requires
        lex_sorted(string_views(old(v)@)),
    ensures
        lex_sorted(string_views(final(v)@)),
        string_views(final(v)@).to_multiset() =~= string_views(old(v)@).to_multiset().insert(x@),
{
    let ghost s = string_views(v@);
    let mut p: usize = 0;
    while p < v.len() && str_lex_le(v[p].as_str(), x.as_str())
        invariant
            p <= v@.len(),
            s == string_views(v@),
            forall|k: int| 0 <= k < p ==> lex_le(#[trigger] s[k], x@),
        decreases v@.len() - p,
    {
        p = p + 1;
    }
    let ghost xv = x@;
    v.insert(p, x);
    proof {
        let t = string_views(v@);
        assert(t =~= s.insert(p as int, xv));
        lemma_insert_to_multiset(s, p as int, xv);
        if p < s.len() {
            lemma_lex_total(s[p as int], xv);
        }
        assert forall|i: int, j: int| 0 <= i < j < t.len() implies lex_le(
            #[trigger] t[i],
            #[trigger] t[j],
        ) by {
            if j < p {
                assert(lex_le(s[i], s[j]));
            } else if j == p {
                assert(lex_le(s[i], xv));
            } else if i < p {
                assert(lex_le(s[i], s[j - 1]));
            } else if i == p {
                if j - 1 > p {
                    assert(lex_le(s[p as int], s[j - 1]));
                    lemma_lex_transitive(xv, s[p as int], s[j - 1]);
                }
            } else {
                assert(lex_le(s[i - 1], s[j - 1]));
            }
        }
    }
}

/// The provider ids with a saved credential, sorted, from the names of the
/// entries of the auth directory. Entries that are not `<id>.yaml`, and
/// hidden stems, are skipped; nothing but file names is read.
pub fn list_provider_auth(entry_names: &Vec<String>) -> (res: Vec<String>)
    ensures
        lex_sorted(string_views(res@)),
        string_views(res@).to_multiset() =~= listed_ids(string_views(entry_names@)).to_multiset(),
{
    let ghost names = string_views(entry_names@);
    let mut out: Vec<String> = Vec::new();
    let mut i: usize = 0;
    proof {
        broadcast use vstd::multiset::group_multiset_axioms;
        let e = Seq::<Seq<char>>::empty();
        assert(names.take(0) =~= e);
        assert(string_views(out@) =~= e);
        assert(listed_ids(e) =~= e);
        e.to_multiset_ensures();
        assert(e.to_multiset() =~= vstd::multiset::Multiset::empty());
    }
    while i < entry_names.len()
        invariant
            i <= entry_names@.len(),
            names == string_views(entry_names@),
            lex_sorted(string_views(out@)),
            string_views(out@).to_multiset() =~= listed_ids(names.take(i as int)).to_multiset(),
        decreases entry_names@.len() - i,
    {
        let ghost before = string_views(out@);
        let found = provider_id_of_entry(entry_names[i].as_str());
        proof {
            let t = names.take(i + 1);
            assert(t.drop_last() =~= names.take(i as int));
            assert(t.last() == entry_names@[i as int]@);
        }
        match found {
            Some(id) => {
                insert_sorted(&mut out, id);
            },
            None => {},
        }
        proof {
            broadcast use vstd::multiset::group_multiset_axioms;
            let f = |name: Seq<char>| listed_provider_id(name);
            let t = names.take(i + 1);
            assert(listed_ids(t) == t.filter_map(f));
            match f(t.last()) {
                Some(x) => {
                    assert(t.filter_map(f) == t.drop_last().filter_map(f) + seq![x]);
                    assert((t.drop_last().filter_map(f) + seq![x]) =~= t.drop_last().filter_map(
                        f,
                    ).push(x));
                    vstd::seq_lib::to_multiset_build(t.drop_last().filter_map(f), x);
                },
                None => {},
            }
        }
        i = i + 1;
    }
    proof {
        assert(names.take(entry_names@.len() as int) =~= names);
    }
    out
}

proof fn lemma_last_dot_is_a_dot(name: Seq<char>, n: int)
    requires
        0 <= n <= name.len(),
    ensures
        -1 <= last_dot_before(name, n) < n,
        last_dot_before(name, n) >= 0 ==> name[last_dot_before(name, n)] == '.',
        forall|j: int| last_dot_before(name, n) < j < n ==> #[trigger] name[j] != '.',
    decreases n,
{
    if n > 0 && name[n - 1] != '.' {
        lemma_last_dot_is_a_dot(name, n - 1);
    }
}

/// Which directory entries a listing reports, and as which provider id: the
/// entry `<id>.yaml` is listed as `id` exactly when `id` is non-empty and does
/// not start with a dot; no other entry is listed.
pub proof fn lemma_listed_entries(name: Seq<char>, id: Seq<char>)
    ensures
        listed_provider_id(name) == Some(id) <==> (name == id + ".yaml"@ && id.len() > 0 && id[0]
            != '.'),
{
    reveal_strlit(".yaml");
    reveal_strlit("yaml");
    let n = name.len() as int;
    lemma_last_dot_is_a_dot(name, n);
    let d = last_dot_before(name, n);
    if listed_provider_id(name) == Some(id) {
        let tail = name.subrange(d + 1, n);
        assert(tail == "yaml"@);
        assert(n == d + 5);
        let t = name.subrange(0, d) + ".yaml"@;
        assert forall|j: int| 0 <= j < n implies name[j] == t[j] by {
            if j > d {
                assert(name[j] == tail[j - d - 1]);
                assert(t[j] == ".yaml"@[j - d]);
            }
        }
        assert(name =~= t);
    }
    if name == id + ".yaml"@ && id.len() > 0 && id[0] != '.' {
        let k = id.len() as int;
        assert(name[k] == '.');
        assert forall|j: int| k < j < n implies #[trigger] name[j] != '.' by {
            assert(name[j] == "yaml"@[j - k - 1]);
        }
        lemma_last_dot_is_a_dot(name, n);
        if d > k {
            assert(name[d] != '.');
        }
        assert(d == k);
        assert(name.subrange(k + 1, n) =~= "yaml"@);
        assert(name.subrange(0, k) =~= id);
        assert(name[0] == id[0]);
    }
}

/// What a write stores is what a listing reports: the credential file of a
/// valid provider id is listed under exactly that id.
pub proof fn lemma_stored_credential_is_listed(provider_id: Seq<char>)
    requires
        valid_provider_id(provider_id),
    ensures
        listed_provider_id(credential_file_name(provider_id)) == Some(provider_id),
{
    reveal_strlit(".yaml");
    reveal_strlit("yaml");
    let name = credential_file_name(provider_id);
    let n = provider_id.len() as int;
    assert(name.len() == n + 5);
    assert(name[n] == '.');
    assert(last_dot_before(name, n + 5) == n) by {
        reveal_with_fuel(last_dot_before, 6);
    }
    assert(name.subrange(n + 1, n + 5) =~= "yaml"@);
    assert(name.subrange(0, n) =~= provider_id);
    assert(name[0] == provider_id[0]);
    assert(is_provider_id_char(provider_id[0]));
}

/// Whether `e` has the given code and message.
pub open spec fn error_is(e: V1Error, code: Code, message: Seq<char>) -> bool {
    e.code == code && e.message@ == message
}

/// What storing a credential writes: the file name inside the auth directory,
/// the hidden temporary file (`.<file_name>.tmp`) the body is written to
/// before it is renamed into place, and the file's body.
#[derive(Debug)]
pub struct CredentialWrite {
    pub file_name: String,
    pub temp_file_name: String,
    pub body: String,
}

/// The temporary file a credential is written to before it is renamed to
/// its file name: `.<provider_id>.yaml.tmp`.
pub open spec fn credential_temp_name(provider_id: Seq<char>) -> Seq<char> {
    "."@ + credential_file_name(provider_id) + ".tmp"@
}

/// The body stored for a credential payload: the token file of an API key,
/// the OAuth file of OAuth tokens.
pub open spec fn secret_file_text(secret: ProviderSecret) -> Seq<char> {
    match secret {
        ProviderSecret::ApiKey(key) => token_file_text(key@),
        ProviderSecret::Oauth(o) => oauth_file_text(o.access_token@, o.refresh_token@, o.expires_at),
    }
}

/// Decide what a set-auth request stores: the provider id is validated first,
/// then the credential payload; the credential file is `<provider_id>.yaml`,
/// written through `.<provider_id>.yaml.tmp`, holding the trimmed, escaped API
/// key, or the OAuth access token with its refresh token and expiry.
pub fn set_provider_auth(provider_id: &str, secret: &Option<ProviderSecret>) -> (res: Result<
    CredentialWrite,
    V1Error,
>)
    ensures
        !valid_provider_id(provider_id@) ==> (res matches Err(e) && error_is(
            e,
            Code::InvalidArgument,
            "invalid provider id"@,
        )),
        valid_provider_id(provider_id@) ==> match secret {
            None => res matches Err(e) && error_is(
                e,
                Code::InvalidArgument,
                "missing credential payload"@,
            ),
            Some(s) => if trimmed(secret_token(*s)).len() == 0 {
                res matches Err(e) && error_is(
                    e,
                    Code::InvalidArgument,
                    "credential payload is empty"@,
                )
            } else {
                res matches Ok(w) && w.file_name@ == credential_file_name(provider_id@)
                    && w.temp_file_name@ == credential_temp_name(provider_id@) && w.body@
                    == secret_file_text(*s)
            },
        },
{
    validate_provider_id(provider_id)?;
    let token = credential_token(secret)?;
    let body = match secret {
        Some(ProviderSecret::Oauth(oauth)) => oauth_file_body(oauth),
        _ => token_file_body(token.as_str()),
    };
    let file_name = auth_file_name(provider_id);
    let mut temp_file_name = owned(".");
    temp_file_name.append(file_name.as_str());
    temp_file_name.append(".tmp");
    Ok(CredentialWrite { file_name, temp_file_name, body })
}

/// Decide which file a remove-auth request deletes: `<provider_id>.yaml`,
/// once the provider id is valid.
pub fn remove_provider_auth(provider_id: &str) -> (res: Result<String, V1Error>)
    ensures
        valid_provider_id(provider_id@) ==> (res matches Ok(f) && f@ == credential_file_name(
            provider_id@,
        )),
        !valid_provider_id(provider_id@) ==> (res matches Err(e) && error_is(
            e,
            Code::InvalidArgument,
            "invalid provider id"@,
        )),
{
    validate_provider_id(provider_id)?;
    Ok(auth_file_name(provider_id))
}

/// The answer to a request to start a provider OAuth flow, which is not wired.
pub fn start_oauth(provider_id: &str) -> (res: V1Error)
    ensures
        !valid_provider_id(provider_id@) ==> error_is(
            res,
            Code::InvalidArgument,
            "invalid provider id"@,
        ),
        valid_provider_id(provider_id@) ==> error_is(
            res,
            Code::Unavailable,
            "provider oauth start is not wired for "@ + provider_id@
                + "; use the launcher auth command"@,
        ),
{
    match validate_provider_id(provider_id) {
        Err(e) => e,
        Ok(()) => {
            let mut message = owned("provider oauth start is not wired for ");
            message.append(provider_id);
            message.append("; use the launcher auth command");
            V1Error { code: Code::Unavailable, message }
        },
    }
}

/// The answer to a provider OAuth callback, which is not wired.
pub fn complete_oauth(provider_id: &str) -> (res: V1Error)
    ensures
        !valid_provider_id(provider_id@) ==> error_is(
            res,
            Code::InvalidArgument,
            "invalid provider id"@,
        ),
        valid_provider_id(provider_id@) ==> error_is(
            res,
            Code::Unavailable,
            "provider oauth completion is not wired for "@ + provider_id@
                + "; use the launcher auth command"@,
        ),
{
    match validate_provider_id(provider_id) {
        Err(e) => e,
        Ok(()) => {
            let mut message = owned("provider oauth completion is not wired for ");
            message.append(provider_id);
            message.append("; use the launcher auth command");
            V1Error { code: Code::Unavailable, message }
        },
    }
}

} // verus!
