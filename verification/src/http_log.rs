//! What the request log records: which requests are skipped, which bodies are
//! kept, and which fields and headers are hidden.
use vstd::prelude::*;
use vstd::string::*;

use crate::text::{concat, concat3, starts_with, str_eq};

verus! {

/// Health checks are not logged.
pub fn should_ignore_path(path: &str) -> (b: bool)
    ensures
        b == (path@ == "/health"@ || path@ == "/health/"@),
{
    str_eq(path, "/health") || str_eq(path, "/health/")
}

/// A request whose content type starts with `multipart/form-data` is a file upload;
/// its body is not logged.
pub fn is_file_upload(content_type: Option<&str>) -> (b: bool)
    ensures
        b == match content_type {
            Some(ct) => "multipart/form-data"@.is_prefix_of(ct@),
            None => false,
        },
{
    match content_type {
        Some(ct) => starts_with(ct, "multipart/form-data"),
        None => false,
    }
}

/// Response bodies are logged for the methods that send data: POST, PUT, PATCH.
pub fn should_log_body(method: &str) -> (b: bool)
    ensures
        b == (method@ == "POST"@ || method@ == "PUT"@ || method@ == "PATCH"@),
{
    str_eq(method, "POST") || str_eq(method, "PUT") || str_eq(method, "PATCH")
}

/// Preflight requests are passed on without a log line.
pub fn should_log_request(method: &str) -> (b: bool)
    ensures
        b == (method@ != "OPTIONS"@),
{
    !str_eq(method, "OPTIONS")
}

/// The refusal when a body cannot be read.
pub fn body_read_refusal(direction: &str, err: &str) -> (e: (u16, String))
    ensures
        e.0 == 400,
        e.1@ == "failed to read "@ + direction@ + " body: "@ + err@,
{
    let head = concat3("failed to read ", direction, " body: ");
    (400, concat(head.as_str(), err))
}

/// What a hidden value is replaced with.
pub open spec fn redacted_text() -> Seq<char> {
    "[REDACTED]"@
}

/// The replacement of a hidden value.
pub fn redacted() -> (s: String)
    ensures
        s@ == redacted_text(),
{
    String::from_str("[REDACTED]")
}

/// JSON body fields whose values are hidden, in the order they are looked up.
pub open spec fn sensitive_fields() -> Seq<Seq<char>> {
    seq![
        "password"@, "token"@, "jwt"@, "access_token"@, "refresh_token"@, "authorization"@,
        "auth"@, "secret"@, "key"@, "api_key"@, "apikey"@, "private_key"@, "privatekey"@,
        "credential"@, "credentials"@,
    ]
}

/// Header names whose values are hidden, in the order they are looked up.
pub open spec fn sensitive_headers() -> Seq<Seq<char>> {
    seq![
        "authorization"@, "cookie"@, "x-api-key"@, "x-auth-token"@, "bearer"@, "jwt"@,
        "access-token"@, "refresh-token"@,
    ]
}

/// The candidates, in order, that occur among the keys.
pub open spec fn present_of(candidates: Seq<Seq<char>>, keys: Seq<Seq<char>>) -> Seq<Seq<char>>
    decreases candidates.len(),
{
    if candidates.len() == 0 {
        Seq::empty()
    } else {
        let rest = present_of(candidates.drop_last(), keys);
        if keys.contains(candidates.last()) {
            rest.push(candidates.last())
        } else {
            rest
        }
    }
}

fn contains_key(keys: &Vec<String>, k: &str) -> (b: bool)
    ensures
        b == keys@.map_values(|s: String| s@).contains(k@),
{
    let ghost ks = keys@.map_values(|s: String| s@);
    let mut i: usize = 0;
    while i < keys.len()
        invariant
            i <= keys@.len(),
            ks == keys@.map_values(|s: String| s@),
            forall|j: int| 0 <= j < i ==> ks[j] != k@,
        decreases keys@.len() - i,
    {
        if str_eq(keys[i].as_str(), k) {
            assert(ks[i as int] == k@);
            return true;
        }
        i = i + 1;
    }
    false
}

fn present_among(candidates: &Vec<&str>, keys: &Vec<String>) -> (out: Vec<String>)
    ensures
        out@.map_values(|s: String| s@) == present_of(
            candidates@.map_values(|s: &str| s@),
            keys@.map_values(|s: String| s@),
        ),
{
    let ghost cs = candidates@.map_values(|s: &str| s@);
    let ghost ks = keys@.map_values(|s: String| s@);
    let mut out: Vec<String> = Vec::new();
    let mut i: usize = 0;
    proof {
        assert(cs.take(0) =~= Seq::<Seq<char>>::empty());
        assert(out@.map_values(|s: String| s@) =~= Seq::<Seq<char>>::empty());
    }
    while i < candidates.len()
        invariant
            i <= candidates@.len(),
            cs == candidates@.map_values(|s: &str| s@),
            ks == keys@.map_values(|s: String| s@),
            out@.map_values(|s: String| s@) == present_of(cs.take(i as int), ks),
        decreases candidates@.len() - i,
    {
        let c = candidates[i];
        let ghost before = out@.map_values(|s: String| s@);
        proof {
            let t = cs.take(i + 1);
            assert(t.drop_last() =~= cs.take(i as int));
            assert(t.last() == c@);
        }
        if contains_key(keys, c) {
            out.push(String::from_str(c));
            proof {
                assert(out@.map_values(|s: String| s@) =~= before.push(c@));
            }
        }
        i = i + 1;
    }
    proof {
        assert(cs.take(candidates@.len() as int) =~= cs);
    }
    out
}

/// The JSON body fields among `keys` whose values the log hides.
pub fn fields_to_redact(keys: &Vec<String>) -> (out: Vec<String>)
    ensures
        out@.map_values(|s: String| s@) == present_of(
            sensitive_fields(),
            keys@.map_values(|s: String| s@),
        ),
{
    let names: Vec<&str> = vec![
        "password", "token", "jwt", "access_token", "refresh_token", "authorization", "auth",
        "secret", "key", "api_key", "apikey", "private_key", "privatekey", "credential",
        "credentials",
    ];
    proof {
        assert(names@.map_values(|s: &str| s@) =~= sensitive_fields());
    }
    present_among(&names, keys)
}

/// The headers among `names` (lower-case, as a header map holds them) whose values
/// the log hides.
pub fn headers_to_redact(names: &Vec<String>) -> (out: Vec<String>)
    ensures
        out@.map_values(|s: String| s@) == present_of(
            sensitive_headers(),
            names@.map_values(|s: String| s@),
        ),
{
    let hidden: Vec<&str> = vec![
        "authorization", "cookie", "x-api-key", "x-auth-token", "bearer", "jwt", "access-token",
        "refresh-token",
    ];
    proof {
        assert(hidden@.map_values(|s: &str| s@) =~= sensitive_headers());
    }
    present_among(&hidden, names)
}

/// What is hidden is exactly what is both sensitive and present.
pub proof fn lemma_redaction_exact(candidates: Seq<Seq<char>>, keys: Seq<Seq<char>>, k: Seq<char>)
    ensures
        present_of(candidates, keys).contains(k) <==> (candidates.contains(k) && keys.contains(k)),
    decreases candidates.len(),
{
    if candidates.len() > 0 {
        let init = candidates.drop_last();
        let last = candidates.last();
        lemma_redaction_exact(init, keys, k);
        let rest = present_of(init, keys);
        if candidates.contains(k) && !init.contains(k) {
            let i = choose|i: int| 0 <= i < candidates.len() && candidates[i] == k;
            if i < init.len() {
                assert(init[i] == k);
            }
            assert(last == k);
        }
        if init.contains(k) {
            let i = choose|i: int| 0 <= i < init.len() && init[i] == k;
            assert(candidates[i] == k);
        }
        if keys.contains(last) {
            let r2 = rest.push(last);
            if rest.contains(k) {
                let i = choose|i: int| 0 <= i < rest.len() && rest[i] == k;
                assert(r2[i] == k);
            }
            if r2.contains(k) && !rest.contains(k) {
                let i = choose|i: int| 0 <= i < r2.len() && r2[i] == k;
                if i < rest.len() {
                    assert(rest[i] == k);
                }
            }
            if last == k {
                assert(r2[rest.len() as int] == k);
            }
        }
        if last == k {
            assert(candidates[candidates.len() - 1] == k);
        }
    }
}

// ---------------------------------------------------------------------------
// Whole bodies and header maps
// ---------------------------------------------------------------------------

/// A JSON object body as logged: each member kept, except the sensitive ones, whose
/// value is replaced by `hidden`.
pub open spec fn redacted_object<V>(entries: Seq<(Seq<char>, V)>, hidden: V) -> Seq<(Seq<char>, V)> {
    entries.map_values(
        |e: (Seq<char>, V)|
            if sensitive_fields().contains(e.0) {
                (e.0, hidden)
            } else {
                e
            },
    )
}

/// The members of an object in the order held, keys by their text.
pub open spec fn entries_view<V>(entries: Seq<(String, V)>) -> Seq<(Seq<char>, V)> {
    entries.map_values(|e: (String, V)| (e.0@, e.1))
}

/// Reading a hidden marker (`None`) as the value `hidden`.
pub open spec fn with_hidden<V>(entries: Seq<(String, Option<V>)>, hidden: V) -> Seq<(Seq<char>, V)> {
    entries.map_values(
        |e: (String, Option<V>)|
            (
                e.0@,
                match e.1 {
                    Some(v) => v,
                    None => hidden,
                },
            ),
    )
}

fn is_sensitive_field(k: &str) -> (b: bool)
    ensures
        b == sensitive_fields().contains(k@),
{
    let names: Vec<&str> = vec![
        "password", "token", "jwt", "access_token", "refresh_token", "authorization", "auth",
        "secret", "key", "api_key", "apikey", "private_key", "privatekey", "credential",
        "credentials",
    ];
    proof {
        assert(names@.map_values(|s: &str| s@) =~= sensitive_fields());
    }
    let mut i: usize = 0;
    while i < names.len()
        invariant
            i <= names@.len(),
            names@.map_values(|s: &str| s@) == sensitive_fields(),
            forall|j: int| 0 <= j < i ==> sensitive_fields()[j] != k@,
        decreases names@.len() - i,
    {
        if str_eq(names[i], k) {
            assert(sensitive_fields()[i as int] == k@);
            return true;
        }
        i = i + 1;
    }
    false
}

/// Marks the sensitive members of an object body to be hidden (`None`); the others
/// keep their values, in the same order.
pub fn redact_object<V>(entries: Vec<(String, V)>) -> (out: Vec<(String, Option<V>)>)
    ensures
        forall|hidden: V|
            #![trigger with_hidden(out@, hidden)]
            with_hidden(out@, hidden) == redacted_object(entries_view(entries@), hidden),
{
    let ghost input = entries@;
    let mut out: Vec<(String, Option<V>)> = Vec::new();
    let mut rest = entries;
    let n = rest.len();
    proof {
        assert(rest@ =~= input.skip(0));
    }
    while rest.len() > 0
        invariant
            n == input.len(),
            out@.len() <= n,
            rest@ =~= input.skip(out@.len() as int),
            forall|j: int|
                0 <= j < out@.len() ==> {
                    &&& (#[trigger] out@[j]).0@ == input[j].0@
                    &&& out@[j].1 == (if sensitive_fields().contains(input[j].0@) {
                        None::<V>
                    } else {
                        Some(input[j].1)
                    })
                },
        decreases rest.len(),
    {
        let ghost k = out@.len() as int;
        let (key, value) = rest.remove(0);
        proof {
            assert(input.skip(k)[0] == input[k]);
            assert(rest@ =~= input.skip(k + 1));
        }
        if is_sensitive_field(key.as_str()) {
            out.push((key, None));
        } else {
            out.push((key, Some(value)));
        }
    }
    proof {
        assert forall|hidden: V| #![trigger with_hidden(out@, hidden)]
            with_hidden(out@, hidden) == redacted_object(entries_view(input), hidden) by {
            assert(with_hidden(out@, hidden) =~= redacted_object(entries_view(input), hidden));
        }
    }
    out
}

/// Hiding the sensitive members of a body keeps its keys and order, leaves the other
/// members as they were, and changes nothing when done a second time.
pub proof fn lemma_object_redaction<V>(entries: Seq<(Seq<char>, V)>, hidden: V)
    ensures
        redacted_object(entries, hidden).len() == entries.len(),
        forall|i: int|
            0 <= i < entries.len() ==> {
                &&& (#[trigger] redacted_object(entries, hidden)[i]).0 == entries[i].0
                &&& redacted_object(entries, hidden)[i].1 == (if sensitive_fields().contains(
                    entries[i].0,
                ) {
                    hidden
                } else {
                    entries[i].1
                })
            },
        redacted_object(redacted_object(entries, hidden), hidden) == redacted_object(entries, hidden),
{
    assert(redacted_object(redacted_object(entries, hidden), hidden) =~= redacted_object(
        entries,
        hidden,
    ));
}

/// A JSON body to be logged: an object, by its members in order, or any other value
/// (array, string, number, boolean or null).
pub enum JsonBody<V> {
    Object(Vec<(String, V)>),
    Other(V),
}

/// A body after redaction: an object whose hidden members carry `None`, or any other
/// value as it came.
pub enum RedactedBody<V> {
    Object(Vec<(String, Option<V>)>),
    Other(V),
}

/// A JSON value as the redaction law speaks of it: an object's members with their
/// keys as text, or any other value.
pub enum JsonShape<V> {
    Object(Seq<(Seq<char>, V)>),
    Other(V),
}

/// The shape of a body.
pub open spec fn body_view<V>(body: JsonBody<V>) -> JsonShape<V> {
    match body {
        JsonBody::Object(entries) => JsonShape::Object(entries_view(entries@)),
        JsonBody::Other(v) => JsonShape::Other(v),
    }
}

/// The shape of a redacted body once each hidden marker is written as `hidden`.
pub open spec fn logged_view<V>(body: RedactedBody<V>, hidden: V) -> JsonShape<V> {
    match body {
        RedactedBody::Object(entries) => JsonShape::Object(with_hidden(entries@, hidden)),
        RedactedBody::Other(v) => JsonShape::Other(v),
    }
}

/// A JSON value as logged: an object has its sensitive members replaced by `hidden`;
/// any other value is logged as it is.
pub open spec fn redacted_shape<V>(value: JsonShape<V>, hidden: V) -> JsonShape<V> {
    match value {
        JsonShape::Object(entries) => JsonShape::Object(redacted_object(entries, hidden)),
        JsonShape::Other(v) => JsonShape::Other(v),
    }
}

/// Redacts a JSON body: the members of an object as `redact_object` does, any other
/// value handed back as it came.
pub fn redact_body<V>(body: JsonBody<V>) -> (out: RedactedBody<V>)
    ensures
        forall|hidden: V|
            #![trigger logged_view(out, hidden)]
            logged_view(out, hidden) == redacted_shape(body_view(body), hidden),
{
    match body {
        JsonBody::Object(entries) => {
            let ghost input = entries@;
            let out = redact_object(entries);
            proof {
                assert forall|hidden: V| #![trigger with_hidden(out@, hidden)]
                    with_hidden(out@, hidden) == redacted_object(entries_view(input), hidden) by {}
            }
            RedactedBody::Object(out)
        },
        JsonBody::Other(v) => RedactedBody::Other(v),
    }
}

/// Redacting a JSON value leaves anything but an object as it is; an object keeps its
/// keys and their order, its sensitive members become `hidden` and the others keep
/// their values; and redacting a second time changes nothing.
pub proof fn lemma_body_redaction<V>(value: JsonShape<V>, hidden: V)
    ensures
        value is Other ==> redacted_shape(value, hidden) == value,
        value matches JsonShape::Object(entries) ==> {
            &&& redacted_shape(value, hidden) matches JsonShape::Object(out)
            &&& out.len() == entries.len()
            &&& forall|i: int|
                0 <= i < entries.len() ==> {
                    &&& (#[trigger] out[i]).0 == entries[i].0
                    &&& out[i].1 == (if sensitive_fields().contains(entries[i].0) {
                        hidden
                    } else {
                        entries[i].1
                    })
                }
        },
        redacted_shape(redacted_shape(value, hidden), hidden) == redacted_shape(value, hidden),
{
    if let JsonShape::Object(entries) = value {
        lemma_object_redaction(entries, hidden);
    }
}

/// The headers whose names are not sensitive, with their values, in order.
pub open spec fn kept_headers<V>(entries: Seq<(Seq<char>, V)>) -> Seq<(Seq<char>, Option<V>)>
    decreases entries.len(),
{
    if entries.len() == 0 {
        Seq::empty()
    } else {
        let rest = kept_headers(entries.drop_last());
        let e = entries.last();
        if sensitive_headers().contains(e.0) {
            rest
        } else {
            rest.push((e.0, Some(e.1)))
        }
    }
}

/// The header names of a list of headers.
pub open spec fn header_names<V>(entries: Seq<(Seq<char>, V)>) -> Seq<Seq<char>> {
    entries.map_values(|e: (Seq<char>, V)| e.0)
}

/// A header map as logged: the headers that are not sensitive as they were, then one
/// hidden value (`None`) for each sensitive header present.
pub open spec fn redacted_headers<V>(entries: Seq<(Seq<char>, V)>) -> Seq<(Seq<char>, Option<V>)> {
    kept_headers(entries) + present_of(sensitive_headers(), header_names(entries)).map_values(
        |n: Seq<char>| (n, None::<V>),
    )
}

/// Redacts a header map given as its (lower-case) names and values.
pub fn redact_headers<V>(entries: Vec<(String, V)>) -> (out: Vec<(String, Option<V>)>)
    ensures
        out@.map_values(|e: (String, Option<V>)| (e.0@, e.1)) == redacted_headers(entries_view(entries@)),
{
    let ghost input = entries_view(entries@);
    let mut out: Vec<(String, Option<V>)> = Vec::new();
    let mut names: Vec<String> = Vec::new();
    let mut rest = entries;
    let n = rest.len();
    let hidden: Vec<&str> = vec![
        "authorization", "cookie", "x-api-key", "x-auth-token", "bearer", "jwt", "access-token",
        "refresh-token",
    ];
    proof {
        assert(hidden@.map_values(|s: &str| s@) =~= sensitive_headers());
        assert(input.take(0) =~= Seq::<(Seq<char>, V)>::empty());
        assert(out@.map_values(|e: (String, Option<V>)| (e.0@, e.1)) =~= kept_headers(input.take(0)));
    }
    while rest.len() > 0
        invariant
            n == input.len(),
            hidden@.map_values(|s: &str| s@) == sensitive_headers(),
            names@.len() <= n,
            entries_view(rest@) =~= input.skip(names@.len() as int),
            names@.map_values(|s: String| s@) =~= header_names(input.take(names@.len() as int)),
            out@.map_values(|e: (String, Option<V>)| (e.0@, e.1)) == kept_headers(
                input.take(names@.len() as int),
            ),
        decreases rest.len(),
    {
        let ghost k = names@.len() as int;
        let ghost before = out@.map_values(|e: (String, Option<V>)| (e.0@, e.1));
        let ghost r0 = rest@;
        proof {
            assert(entries_view(r0).len() == r0.len());
            assert(k < n);
            assert(entries_view(r0)[0] == input.skip(k)[0]);
            assert(input.skip(k)[0] == input[k]);
        }
        let (key, value) = rest.remove(0);
        proof {
            assert(r0[0] == (key, value));
            assert(entries_view(r0)[0] == (key@, value));
            assert(input[k] == (key@, value));
            assert(rest@ =~= r0.subrange(1, r0.len() as int));
            assert forall|j: int| 0 <= j < rest@.len() implies entries_view(rest@)[j] == input.skip(
                k + 1,
            )[j] by {
                assert(rest@[j] == r0[j + 1]);
                assert(entries_view(r0)[j + 1] == input.skip(k)[j + 1]);
            }
            assert(entries_view(rest@) =~= input.skip(k + 1));
            let t = input.take(k + 1);
            assert(t.drop_last() =~= input.take(k));
            assert(t.last() == input[k]);
        }
        let ghost old_names = names@;
        let copy = key.clone();
        names.push(copy);
        proof {
            assert(names@ =~= old_names.push(copy));
            assert(header_names(input.take(k + 1)) =~= header_names(input.take(k)).push(input[k].0));
            assert(names@.map_values(|s: String| s@) =~= old_names.map_values(|s: String| s@).push(
                copy@,
            ));
        }
        if contains_key_among(&hidden, key.as_str()) {
            proof {
                assert(out@.map_values(|e: (String, Option<V>)| (e.0@, e.1)) =~= before);
            }
        } else {
            out.push((key, Some(value)));
            proof {
                assert(out@.map_values(|e: (String, Option<V>)| (e.0@, e.1)) =~= before.push(
                    (input[k].0, Some(input[k].1)),
                ));
            }
        }
        proof {
            assert(names@.map_values(|s: String| s@) =~= header_names(input.take(k + 1)));
        }
    }
    proof {
        assert(input.take(n as int) =~= input);
    }
    let present = present_among(&hidden, &names);
    let ghost kept = out@.map_values(|e: (String, Option<V>)| (e.0@, e.1));
    let ghost pv = present@.map_values(|s: String| s@);
    let mut i: usize = 0;
    while i < present.len()
        invariant
            i <= present@.len(),
            pv == present@.map_values(|s: String| s@),
            out@.map_values(|e: (String, Option<V>)| (e.0@, e.1)) =~= kept + pv.take(i as int).map_values(
                |m: Seq<char>| (m, None::<V>),
            ),
        decreases present@.len() - i,
    {
        let ghost before = out@.map_values(|e: (String, Option<V>)| (e.0@, e.1));
        let ghost old_out = out@;
        let name = present[i].clone();
        out.push((name, None));
        proof {
            assert(name@ == pv[i as int]);
            assert(out@ =~= old_out.push((name, None::<V>)));
            assert(out@.map_values(|e: (String, Option<V>)| (e.0@, e.1)) =~= before.push(
                (pv[i as int], None::<V>),
            ));
            assert(pv.take(i + 1).map_values(|m: Seq<char>| (m, None::<V>)) =~= pv.take(
                i as int,
            ).map_values(|m: Seq<char>| (m, None::<V>)).push((pv[i as int], None::<V>)));
        }
        i = i + 1;
    }
    proof {
        assert(pv.take(present@.len() as int) =~= pv);
    }
    out
}

fn contains_key_among(candidates: &Vec<&str>, k: &str) -> (b: bool)
    ensures
        b == candidates@.map_values(|s: &str| s@).contains(k@),
{
    let ghost cs = candidates@.map_values(|s: &str| s@);
    let mut i: usize = 0;
    while i < candidates.len()
        invariant
            i <= candidates@.len(),
            cs == candidates@.map_values(|s: &str| s@),
            forall|j: int| 0 <= j < i ==> cs[j] != k@,
        decreases candidates@.len() - i,
    {
        if str_eq(candidates[i], k) {
            assert(cs[i as int] == k@);
            return true;
        }
        i = i + 1;
    }
    false
}

proof fn lemma_kept_headers<V>(entries: Seq<(Seq<char>, V)>)
    ensures
        forall|i: int|
            0 <= i < kept_headers(entries).len() ==> {
                &&& !sensitive_headers().contains((#[trigger] kept_headers(entries)[i]).0)
                &&& kept_headers(entries)[i].1 is Some
            },
        forall|m: Seq<char>|
            !sensitive_headers().contains(m) ==> (header_names(kept_headers(entries)).contains(m)
                <==> header_names(entries).contains(m)),
    decreases entries.len(),
{
    if entries.len() > 0 {
        let init = entries.drop_last();
        lemma_kept_headers(init);
        let e = entries.last();
        let r = kept_headers(init);
        assert(header_names(entries) =~= header_names(init).push(e.0));
        if !sensitive_headers().contains(e.0) {
            assert(header_names(r.push((e.0, Some(e.1)))) =~= header_names(r).push(e.0));
        }
        assert forall|m: Seq<char>| !sensitive_headers().contains(m) implies (header_names(
            kept_headers(entries),
        ).contains(m) <==> header_names(entries).contains(m)) by {
            lemma_push_contains(header_names(init), e.0, m);
            if !sensitive_headers().contains(e.0) {
                assert(kept_headers(entries) == r.push((e.0, Some(e.1))));
                lemma_push_contains(header_names(r), e.0, m);
            } else {
                assert(kept_headers(entries) == r);
                assert(m != e.0);
            }
        }
    }
}

proof fn lemma_push_contains(s: Seq<Seq<char>>, x: Seq<char>, m: Seq<char>)
    ensures
        s.push(x).contains(m) <==> (s.contains(m) || m == x),
{
    if s.contains(m) {
        let j = choose|j: int| 0 <= j < s.len() && s[j] == m;
        assert(s.push(x)[j] == m);
    }
    if m == x {
        assert(s.push(x)[s.len() as int] == m);
    }
    if s.push(x).contains(m) && m != x {
        let j = choose|j: int| 0 <= j < s.push(x).len() && s.push(x)[j] == m;
        assert(j < s.len());
        assert(s[j] == m);
    }
}

/// A logged header map has exactly the header names of the original; every
/// sensitive header in it carries the hidden marker, every other header its value.
/// Under a name that is not sensitive, the logged values are the original ones, in
/// order; under a sensitive name that is present there is exactly one hidden marker.
pub proof fn lemma_header_redaction<V>(entries: Seq<(Seq<char>, V)>, m: Seq<char>)
    ensures
        header_names(redacted_headers(entries)).contains(m) <==> header_names(entries).contains(m),
        forall|i: int|
            0 <= i < redacted_headers(entries).len() ==> ((#[trigger] redacted_headers(
                entries,
            )[i]).1 is None <==> sensitive_headers().contains(redacted_headers(entries)[i].0)),
        !sensitive_headers().contains(m) ==> values_under(redacted_headers(entries), m)
            == values_under(entries, m).map_values(|v: V| Some(v)),
        sensitive_headers().contains(m) && header_names(entries).contains(m) ==> values_under(
            redacted_headers(entries),
            m,
        ) == seq![None::<V>],
{
    lemma_values_under_concat(
        kept_headers(entries),
        present_of(sensitive_headers(), header_names(entries)).map_values(
            |n: Seq<char>| (n, None::<V>),
        ),
        m,
    );
    lemma_kept_values(entries, m);
    lemma_sensitive_headers_distinct();
    lemma_marker_values::<V>(sensitive_headers(), header_names(entries), m);
    if sensitive_headers().contains(m) {
        assert(values_under(kept_headers(entries), m) + seq![None::<V>] =~= seq![None::<V>]);
    }
    assert(values_under(entries, m).map_values(|v: V| Some(v)) + Seq::<Option<V>>::empty()
        =~= values_under(entries, m).map_values(|v: V| Some(v)));
    lemma_kept_headers(entries);
    let k = kept_headers(entries);
    let p = present_of(sensitive_headers(), header_names(entries));
    let pm = p.map_values(|n: Seq<char>| (n, None::<V>));
    let out = redacted_headers(entries);
    assert(out =~= k + pm);
    lemma_present_sub(sensitive_headers(), header_names(entries));
    assert(header_names(out) =~= header_names(k) + p);
    lemma_redaction_exact(sensitive_headers(), header_names(entries), m);
    let ho = header_names(out);
    if ho.contains(m) {
        let j = choose|j: int| 0 <= j < ho.len() && ho[j] == m;
        if j < k.len() {
            assert(header_names(k)[j] == m);
            assert(!sensitive_headers().contains(k[j].0));
        } else {
            assert(p[j - k.len()] == m);
        }
    }
    if header_names(entries).contains(m) {
        if sensitive_headers().contains(m) {
            let j = choose|j: int| 0 <= j < p.len() && p[j] == m;
            assert(ho[k.len() + j] == m);
        } else {
            let hk = header_names(k);
            let j = choose|j: int| 0 <= j < hk.len() && hk[j] == m;
            assert(ho[j] == m);
        }
    }
    assert forall|i: int| 0 <= i < out.len() implies ((#[trigger] out[i]).1 is None
        <==> sensitive_headers().contains(out[i].0)) by {
        if i >= k.len() {
            assert(out[i] == pm[i - k.len()]);
            assert(p.contains(p[i - k.len()]));
        }
    }
}

/// The values under one header name, in order.
pub open spec fn values_under<V>(entries: Seq<(Seq<char>, V)>, name: Seq<char>) -> Seq<V>
    decreases entries.len(),
{
    if entries.len() == 0 {
        Seq::empty()
    } else {
        let rest = values_under(entries.drop_last(), name);
        if entries.last().0 == name {
            rest.push(entries.last().1)
        } else {
            rest
        }
    }
}

proof fn lemma_values_under_concat<V>(a: Seq<(Seq<char>, V)>, b: Seq<(Seq<char>, V)>, name: Seq<char>)
    ensures
        values_under(a + b, name) == values_under(a, name) + values_under(b, name),
    decreases b.len(),
{
    if b.len() == 0 {
        assert(a + b =~= a);
        assert(values_under(a, name) + values_under(b, name) =~= values_under(a, name));
    } else {
        lemma_values_under_concat(a, b.drop_last(), name);
        assert((a + b).drop_last() =~= a + b.drop_last());
        assert((a + b).last() == b.last());
        if b.last().0 == name {
            assert(values_under(a, name) + values_under(b.drop_last(), name).push(b.last().1)
                =~= (values_under(a, name) + values_under(b.drop_last(), name)).push(b.last().1));
        }
    }
}

proof fn lemma_kept_values<V>(entries: Seq<(Seq<char>, V)>, name: Seq<char>)
    ensures
        values_under(kept_headers(entries), name) == (if sensitive_headers().contains(name) {
            Seq::<Option<V>>::empty()
        } else {
            values_under(entries, name).map_values(|v: V| Some(v))
        }),
    decreases entries.len(),
{
    if entries.len() == 0 {
        assert(values_under(entries, name).map_values(|v: V| Some(v)) =~= Seq::<Option<V>>::empty());
    } else {
        let init = entries.drop_last();
        let e = entries.last();
        lemma_kept_values(init, name);
        let r = kept_headers(init);
        if !sensitive_headers().contains(e.0) {
            let r2 = r.push((e.0, Some(e.1)));
            assert(r2.drop_last() =~= r);
            assert(r2.last() == (e.0, Some(e.1)));
            if e.0 == name {
                assert(values_under(entries, name).map_values(|v: V| Some(v)) =~= values_under(
                    init,
                    name,
                ).map_values(|v: V| Some(v)).push(Some(e.1)));
            }
        }
    }
}

proof fn lemma_marker_values<V>(candidates: Seq<Seq<char>>, keys: Seq<Seq<char>>, name: Seq<char>)
    requires
        candidates.no_duplicates(),
    ensures
        values_under(present_of(candidates, keys).map_values(|n: Seq<char>| (n, None::<V>)), name)
            == (if candidates.contains(name) && keys.contains(name) {
            seq![None::<V>]
        } else {
            Seq::<Option<V>>::empty()
        }),
    decreases candidates.len(),
{
    let pm = present_of(candidates, keys).map_values(|n: Seq<char>| (n, None::<V>));
    if candidates.len() == 0 {
        assert(pm =~= Seq::<(Seq<char>, Option<V>)>::empty());
    } else {
        let init = candidates.drop_last();
        let last = candidates.last();
        assert(init.no_duplicates());
        lemma_marker_values::<V>(init, keys, name);
        assert(candidates =~= init.push(last));
        lemma_push_contains(init, last, name);
        let pi = present_of(init, keys);
        let pmi = pi.map_values(|n: Seq<char>| (n, None::<V>));
        if last == name {
            if init.contains(name) {
                let j = choose|j: int| 0 <= j < init.len() && init[j] == name;
                assert(candidates[j] == candidates[candidates.len() - 1]);
            }
        }
        if keys.contains(last) {
            assert(pm =~= pmi.push((last, None::<V>)));
            assert(pm.drop_last() =~= pmi);
        } else {
            assert(pm =~= pmi);
        }
    }
}

proof fn lemma_sensitive_headers_distinct()
    ensures
        sensitive_headers().no_duplicates(),
{
    reveal_strlit("authorization");
    reveal_strlit("cookie");
    reveal_strlit("x-api-key");
    reveal_strlit("x-auth-token");
    reveal_strlit("bearer");
    reveal_strlit("jwt");
    reveal_strlit("access-token");
    reveal_strlit("refresh-token");
    let s = sensitive_headers();
    assert forall|i: int, j: int| 0 <= i < s.len() && 0 <= j < s.len() && i != j implies s[i]
        != s[j] by {
        if s[i] == s[j] {
            assert(s[i].len() == s[j].len());
            assert(s[i][0] == s[j][0]);
            assert(s[i][2] == s[j][2]);
        }
    }
}

proof fn lemma_present_sub(candidates: Seq<Seq<char>>, keys: Seq<Seq<char>>)
    ensures
        forall|j: int|
            0 <= j < present_of(candidates, keys).len() ==> candidates.contains(
                #[trigger] present_of(candidates, keys)[j],
            ),
{
    assert forall|j: int| 0 <= j < present_of(candidates, keys).len() implies candidates.contains(
        #[trigger] present_of(candidates, keys)[j],
    ) by {
        let x = present_of(candidates, keys)[j];
        assert(present_of(candidates, keys).contains(x));
        lemma_redaction_exact(candidates, keys, x);
    }
}

} // verus!
