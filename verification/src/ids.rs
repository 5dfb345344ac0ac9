//! Identifiers of accounts, requests and uploads, read from their textual UUID form.
use vstd::prelude::*;
use vstd::string::*;

use crate::text::{concat, concat3, result_view};

verus! {

/// What `uuid::Uuid::parse_str` gives for a text: the UUID as a 128-bit integer, or
/// the text of its error.
pub uninterp spec fn uuid_parse_outcome(s: Seq<char>) -> Result<u128, Seq<char>>;

/// Calls `uuid::Uuid::parse_str` and takes the UUID as its 128-bit value, the error by
/// its `Display` text. The outcome is a function of the input alone, named
/// `uuid_parse_outcome`; which texts parse is not stated here.
#[verifier::external_body]
fn parse_uuid(s: &str) -> (r: Result<u128, String>)
    ensures
        result_view(r) == uuid_parse_outcome(s@),
{
    match uuid::Uuid::parse_str(s) {
        Ok(u) => Ok(u.as_u128()),
        Err(e) => Err(e.to_string()),
    }
}

/// How a parsed identifier is answered: the value, or `Invalid <field>: <error>`
/// with the status that the caller refuses malformed identifiers with.
pub open spec fn id_answer(outcome: Result<u128, Seq<char>>, field: Seq<char>, status: u16) -> Result<
    u128,
    (u16, Seq<char>),
> {
    match outcome {
        Ok(v) => Ok(v),
        Err(e) => Err((status, "Invalid "@ + field + ": "@ + e)),
    }
}

/// Answers a parsed identifier.
pub fn id_decision(outcome: Result<u128, String>, field: &str, status: u16) -> (r: Result<
    u128,
    (u16, String),
>)
    ensures
        match (r, id_answer(result_view(outcome), field@, status)) {
            (Ok(a), Ok(b)) => a == b,
            (Err((c, m)), Err((c2, m2))) => c == c2 && m@ == m2,
            _ => false,
        },
{
    match outcome {
        Ok(v) => Ok(v),
        Err(e) => {
            let head = concat3("Invalid ", field, ": ");
            Err((status, concat(head.as_str(), e.as_str())))
        },
    }
}

/// Reads an identifier of the given field, refusing a malformed one with `status`.
pub fn parse_id(s: &str, field: &str, status: u16) -> (r: Result<u128, (u16, String)>)
    ensures
        match (r, id_answer(uuid_parse_outcome(s@), field@, status)) {
            (Ok(a), Ok(b)) => a == b,
            (Err((c, m)), Err((c2, m2))) => c == c2 && m@ == m2,
            _ => false,
        },
{
    let outcome = parse_uuid(s);
    id_decision(outcome, field, status)
}

/// The identifiers of a list, when every one of them parses.
pub open spec fn all_parsed(texts: Seq<Seq<char>>) -> Option<Seq<u128>>
    decreases texts.len(),
{
    if texts.len() == 0 {
        Some(Seq::empty())
    } else {
        match (all_parsed(texts.drop_last()), uuid_parse_outcome(texts.last())) {
            (Some(init), Ok(v)) => Some(init.push(v)),
            _ => None,
        }
    }
}

/// Reads a list of identifiers (the majors of a bulk-file row); `None` when one of
/// them is malformed.
pub fn parse_id_list(texts: &Vec<String>) -> (r: Option<Vec<u128>>)
    ensures
        match (r, all_parsed(texts@.map_values(|s: String| s@))) {
            (Some(v), Some(w)) => v@ == w,
            (None, None) => true,
            _ => false,
        },
{
    let ghost all = texts@.map_values(|s: String| s@);
    let mut out: Vec<u128> = Vec::new();
    let n = texts.len();
    let mut i: usize = 0;
    proof {
        assert(all.take(0) =~= Seq::<Seq<char>>::empty());
    }
    while i < n
        invariant
            n == texts@.len(),
            i <= n,
            all == texts@.map_values(|s: String| s@),
            all_parsed(all.take(i as int)) == Some(out@),
        decreases n - i,
    {
        proof {
            let t = all.take(i + 1);
            assert(t.drop_last() =~= all.take(i as int));
            assert(t.last() == texts@[i as int]@);
        }
        match parse_uuid(texts[i].as_str()) {
            Ok(v) => out.push(v),
            Err(_) => {
                proof {
                    lemma_all_parsed_extends(all, (i + 1) as int, n as int);
                    assert(all.take(n as int) =~= all);
                }
                return None;
            },
        }
        i = i + 1;
    }
    proof {
        assert(all.take(n as int) =~= all);
    }
    Some(out)
}

proof fn lemma_all_parsed_extends(all: Seq<Seq<char>>, k: int, n: int)
    requires
        0 < k <= n == all.len(),
        all_parsed(all.take(k)) is None,
    ensures
        all_parsed(all.take(n)) is None,
    decreases n - k,
{
    if k < n {
        let t = all.take(k + 1);
        assert(t.drop_last() =~= all.take(k));
        lemma_all_parsed_extends(all, k + 1, n);
    }
}

/// A list of identifiers is read exactly when every one of them parses, and then into
/// the parsed values in the same order; a malformed identifier is refused with the
/// given status and `Invalid <field>: <error>`.
pub proof fn lemma_id_lists(texts: Seq<Seq<char>>, outcome: Result<u128, Seq<char>>, field: Seq<char>, status: u16)
    ensures
        all_parsed(texts) is Some <==> (forall|i: int| 0 <= i < texts.len() ==> #[trigger] uuid_parse_outcome(texts[i]) is Ok),
        all_parsed(texts) matches Some(v) ==> (v.len() == texts.len() && forall|i: int|
            0 <= i < texts.len() ==> uuid_parse_outcome(texts[i]) == Ok::<u128, Seq<char>>(#[trigger] v[i])),
        outcome matches Ok(v) ==> id_answer(outcome, field, status) == Ok::<u128, (u16, Seq<char>)>(v),
        outcome matches Err(e) ==> id_answer(outcome, field, status) == Err::<u128, (u16, Seq<char>)>(
            (status, "Invalid "@ + field + ": "@ + e),
        ),
    decreases texts.len(),
{
    if texts.len() > 0 {
        let init = texts.drop_last();
        lemma_id_lists(init, outcome, field, status);
        assert forall|i: int| 0 <= i < init.len() implies init[i] == texts[i] by {}
        if forall|i: int| 0 <= i < texts.len() ==> #[trigger] uuid_parse_outcome(texts[i]) is Ok {
            assert forall|i: int| 0 <= i < init.len() implies #[trigger] uuid_parse_outcome(init[i]) is Ok by {
                assert(uuid_parse_outcome(texts[i]) is Ok);
            }
            assert(uuid_parse_outcome(texts[texts.len() - 1]) is Ok);
        }
        if all_parsed(init) is None {
            let j = choose|j: int| 0 <= j < init.len() && !(uuid_parse_outcome(init[j]) is Ok);
            assert(!(uuid_parse_outcome(texts[j]) is Ok));
        }
        if uuid_parse_outcome(texts.last()) is Err {
            assert(!(uuid_parse_outcome(texts[texts.len() - 1]) is Ok));
        }
        if all_parsed(texts) is Some {
            let v = all_parsed(texts)->0;
            let w = all_parsed(init)->0;
            assert forall|i: int| 0 <= i < texts.len() implies uuid_parse_outcome(texts[i]) == Ok::<u128, Seq<char>>(#[trigger] v[i]) by {
                if i < init.len() {
                    assert(v[i] == w[i]);
                    assert(uuid_parse_outcome(init[i]) == Ok::<u128, Seq<char>>(w[i]));
                }
            }
        }
    }
}

} // verus!
