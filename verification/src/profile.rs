//! The profile of the signed-in account: the departments its majors belong to and
//! whether it is active.
use vstd::prelude::*;

use crate::roles::RoleEnum;

verus! {

/// The distinct departments named by the majors (a major may have none), as
/// identifiers in increasing order.
pub open spec fn is_department_set(out: Seq<u128>, majors: Seq<Option<u128>>) -> bool {
    &&& forall|i: int, j: int| 0 <= i < j < out.len() ==> out[i] < out[j]
    &&& forall|x: u128| out.contains(x) <==> majors.contains(Some(x))
}

/// Collects the departments of the majors, sorted, each once.
pub fn department_ids(majors: &Vec<Option<u128>>) -> (out: Vec<u128>)
    ensures
        is_department_set(out@, majors@),
{
    let mut out: Vec<u128> = Vec::new();
    let n = majors.len();
    let mut k: usize = 0;
    while k < n
        invariant
            n == majors@.len(),
            k <= n,
            forall|i: int, j: int| 0 <= i < j < out@.len() ==> out@[i] < out@[j],
            forall|x: u128| out@.contains(x) <==> majors@.take(k as int).contains(Some(x)),
        decreases n - k,
    {
        let ghost seen = majors@.take(k as int);
        let ghost next = majors@.take(k + 1);
        proof {
            assert(next =~= seen.push(majors@[k as int]));
        }
        match majors[k] {
            None => {
                proof {
                    assert forall|x: u128| out@.contains(x) <==> next.contains(Some(x)) by {
                        if next.contains(Some(x)) {
                            let i = choose|i: int| 0 <= i < next.len() && next[i] == Some(x);
                            assert(i < seen.len());
                            assert(seen[i] == Some(x));
                        }
                        if seen.contains(Some(x)) {
                            let i = choose|i: int| 0 <= i < seen.len() && seen[i] == Some(x);
                            assert(next[i] == Some(x));
                        }
                    }
                }
            },
            Some(d) => {
                let m = out.len();
                let mut pos: usize = 0;
                while pos < m && out[pos] < d
                    invariant
                        m == out@.len(),
                        pos <= m,
                        forall|i: int| 0 <= i < pos ==> out@[i] < d,
                    decreases m - pos,
                {
                    pos = pos + 1;
                }
                let ghost old_out = out@;
                if pos < m && out[pos] == d {
                    proof {
                        assert forall|x: u128| out@.contains(x) <==> next.contains(Some(x)) by {
                            if next.contains(Some(x)) {
                                let i = choose|i: int| 0 <= i < next.len() && next[i] == Some(x);
                                if i < seen.len() {
                                    assert(seen[i] == Some(x));
                                } else {
                                    assert(x == d);
                                    assert(out@[pos as int] == x);
                                }
                            }
                            if seen.contains(Some(x)) {
                                let i = choose|i: int| 0 <= i < seen.len() && seen[i] == Some(x);
                                assert(next[i] == Some(x));
                            }
                        }
                    }
                } else {
                    out.insert(pos, d);
                    proof {
                        assert forall|i: int, j: int| 0 <= i < j < out@.len() implies out@[i]
                            < out@[j] by {
                            if j < pos {
                                assert(out@[i] == old_out[i] && out@[j] == old_out[j]);
                            } else if j == pos {
                                assert(out@[i] == old_out[i]);
                            } else if i < pos {
                                assert(out@[i] == old_out[i] && out@[j] == old_out[j - 1]);
                                assert(old_out[pos as int] > d || old_out[pos as int] >= d);
                            } else if i == pos {
                                assert(out@[j] == old_out[j - 1]);
                                assert(old_out[pos as int] >= d);
                                assert(old_out[pos as int] != d);
                            } else {
                                assert(out@[i] == old_out[i - 1] && out@[j] == old_out[j - 1]);
                            }
                        }
                        assert forall|x: u128| out@.contains(x) <==> next.contains(Some(x)) by {
                            if next.contains(Some(x)) {
                                let i = choose|i: int| 0 <= i < next.len() && next[i] == Some(x);
                                if i < seen.len() {
                                    assert(seen[i] == Some(x));
                                    assert(old_out.contains(x));
                                    let p = choose|p: int| 0 <= p < old_out.len() && old_out[p] == x;
                                    if p < pos {
                                        assert(out@[p] == x);
                                    } else {
                                        assert(out@[p + 1] == x);
                                    }
                                } else {
                                    assert(out@[pos as int] == x);
                                }
                            }
                            if out@.contains(x) {
                                let p = choose|p: int| 0 <= p < out@.len() && out@[p] == x;
                                if p < pos {
                                    assert(old_out[p] == x);
                                    assert(old_out.contains(x));
                                    let i = choose|i: int| 0 <= i < seen.len() && seen[i] == Some(x);
                                    assert(next[i] == Some(x));
                                } else if p == pos {
                                    assert(next[k as int] == Some(x));
                                } else {
                                    assert(old_out[p - 1] == x);
                                    assert(old_out.contains(x));
                                    let i = choose|i: int| 0 <= i < seen.len() && seen[i] == Some(x);
                                    assert(next[i] == Some(x));
                                }
                            }
                        }
                    }
                }
            },
        }
        k = k + 1;
    }
    proof {
        assert(majors@.take(n as int) =~= majors@);
    }
    out
}

/// Whether the profile shows the account as active: a student is active when the
/// registry says so (an unanswered query counts as inactive); other roles always are.
pub fn profile_is_active(role: RoleEnum, registry_active: Option<bool>) -> (b: bool)
    ensures
        b == match role {
            RoleEnum::Student => registry_active == Some(true),
            _ => true,
        },
{
    match role {
        RoleEnum::Student => match registry_active {
            Some(a) => a,
            None => false,
        },
        _ => true,
    }
}

/// The refusal when the account has no wallet.
pub fn wallet_missing() -> (e: (u16, String))
    ensures
        e.0 == 404,
        e.1@ == "Wallet not found"@,
{
    (404, String::from_str("Wallet not found"))
}

} // verus!
