//! Local addresses: which interfaces' addresses are shown, split by family,
//! sorted and without repeats.
use crate::model::NetworkInfo;
use crate::text::{
    chars_of, lemma_text_le_antisymmetric, lemma_text_le_total, lemma_text_le_transitive, strs,
    text_le, text_le_exec,
};
use vstd::prelude::*;

verus! {

/// An interface address: its octets or segments, and its text as
/// `Display` writes it.
#[derive(Debug, Clone)]
pub enum LocalAddress {
    V4([u8; 4], String),
    V6([u16; 8], String),
}

/// Neither loopback (`127.0.0.0/8`) nor link-local (`169.254.0.0/16`).
pub open spec fn usable_v4(o: Seq<u8>) -> bool {
    o[0] != 127 && !(o[0] == 169 && o[1] == 254)
}

pub open spec fn is_v6_loopback(s: Seq<u16>) -> bool {
    s[0] == 0 && s[1] == 0 && s[2] == 0 && s[3] == 0 && s[4] == 0 && s[5] == 0 && s[6] == 0 && s[7]
        == 1
}

pub open spec fn is_v6_unspecified(s: Seq<u16>) -> bool {
    s[0] == 0 && s[1] == 0 && s[2] == 0 && s[3] == 0 && s[4] == 0 && s[5] == 0 && s[6] == 0 && s[7]
        == 0
}

/// Neither loopback, nor unspecified, nor unicast link-local (`fe80::/10`).
pub open spec fn usable_v6(s: Seq<u16>) -> bool {
    !is_v6_loopback(s) && !is_v6_unspecified(s) && (s[0] & 0xffc0u16) != 0xfe80u16
}

/// Whether `t` is the text of a usable IPv4 address among `a`.
pub open spec fn listed_v4(a: Seq<LocalAddress>, t: Seq<char>) -> bool {
    exists|i: int|
        0 <= i < a.len() && match #[trigger] a[i] {
            LocalAddress::V4(o, s) => usable_v4(o@) && s@ == t,
            LocalAddress::V6(_, _) => false,
        }
}

/// Whether `t` is the text of a usable IPv6 address among `a`.
pub open spec fn listed_v6(a: Seq<LocalAddress>, t: Seq<char>) -> bool {
    exists|i: int|
        0 <= i < a.len() && match #[trigger] a[i] {
            LocalAddress::V6(g, s) => usable_v6(g@) && s@ == t,
            LocalAddress::V4(_, _) => false,
        }
}

/// Every element before every later one, with no repeats.
pub open spec fn strictly_sorted(s: Seq<Seq<char>>) -> bool {
    forall|i: int, j: int| 0 <= i < j < s.len() ==> text_le(s[i], s[j]) && s[i] != s[j]
}

fn usable_v4_exec(o: &[u8; 4]) -> (r: bool)
    ensures
        r == usable_v4(o@),
{
    o[0] != 127 && !(o[0] == 169 && o[1] == 254)
}

fn usable_v6_exec(s: &[u16; 8]) -> (r: bool)
    ensures
        r == usable_v6(s@),
{
    let zero_head = s[0] == 0 && s[1] == 0 && s[2] == 0 && s[3] == 0 && s[4] == 0 && s[5] == 0
        && s[6] == 0;
    let loopback = zero_head && s[7] == 1;
    let unspecified = zero_head && s[7] == 0;
    !loopback && !unspecified && (s[0] & 0xffc0u16) != 0xfe80u16
}

/// Adds `x` to a strictly sorted list, unless it is there already.
fn insert_sorted_unique(v: &mut Vec<String>, x: String)
    requires
        strictly_sorted(strs(old(v)@)),
    ensures
        strictly_sorted(strs(final(v)@)),
        forall|t: Seq<char>| #[trigger] strs(final(v)@).contains(t) <==> (strs(old(v)@).contains(t)
            || t == x@),
{
    let ghost s = strs(v@);
    let xs = chars_of(x.as_str());
    let mut k: usize = 0;
    while k < v.len()
        invariant
            k <= v.len(),
            s == strs(v@),
            strictly_sorted(s),
            xs@ == x@,
            forall|i: int| 0 <= i < k ==> text_le(#[trigger] s[i], x@) && s[i] != x@,
        ensures
            k <= v.len(),
            s == strs(v@),
            forall|i: int| 0 <= i < k ==> text_le(#[trigger] s[i], x@) && s[i] != x@,
            k < v.len() ==> !text_le(s[k as int], x@),
        decreases v.len() - k,
    {
        let ys = chars_of(v[k].as_str());
        assert(s[k as int] == v@[k as int]@);
        if !text_le_exec(&ys, &xs) {
            break;
        }
        if crate::model::str_eq(v[k].as_str(), x.as_str()) {
            proof {
                assert forall|t: Seq<char>| #[trigger] strs(v@).contains(t) <==> (s.contains(t) || t
                    == x@) by {
                    if t == x@ {
                        assert(s[k as int] == t);
                    }
                }
            }
            return;
        }
        k += 1;
    }
    proof {
        if k < s.len() {
            lemma_text_le_total(s[k as int], x@);
            if s[k as int] == x@ {
                assert(text_le(s[k as int], x@)) by {
                    lemma_text_le_total(x@, x@);
                }
            }
        }
    }
    let ghost xv = x@;
    v.insert(k, x);
    proof {
        let n = strs(v@);
        assert(n =~= s.insert(k as int, xv));
        assert forall|i: int, j: int| 0 <= i < j < n.len() implies text_le(n[i], n[j]) && n[i]
            != n[j] by {
            if j < k {
                assert(n[i] == s[i] && n[j] == s[j]);
            } else if j == k {
                assert(n[i] == s[i]);
            } else if i < k {
                assert(n[i] == s[i] && n[j] == s[j - 1]);
                assert(text_le(s[i], xv));
                assert(text_le(xv, s[k as int]) && xv != s[k as int]);
                if k < j - 1 {
                    assert(text_le(s[k as int], s[j - 1]));
                    lemma_text_le_transitive(xv, s[k as int], s[j - 1]);
                }
                lemma_text_le_transitive(s[i], xv, s[j - 1]);
                if s[i] == s[j - 1] {
                    assert(s[i] != s[j - 1]);
                }
            } else if i == k {
                assert(n[j] == s[j - 1]);
                if k < j - 1 {
                    assert(text_le(s[k as int], s[j - 1]));
                    lemma_text_le_transitive(xv, s[k as int], s[j - 1]);
                    if xv == s[j - 1] {
                        lemma_text_le_antisymmetric(s[k as int], xv);
                    }
                }
            } else {
                assert(n[i] == s[i - 1] && n[j] == s[j - 1]);
            }
        }
        assert forall|t: Seq<char>| #[trigger] n.contains(t) <==> (s.contains(t) || t == xv) by {
            if n.contains(t) {
                let i = choose|i: int| 0 <= i < n.len() && n[i] == t;
                if i < k {
                    assert(s[i] == t);
                } else if i > k {
                    assert(s[i - 1] == t);
                }
            }
            if s.contains(t) {
                let i = choose|i: int| 0 <= i < s.len() && s[i] == t;
                if i < k {
                    assert(n[i] == t);
                } else {
                    assert(n[i + 1] == t);
                }
            }
            if t == xv {
                assert(n[k as int] == t);
            }
        }
    }
}

/// The addresses to show, from the interfaces' addresses (`None` when they
/// could not be listed, which shows none): per family, the usable ones,
/// sorted and without repeats.
pub fn collect_from(result: Option<Vec<LocalAddress>>) -> (r: NetworkInfo)
    ensures
        result is None ==> r.ipv4_local_ips@.len() == 0 && r.ipv6_local_ips@.len() == 0,
        result matches Some(a) ==> {
            &&& strictly_sorted(strs(r.ipv4_local_ips@))
            &&& strictly_sorted(strs(r.ipv6_local_ips@))
            &&& forall|t: Seq<char>| #[trigger] strs(r.ipv4_local_ips@).contains(t) <==> listed_v4(a@, t)
            &&& forall|t: Seq<char>| #[trigger] strs(r.ipv6_local_ips@).contains(t) <==> listed_v6(a@, t)
        },
{
    let addrs = match result {
        Some(a) => a,
        None => {
            return NetworkInfo { ipv4_local_ips: Vec::new(), ipv6_local_ips: Vec::new() };
        },
    };
    let mut v4: Vec<String> = Vec::new();
    let mut v6: Vec<String> = Vec::new();
    let mut i: usize = 0;
    while i < addrs.len()
        invariant
            i <= addrs.len(),
            strictly_sorted(strs(v4@)),
            strictly_sorted(strs(v6@)),
            forall|t: Seq<char>| #[trigger] strs(v4@).contains(t) <==> listed_v4(addrs@.take(i as int), t),
            forall|t: Seq<char>| #[trigger] strs(v6@).contains(t) <==> listed_v6(addrs@.take(i as int), t),
        decreases addrs.len() - i,
    {
        let ghost before = addrs@.take(i as int);
        let ghost after = addrs@.take(i + 1);
        proof {
            assert forall|t: Seq<char>| listed_v4(after, t) <==> (listed_v4(before, t) || match addrs@[i as int] {
                LocalAddress::V4(o, s) => usable_v4(o@) && s@ == t,
                LocalAddress::V6(_, _) => false,
            }) by {
                if listed_v4(after, t) {
                    let j = choose|j: int| 0 <= j < after.len() && match #[trigger] after[j] {
                        LocalAddress::V4(o, s) => usable_v4(o@) && s@ == t,
                        LocalAddress::V6(_, _) => false,
                    };
                    if j < i {
                        assert(before[j] == after[j]);
                    }
                }
                if listed_v4(before, t) {
                    let j = choose|j: int| 0 <= j < before.len() && match #[trigger] before[j] {
                        LocalAddress::V4(o, s) => usable_v4(o@) && s@ == t,
                        LocalAddress::V6(_, _) => false,
                    };
                    assert(after[j] == before[j]);
                }
                assert(after[i as int] == addrs@[i as int]);
            }
            assert forall|t: Seq<char>| listed_v6(after, t) <==> (listed_v6(before, t) || match addrs@[i as int] {
                LocalAddress::V6(g, s) => usable_v6(g@) && s@ == t,
                LocalAddress::V4(_, _) => false,
            }) by {
                if listed_v6(after, t) {
                    let j = choose|j: int| 0 <= j < after.len() && match #[trigger] after[j] {
                        LocalAddress::V6(g, s) => usable_v6(g@) && s@ == t,
                        LocalAddress::V4(_, _) => false,
                    };
                    if j < i {
                        assert(before[j] == after[j]);
                    }
                }
                if listed_v6(before, t) {
                    let j = choose|j: int| 0 <= j < before.len() && match #[trigger] before[j] {
                        LocalAddress::V6(g, s) => usable_v6(g@) && s@ == t,
                        LocalAddress::V4(_, _) => false,
                    };
                    assert(after[j] == before[j]);
                }
                assert(after[i as int] == addrs@[i as int]);
            }
        }
        match &addrs[i] {
            LocalAddress::V4(o, s) => {
                if usable_v4_exec(o) {
                    insert_sorted_unique(&mut v4, s.clone());
                }
            },
            LocalAddress::V6(g, s) => {
                if usable_v6_exec(g) {
                    insert_sorted_unique(&mut v6, s.clone());
                }
            },
        }
        i += 1;
    }
    assert(addrs@.take(addrs@.len() as int) =~= addrs@);
    NetworkInfo { ipv4_local_ips: v4, ipv6_local_ips: v6 }
}

} // verus!
