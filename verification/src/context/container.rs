//! Whether the process runs in a container, and which one.
use crate::context::git::{is_hex, is_hex_char};
use crate::model::ContainerContext;
use crate::text::{chars_of, opt_view, owned, string_of_range};
use vstd::prelude::*;

verus! {

/// Length of the run of hex digits at the start of `s`.
pub open spec fn hex_run(s: Seq<char>) -> nat
    decreases s.len(),
{
    if s.len() == 0 || !is_hex(s[0]) {
        0
    } else {
        1 + hex_run(s.drop_first())
    }
}

pub proof fn lemma_hex_run_bounds(s: Seq<char>)
    ensures
        hex_run(s) <= s.len(),
        s.len() > 0 && is_hex(s[0]) ==> hex_run(s) >= 1,
    decreases s.len(),
{
    if s.len() > 0 && is_hex(s[0]) {
        lemma_hex_run_bounds(s.drop_first());
    }
}

pub proof fn lemma_hex_run_exact(s: Seq<char>, k: int)
    requires
        0 <= k <= s.len(),
        forall|i: int| 0 <= i < k ==> is_hex(#[trigger] s[i]),
        k == s.len() || !is_hex(s[k]),
    ensures
        hex_run(s) == k,
    decreases k,
{
    if k > 0 {
        let t = s.drop_first();
        assert forall|i: int| 0 <= i < k - 1 implies is_hex(#[trigger] t[i]) by {
            assert(t[i] == s[i + 1]);
        }
        if k - 1 < t.len() {
            assert(t[k - 1] == s[k]);
        }
        lemma_hex_run_exact(t, k - 1);
    }
}

/// The first twelve digits of the first run of at least twelve hex digits.
pub open spec fn spec_cgroup_id(s: Seq<char>) -> Option<Seq<char>>
    decreases s.len(),
{
    if s.len() == 0 {
        None
    } else if !is_hex(s[0]) {
        spec_cgroup_id(s.drop_first())
    } else {
        proof {
            lemma_hex_run_bounds(s);
        }
        if hex_run(s) >= 12 {
            Some(s.take(12))
        } else {
            spec_cgroup_id(s.skip(hex_run(s) as int))
        }
    }
}

/// The container id in `/proc/1/cgroup`: the first twelve characters of the
/// first hex string at least that long.
pub fn cgroup_id(cgroup: &str) -> (r: Option<String>)
    ensures
        opt_view(r) == spec_cgroup_id(cgroup@),
{
    let v = chars_of(cgroup);
    let mut i: usize = 0;
    assert(v@.skip(0) =~= v@);
    while i < v.len()
        invariant
            i <= v.len(),
            v@ == cgroup@,
            spec_cgroup_id(v@) == spec_cgroup_id(v@.skip(i as int)),
        decreases v.len() - i,
    {
        let ghost rest = v@.skip(i as int);
        if !is_hex_char(v[i]) {
            assert(rest.drop_first() =~= v@.skip(i + 1));
            i += 1;
        } else {
            let mut j = i + 1;
            while j < v.len() && is_hex_char(v[j])
                invariant
                    i < j <= v.len(),
                    forall|k: int| i <= k < j ==> is_hex(#[trigger] v@[k]),
                decreases v.len() - j,
            {
                j += 1;
            }
            proof {
                assert forall|k: int| 0 <= k < j - i implies is_hex(#[trigger] rest[k]) by {
                    assert(rest[k] == v@[i + k]);
                }
                if j < v.len() {
                    assert(rest[j - i] == v@[j as int]);
                }
                lemma_hex_run_exact(rest, j - i);
            }
            if j - i >= 12 {
                let id = string_of_range(&v, i, i + 12);
                assert(id@ =~= rest.take(12));
                return Some(id);
            }
            assert(rest.skip(j - i) =~= v@.skip(j as int));
            i = j;
        }
    }
    None
}

pub open spec fn container_view(c: Option<ContainerContext>) -> Option<(Seq<char>, Option<Seq<char>>)> {
    match c {
        Some(x) => Some((x.kind@, opt_view(x.id))),
        None => None,
    }
}

pub open spec fn spec_container(dockerenv: bool, cgroup: Option<Seq<char>>) -> Option<
    (Seq<char>, Option<Seq<char>>),
> {
    let id = match cgroup {
        Some(c) => spec_cgroup_id(c),
        None => None,
    };
    if dockerenv {
        Some(("docker"@, id))
    } else {
        match id {
            Some(i) => Some(("container"@, Some(i))),
            None => None,
        }
    }
}

/// The container context: Docker when `/.dockerenv` exists, else a
/// container whenever `/proc/1/cgroup` (its contents, when readable) holds
/// an id.
pub fn detect(dockerenv_exists: bool, cgroup: Option<&str>) -> (r: Option<ContainerContext>)
    ensures
        container_view(r) == spec_container(
            dockerenv_exists,
            match cgroup {
                Some(c) => Some(c@),
                None => None,
            },
        ),
{
    let id = match cgroup {
        Some(c) => cgroup_id(c),
        None => None,
    };
    if dockerenv_exists {
        return Some(ContainerContext { kind: owned("docker"), id });
    }
    match id {
        Some(i) => Some(ContainerContext { kind: owned("container"), id: Some(i) }),
        None => None,
    }
}

} // verus!
