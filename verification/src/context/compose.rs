//! Docker Compose projects: which file describes one, and the project name
//! and number of services it declares.
use crate::model::str_eq;
use crate::text::{
    chars_of, ends_with, ends_with_str, opt_view, owned, starts_with, starts_with_str, strs,
    text_le, text_le_exec, trim, trim_str,
};
use vstd::prelude::*;

verus! {

/// The compose file names tried first, in order.
pub open spec fn compose_names() -> Seq<Seq<char>> {
    seq![
        "compose.yaml"@,
        "compose.yml"@,
        "docker-compose.yaml"@,
        "docker-compose.yml"@,
        "docker-compose.override.yaml"@,
        "docker-compose.override.yml"@,
    ]
}

pub open spec fn spec_is_compose_variant(n: Seq<char>) -> bool {
    (starts_with(n, "compose."@) || starts_with(n, "docker-compose."@)) && (ends_with(n, ".yaml"@)
        || ends_with(n, ".yml"@))
}

/// Whether a file name is a compose file: `compose.*` or
/// `docker-compose.*`, in YAML.
pub fn is_compose_variant(name: &str) -> (r: bool)
    ensures
        r == spec_is_compose_variant(name@),
{
    (starts_with_str(name, "compose.") || starts_with_str(name, "docker-compose.")) && (
    ends_with_str(name, ".yaml") || ends_with_str(name, ".yml"))
}

pub open spec fn listed(names: Seq<Seq<char>>, n: Seq<char>) -> bool {
    exists|k: int| 0 <= k < names.len() && names[k] == n
}

/// The first standard name present, in the order of `compose_names`.
pub open spec fn first_standard(names: Seq<Seq<char>>, candidates: Seq<Seq<char>>) -> Option<Seq<char>>
    decreases candidates.len(),
{
    if candidates.len() == 0 {
        None
    } else if listed(names, candidates[0]) {
        Some(candidates[0])
    } else {
        first_standard(names, candidates.drop_first())
    }
}

/// The least compose variant by name, if any.
pub open spec fn least_variant(names: Seq<Seq<char>>) -> Option<Seq<char>>
    decreases names.len(),
{
    if names.len() == 0 {
        None
    } else {
        let rest = least_variant(names.drop_last());
        let x = names.last();
        if !spec_is_compose_variant(x) {
            rest
        } else {
            match rest {
                None => Some(x),
                Some(m) => if text_le(m, x) {
                    Some(m)
                } else {
                    Some(x)
                },
            }
        }
    }
}

pub open spec fn spec_compose_file(names: Seq<Seq<char>>) -> Option<Seq<char>> {
    match first_standard(names, compose_names()) {
        Some(n) => Some(n),
        None => least_variant(names),
    }
}

fn listed_exec(names: &Vec<String>, n: &str) -> (r: bool)
    ensures
        r == listed(strs(names@), n@),
{
    let mut i: usize = 0;
    while i < names.len()
        invariant
            i <= names.len(),
            forall|k: int| 0 <= k < i ==> strs(names@)[k] != n@,
        decreases names.len() - i,
    {
        if str_eq(names[i].as_str(), n) {
            assert(strs(names@)[i as int] == n@);
            return true;
        }
        i += 1;
    }
    false
}

/// The compose file of a directory, given the names of its entries: the
/// first standard name present, else the first compose variant by name.
pub fn compose_file(names: &Vec<String>) -> (r: Option<String>)
    ensures
        opt_view(r) == spec_compose_file(strs(names@)),
{
    let ghost ns = strs(names@);
    let candidates: [&str; 6] = [
        "compose.yaml",
        "compose.yml",
        "docker-compose.yaml",
        "docker-compose.yml",
        "docker-compose.override.yaml",
        "docker-compose.override.yml",
    ];
    let ghost cs = seq![
        "compose.yaml"@,
        "compose.yml"@,
        "docker-compose.yaml"@,
        "docker-compose.yml"@,
        "docker-compose.override.yaml"@,
        "docker-compose.override.yml"@,
    ];
    assert(cs =~= compose_names());
    let mut c: usize = 0;
    assert(cs.skip(0) =~= cs);
    while c < 6
        invariant
            c <= 6,
            ns == strs(names@),
            forall|j: int| 0 <= j < 6 ==> (#[trigger] candidates@[j])@ == cs[j],
            cs.len() == 6,
            cs == compose_names(),
            first_standard(ns, cs) == first_standard(ns, cs.skip(c as int)),
        decreases 6 - c,
    {
        let name = candidates[c];
        assert(cs.skip(c as int)[0] == cs[c as int]);
        if listed_exec(names, name) {
            return Some(owned(name));
        }
        assert(cs.skip(c as int).drop_first() =~= cs.skip(c + 1));
        c += 1;
    }
    assert(cs.skip(6) =~= Seq::<Seq<char>>::empty());
    let mut best: Option<String> = None;
    let mut i: usize = 0;
    assert(ns.take(0) =~= Seq::<Seq<char>>::empty());
    while i < names.len()
        invariant
            i <= names.len(),
            ns == strs(names@),
            opt_view(best) == least_variant(ns.take(i as int)),
        decreases names.len() - i,
    {
        let x = names[i].as_str();
        proof {
            assert(ns.take(i + 1).drop_last() =~= ns.take(i as int));
            assert(ns.take(i + 1).last() == x@);
        }
        if is_compose_variant(x) {
            let replace = match &best {
                None => true,
                Some(m) => {
                    let a = chars_of(m.as_str());
                    let b = chars_of(x);
                    !text_le_exec(&a, &b)
                },
            };
            if replace {
                best = Some(owned(x));
            }
        }
        i += 1;
    }
    assert(ns.take(names@.len() as int) =~= ns);
    best
}

/// What `serde_yaml` finds at `key` of a document's top-level mapping when
/// it is a string: the document parsed to a `Value`, then `get(key)` and
/// `as_str`. `None` when the document does not parse or holds no string
/// there.
pub uninterp spec fn yaml_string_at(doc: Seq<char>, key: Seq<char>) -> Option<Seq<char>>;

/// `serde_yaml::from_str::<Value>`, `Value::get` and `Value::as_str`: the
/// string at `key` of the document's top-level mapping. The contract names
/// the result and claims nothing else of the parser.
#[verifier::external_body]
fn yaml_string_field(doc: &str, key: &str) -> (r: Option<String>)
    ensures
        opt_view(r) == yaml_string_at(doc@, key@),
{
    let value: serde_yaml::Value = serde_yaml::from_str(doc).ok()?;
    match value.get(key)?.as_str() {
        Some(s) => Some(s.to_owned()),
        None => None,
    }
}

/// How many entries `serde_yaml` finds at `key` of a document's top-level
/// mapping when that is itself a mapping; `None` when the document does not
/// parse or holds no mapping there.
pub uninterp spec fn yaml_mapping_len_at(doc: Seq<char>, key: Seq<char>) -> Option<usize>;

/// `serde_yaml::from_str::<Value>`, `Value::get`, `Value::as_mapping` and
/// `Mapping::len`: the size of the mapping at `key`. The contract names the
/// result and claims nothing else of the parser.
#[verifier::external_body]
fn yaml_mapping_size(doc: &str, key: &str) -> (r: Option<usize>)
    ensures
        r == yaml_mapping_len_at(doc@, key@),
{
    let value: serde_yaml::Value = serde_yaml::from_str(doc).ok()?;
    match value.get(key)?.as_mapping() {
        Some(m) => Some(m.len()),
        None => None,
    }
}

pub open spec fn spec_summary_from_fields(name: Option<Seq<char>>, services: Option<usize>) -> (
    Option<Seq<char>>,
    Option<usize>,
) {
    (
        match name {
            Some(n) => if trim(n).len() > 0 {
                Some(trim(n))
            } else {
                None
            },
            None => None,
        },
        services,
    )
}

/// The project name (trimmed, if not blank) and the service count, from the
/// values found in the compose file.
pub fn summary_from_fields(name: Option<String>, services: Option<usize>) -> (r: (
    Option<String>,
    Option<usize>,
))
    ensures
        (opt_view(r.0), r.1) == spec_summary_from_fields(opt_view(name), services),
{
    let n = match name {
        Some(n) => {
            let t = trim_str(n.as_str());
            if t.unicode_len() > 0 {
                Some(t)
            } else {
                None
            }
        },
        None => None,
    };
    (n, services)
}

pub open spec fn spec_compose_summary(contents: Option<Seq<char>>) -> (Option<Seq<char>>, Option<usize>) {
    match contents {
        None => (None, None),
        Some(c) => spec_summary_from_fields(
            yaml_string_at(c, "name"@),
            yaml_mapping_len_at(c, "services"@),
        ),
    }
}

/// The project name and service count of a compose file (`None` when it
/// could not be read).
pub fn compose_summary(contents: Option<&str>) -> (r: (Option<String>, Option<usize>))
    ensures
        (opt_view(r.0), r.1) == spec_compose_summary(
            match contents {
                Some(c) => Some(c@),
                None => None,
            },
        ),
{
    match contents {
        None => (None, None),
        Some(c) => summary_from_fields(yaml_string_field(c, "name"), yaml_mapping_size(c, "services")),
    }
}

} // verus!
