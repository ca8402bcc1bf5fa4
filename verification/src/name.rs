//! Hostnames: a base name, an optional namespace label, and a suffix.
use crate::compact::chars_of;
use compact_str::CompactString;
use vstd::prelude::*;

verus! {

/// The hostname of `base` under `suffix`, without a namespace: the two joined.
pub open spec fn hostname(base: Seq<char>, suffix: Seq<char>) -> Seq<char> {
    base + suffix
}

/// The label that stands for a namespace in a hostname: the namespace itself, or `default`
/// where it is unset or empty.
pub open spec fn namespace_label(namespace: Option<Seq<char>>) -> Seq<char> {
    if namespace is Some && namespace->0.len() > 0 {
        namespace->0
    } else {
        "default"@
    }
}

/// The hostname of `base` in `namespace` under `suffix`: the base name, a dot, the
/// namespace's label, and the suffix.
pub open spec fn namespaced_hostname(
    base: Seq<char>,
    namespace: Option<Seq<char>>,
    suffix: Seq<char>,
) -> Seq<char> {
    base + "."@ + namespace_label(namespace) + suffix
}

/// Composes a hostname from a base name and a suffix.
pub fn format_name(name: &str, tld: &str) -> (formatted: CompactString)
    ensures
        chars_of(formatted) == hostname(name@, tld@),
{
    let mut formatted: CompactString = CompactString::from(name);
    formatted.push_str(tld);
    formatted
}

/// Composes a hostname from a base name, the namespace it lives in and a suffix.
pub fn format_namespaced_name(name: &str, namespace: &Option<String>, tld: &str) -> (formatted:
    CompactString)
    ensures
        chars_of(formatted) == namespaced_hostname(name@, namespace.deep_view(), tld@),
{
    let label: &str = match namespace {
        None => "default",
        Some(s) => if s.as_str().is_empty() {
            "default"
        } else {
            s.as_str()
        },
    };
    let mut formatted: CompactString = CompactString::from(name);
    formatted.push_str(".");
    formatted.push_str(label);
    formatted.push_str(tld);
    formatted
}

/// A namespace's label is never empty, and is `default` exactly where the namespace is
/// unset or empty.
pub proof fn lemma_namespace_label(namespace: Option<Seq<char>>)
    ensures
        namespace_label(namespace).len() > 0,
        namespace is Some && namespace->0.len() > 0 ==> namespace_label(namespace) == namespace->0,
        namespace is None || namespace->0.len() == 0 ==> namespace_label(namespace) == seq![
            'd',
            'e',
            'f',
            'a',
            'u',
            'l',
            't',
        ],
{
    reveal_strlit("default");
}

} // verus!
