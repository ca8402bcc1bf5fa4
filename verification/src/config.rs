//! Settings: the suffix of the hostnames, and what the ingress endpoints are configured with.
use crate::compact::chars_of;
use compact_str::CompactString;
use vstd::prelude::*;
use vstd::string::*;

verus! {

/// What the ingress record stream is configured with. The values are fixed when the process
/// starts and only read afterwards.
#[derive(Clone, Debug, PartialEq, Eq)]
pub struct Config {
    /// Appended to every host to form its hostname.
    pub suffix: String,
    /// The class of the Ingresses that are served.
    pub ingress_class: String,
    /// The name of the ingress controller's Service.
    pub controller_service_name: String,
    /// The namespace in which the ingress controller's Service is looked for.
    pub controller_namespace: String,
}

impl Config {
    /// The settings for a given suffix: Ingresses of class `internal`, served by the Service
    /// `ingress-nginx-internal-controller` of the namespace `kube-system`.
    pub fn new(suffix: &str) -> (config: Config)
        ensures
            config.suffix@ == suffix@,
            config.ingress_class@ == "internal"@,
            config.controller_service_name@ == "ingress-nginx-internal-controller"@,
            config.controller_namespace@ == "kube-system"@,
    {
        Config {
            suffix: String::from_str(suffix),
            ingress_class: String::from_str("internal"),
            controller_service_name: String::from_str("ingress-nginx-internal-controller"),
            controller_namespace: String::from_str("kube-system"),
        }
    }
}

/// The suffix that a configured domain stands for: a dot and the domain, or nothing at all
/// where no domain is configured.
pub open spec fn suffix_of(domain: Option<Seq<char>>) -> Seq<char> {
    match domain {
        Some(domain) => "."@ + domain,
        None => Seq::empty(),
    }
}

/// Makes the hostname suffix from the domain that was configured, if one was.
pub fn suffix_for(domain: Option<&str>) -> (suffix: CompactString)
    ensures
        chars_of(suffix) == suffix_of(domain.deep_view()),
{
    match domain {
        Some(domain) => {
            let mut suffix: CompactString = CompactString::from(".");
            suffix.push_str(domain);
            suffix
        },
        None => {
            proof {
                reveal_strlit("");
            }
            CompactString::from("")
        },
    }
}

} // verus!
