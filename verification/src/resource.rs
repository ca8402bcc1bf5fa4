//! The cluster objects that the record streams read, reduced to the fields they use.
use vstd::prelude::*;

verus! {

/// A Service: its name, its namespace and its cluster address, each of which may be unset.
#[derive(Clone, Debug, PartialEq, Eq)]
pub struct Service {
    pub name: Option<String>,
    pub namespace: Option<String>,
    pub cluster_ip: Option<String>,
}

/// One routing rule of an Ingress.
#[derive(Clone, Debug, PartialEq, Eq)]
pub struct IngressRule {
    pub host: Option<String>,
}

/// An Ingress: the class that selects its controller, and its rules.
#[derive(Clone, Debug, PartialEq, Eq)]
pub struct Ingress {
    pub ingress_class_name: Option<String>,
    pub rules: Option<Vec<IngressRule>>,
}

/// A `Service` as text.
pub struct ServiceView {
    pub name: Option<Seq<char>>,
    pub namespace: Option<Seq<char>>,
    pub cluster_ip: Option<Seq<char>>,
}

/// An `IngressRule` as text.
pub struct IngressRuleView {
    pub host: Option<Seq<char>>,
}

/// An `Ingress` as text.
pub struct IngressView {
    pub ingress_class_name: Option<Seq<char>>,
    pub rules: Option<Seq<IngressRuleView>>,
}

impl DeepView for Service {
    type V = ServiceView;

    open spec fn deep_view(&self) -> ServiceView {
        ServiceView {
            name: self.name.deep_view(),
            namespace: self.namespace.deep_view(),
            cluster_ip: self.cluster_ip.deep_view(),
        }
    }
}

impl View for Service {
    type V = ServiceView;

    open spec fn view(&self) -> ServiceView {
        self.deep_view()
    }
}

impl DeepView for IngressRule {
    type V = IngressRuleView;

    open spec fn deep_view(&self) -> IngressRuleView {
        IngressRuleView { host: self.host.deep_view() }
    }
}

impl View for IngressRule {
    type V = IngressRuleView;

    open spec fn view(&self) -> IngressRuleView {
        self.deep_view()
    }
}

impl DeepView for Ingress {
    type V = IngressView;

    open spec fn deep_view(&self) -> IngressView {
        IngressView {
            ingress_class_name: self.ingress_class_name.deep_view(),
            rules: self.rules.deep_view(),
        }
    }
}

impl View for Ingress {
    type V = IngressView;

    open spec fn view(&self) -> IngressView {
        self.deep_view()
    }
}

/// Whether a Service's address can be routed to: it is set, and is not the word that marks
/// a headless Service.
pub open spec fn routable(address: Option<Seq<char>>) -> bool {
    address is Some && address->0 != "None"@
}

} // verus!
