//! Plain-value records for the domain entities a selected host can list:
//! services and their metrics, limits, mapping rules and application plans.
//! They are carried by the shell but never interpreted by the navigation
//! engine; the lists start out unfetched (`None`) and are cached once fetched.

use vstd::prelude::*;
use crate::actions::straitjacket::Method;

verus! {

/// A usage limit on a metric.
#[derive(Clone, Debug)]
pub struct Limit {
    pub metric_id: u64,
    pub period: String,
    pub value: u64,
}

/// A metric tracked by a service.
#[derive(Clone, Debug)]
pub struct Metric {
    pub id: u64,
    pub system_name: String,
}

/// A rule mapping an HTTP request shape onto a metric.
#[derive(Clone, Debug)]
pub struct MappingRule {
    pub http_method: Method,
    pub pattern: String,
    pub metric_id: u64,
    pub delta: u64,
}

/// A plan an application can subscribe to.
#[derive(Clone, Debug)]
pub struct ApplicationPlan {
    pub id: u64,
    pub name: String,
}

/// A service exposed by a host, with its lazily-fetched detail lists.
#[derive(Clone, Debug)]
pub struct Service {
    pub id: u64,
    pub name: String,
    pub mapping_rules: Option<Vec<MappingRule>>,
    pub metrics: Option<Vec<Metric>>,
    pub limits: Option<Vec<Limit>>,
    pub application_plans: Option<Vec<ApplicationPlan>>,
}

} // verus!
