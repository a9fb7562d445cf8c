//! What the provisioning of an instance in the cluster is called and
//! sized as.

use vstd::prelude::*;
use crate::number::{decimal, decimal_string};
use crate::text::{chars_of, join2, join3, optional_text, same_text, string_of};

verus! {

/// What is to be deployed for an instance.
#[derive(Debug, Clone, PartialEq, Eq)]
pub struct RedisDeploymentConfig {
    pub name: String,
    pub slug: String,
    pub namespace: String,
    pub organization_id: String,
    pub instance_id: String,
    pub redis_version: String,
    /// The memory of the instance, in bytes.
    pub max_memory: i64,
    pub redis_password: String,
    pub port: i32,
}

/// What was deployed for an instance.
#[derive(Debug, Clone, PartialEq, Eq)]
pub struct K8sDeploymentResult {
    pub deployment_name: String,
    pub service_name: String,
    pub ingress_name: String,
    pub namespace: String,
    pub port: i32,
    pub domain: String,
}

/// How a deployment fares.
#[derive(Debug, Clone, Copy, PartialEq, Eq, Structural)]
pub enum DeploymentStatus {
    Running,
    Pending,
    Unknown,
    Failed,
}

/// What the cluster says of the replicas of a deployment.
#[derive(Debug, Clone, Copy, PartialEq, Eq, Structural)]
pub struct ReplicaCounts {
    pub ready: Option<i32>,
    pub total: Option<i32>,
}

/// The bytes of a mebibyte.
pub const MEBIBYTE: i64 = 1_048_576;

/// The least memory that is requested for an instance, in mebibytes.
pub const LEAST_REQUEST_MEBIBYTES: i64 = 64;

/// A text without its hyphens.
pub open spec fn without_hyphens(s: Seq<char>) -> Seq<char>
    decreases s.len(),
{
    if s.len() == 0 {
        Seq::empty()
    } else if s.last() == '-' {
        without_hyphens(s.drop_last())
    } else {
        without_hyphens(s.drop_last()).push(s.last())
    }
}

/// The name of the deployment of an instance.
pub open spec fn deployment_name_of(slug: Seq<char>) -> Seq<char> {
    "redis-"@ + slug
}

/// The name of the service of an instance.
pub open spec fn service_name_of(slug: Seq<char>) -> Seq<char> {
    "redis-"@ + slug + "-service"@
}

/// The name of the ingress of an instance.
pub open spec fn ingress_name_of(slug: Seq<char>) -> Seq<char> {
    "redis-"@ + slug + "-ingress"@
}

/// The name of the secret of an instance.
pub open spec fn secret_name_of(slug: Seq<char>) -> Seq<char> {
    "redis-"@ + slug + "-secret"@
}

/// The namespace of an organization.
pub open spec fn namespace_of(organization_id: Seq<char>) -> Seq<char> {
    "redis-"@ + without_hyphens(organization_id)
}

/// The domain of an instance.
pub open spec fn domain_of(slug: Seq<char>, organization_id: Seq<char>) -> Seq<char> {
    slug + "."@ + without_hyphens(organization_id) + ".redis.local"@
}

/// The quotient of a division that rounds towards zero.
pub open spec fn quotient(a: int, b: int) -> int
    recommends
        b > 0,
{
    if a >= 0 {
        a / b
    } else {
        -((-a) / b)
    }
}

/// The memory that an instance is limited to, in whole mebibytes.
pub open spec fn limit_mebibytes(max_memory: int) -> int {
    quotient(max_memory, MEBIBYTE as int)
}

/// The memory that is requested for an instance, in mebibytes: half its
/// limit, and 64 at the least.
pub open spec fn request_mebibytes(max_memory: int) -> int {
    if quotient(limit_mebibytes(max_memory), 2) >= LEAST_REQUEST_MEBIBYTES {
        quotient(limit_mebibytes(max_memory), 2)
    } else {
        LEAST_REQUEST_MEBIBYTES as int
    }
}

/// How a deployment fares, by what the cluster says of it: one that the
/// cluster does not know has failed; one with a ready replica runs; one
/// with a replica that is not ready is pending.
pub open spec fn status_of_deployment(found: Option<ReplicaCounts>) -> DeploymentStatus {
    match found {
        None => DeploymentStatus::Failed,
        Some(counts) => if counts.ready is Some && counts.ready->0 > 0 {
            DeploymentStatus::Running
        } else if counts.total is Some && counts.total->0 > 0 {
            DeploymentStatus::Pending
        } else {
            DeploymentStatus::Unknown
        },
    }
}

/// The word for a status.
pub open spec fn status_word(status: DeploymentStatus) -> Seq<char> {
    match status {
        DeploymentStatus::Running => "running"@,
        DeploymentStatus::Pending => "pending"@,
        DeploymentStatus::Unknown => "unknown"@,
        DeploymentStatus::Failed => "failed"@,
    }
}

/// A text without its hyphens.
pub fn strip_hyphens(s: &str) -> (r: String)
    ensures
        r@ == without_hyphens(s@),
{
    let chars = chars_of(s);
    let mut out: Vec<char> = Vec::new();
    let mut i: usize = 0;
    assert(chars@.take(0) =~= Seq::<char>::empty());
    while i < chars.len()
        invariant
            i <= chars.len(),
            out@ == without_hyphens(chars@.take(i as int)),
        decreases chars.len() - i,
    {
        let ghost next = chars@.take(i + 1);
        assert(next.drop_last() == chars@.take(i as int));
        assert(next.last() == chars@[i as int]);
        if chars[i] != '-' {
            out.push(chars[i]);
        }
        i += 1;
    }
    assert(chars@.take(chars.len() as int) == chars@);
    string_of(&out)
}

/// The name of the deployment of an instance.
pub fn deployment_name(slug: &str) -> (r: String)
    ensures
        r@ == deployment_name_of(slug@),
{
    join2("redis-", slug)
}

/// The name of the service of an instance.
pub fn service_name(slug: &str) -> (r: String)
    ensures
        r@ == service_name_of(slug@),
{
    join3("redis-", slug, "-service")
}

/// The name of the ingress of an instance.
pub fn ingress_name(slug: &str) -> (r: String)
    ensures
        r@ == ingress_name_of(slug@),
{
    join3("redis-", slug, "-ingress")
}

/// The name of the secret of an instance.
pub fn secret_name(slug: &str) -> (r: String)
    ensures
        r@ == secret_name_of(slug@),
{
    join3("redis-", slug, "-secret")
}

/// The namespace of an organization.
pub fn organization_namespace(organization_id: &str) -> (r: String)
    ensures
        r@ == namespace_of(organization_id@),
{
    let plain = strip_hyphens(organization_id);
    join2("redis-", plain.as_str())
}

/// The domain of an instance.
pub fn instance_domain(slug: &str, organization_id: &str) -> (r: String)
    ensures
        r@ == domain_of(slug@, organization_id@),
{
    let plain = strip_hyphens(organization_id);
    let mut r = slug.to_string();
    r.append(".");
    r.append(plain.as_str());
    r.append(".redis.local");
    assert(r@ =~= domain_of(slug@, organization_id@));
    r
}

impl RedisDeploymentConfig {
    /// The memory limit of the container, as the cluster reads it.
    pub fn memory_limit(&self) -> (r: String)
        ensures
            r@ == decimal(limit_mebibytes(self.max_memory as int)) + "Mi"@,
    {
        let amount = decimal_string(self.max_memory / MEBIBYTE);
        join2(amount.as_str(), "Mi")
    }

    /// The memory request of the container, as the cluster reads it.
    pub fn memory_request(&self) -> (r: String)
        ensures
            r@ == decimal(request_mebibytes(self.max_memory as int)) + "Mi"@,
    {
        let half = self.max_memory / MEBIBYTE / 2;
        let amount = if half >= LEAST_REQUEST_MEBIBYTES {
            half
        } else {
            LEAST_REQUEST_MEBIBYTES
        };
        let text = decimal_string(amount);
        join2(text.as_str(), "Mi")
    }

    /// What deploying this instance results in.
    pub fn planned_result(&self) -> (r: K8sDeploymentResult)
        ensures
            r.deployment_name@ == deployment_name_of(self.slug@),
            r.service_name@ == service_name_of(self.slug@),
            r.ingress_name@ == ingress_name_of(self.slug@),
            r.namespace@ == self.namespace@,
            r.port == self.port,
            r.domain@ == domain_of(self.slug@, self.organization_id@),
    {
        K8sDeploymentResult {
            deployment_name: deployment_name(self.slug.as_str()),
            service_name: service_name(self.slug.as_str()),
            ingress_name: ingress_name(self.slug.as_str()),
            namespace: self.namespace.clone(),
            port: self.port,
            domain: instance_domain(self.slug.as_str(), self.organization_id.as_str()),
        }
    }
}

/// How a deployment fares, by what the cluster says of it.
pub fn deployment_status(found: Option<ReplicaCounts>) -> (r: DeploymentStatus)
    ensures
        r == status_of_deployment(found),
{
    match found {
        None => DeploymentStatus::Failed,
        Some(counts) => {
            if let Some(ready) = counts.ready {
                if ready > 0 {
                    return DeploymentStatus::Running;
                }
            }
            if let Some(total) = counts.total {
                if total > 0 {
                    return DeploymentStatus::Pending;
                }
            }
            DeploymentStatus::Unknown
        },
    }
}

/// Whether the status that is stored for an instance is to be changed
/// to the status that was found: where none is stored, or another.
pub fn status_changed(stored: Option<&str>, found: DeploymentStatus) -> (r: bool)
    ensures
        r == (optional_text(stored) != Some(status_word(found))),
{
    match stored {
        Some(word) => {
            let current = found.word();
            !same_text(word, current.as_str())
        },
        None => true,
    }
}

impl DeploymentStatus {
    /// The word for this status.
    pub fn word(&self) -> (r: String)
        ensures
            r@ == status_word(*self),
    {
        match self {
            DeploymentStatus::Running => "running".to_string(),
            DeploymentStatus::Pending => "pending".to_string(),
            DeploymentStatus::Unknown => "unknown".to_string(),
            DeploymentStatus::Failed => "failed".to_string(),
        }
    }
}

} // verus!
