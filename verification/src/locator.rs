//! The service locator: from what the registry and the cluster say of an
//! instance to the endpoint at which its Redis is reached.

use vstd::prelude::*;
use crate::error::{ErrorModel, GatewayError};
use crate::gate::{EndpointHint, InstanceDescriptor, InstanceStatus};
use crate::number::{decimal_digits, push_decimal_digits};
use crate::text::{same_text, string_of, texts};

verus! {

/// Where the Redis of an instance is reached, and with which password.
#[derive(Debug, Clone, PartialEq, Eq)]
pub struct Endpoint {
    pub host: String,
    pub port: u16,
    pub password: Option<String>,
}

/// What the cluster says of a service: its name, its namespace and the
/// ports it declares, in their order.
#[derive(Debug, Clone, PartialEq, Eq)]
pub struct ServiceInfo {
    pub name: Option<String>,
    pub namespace: Option<String>,
    pub ports: Vec<i32>,
}

/// The outcome of asking the cluster for a service.
#[derive(Debug, Clone, PartialEq, Eq)]
pub enum ServiceLookup {
    Found(ServiceInfo),
    /// The cluster could not be asked, or did not answer.
    Failed(String),
}

/// A port of this machine that stands for an instance outside a cluster.
#[derive(Debug, Clone, PartialEq, Eq)]
pub struct LocalPort {
    pub slug: String,
    pub port: u16,
}

/// What the deployment gives the locator to work with.
#[derive(Debug, Clone, PartialEq, Eq)]
pub struct Surroundings {
    /// Whether the gateway runs inside the cluster.
    pub in_cluster: bool,
    /// The password to use where an instance names no secret.
    pub default_password: Option<String>,
    /// The ports that stand for instances outside a cluster.
    pub local_ports: Vec<LocalPort>,
}

/// The suffix that makes a service and its namespace a host name.
pub open spec fn cluster_suffix() -> Seq<char> {
    ".svc.cluster.local"@
}

/// The host name of a service of the cluster.
pub open spec fn service_host(name: Seq<char>, namespace: Seq<char>) -> Seq<char> {
    name + seq!['.'] + namespace + cluster_suffix()
}

/// The port that stands for `slug` outside a cluster: that of the first
/// entry with this slug.
pub open spec fn local_port(ports: Seq<LocalPort>, slug: Seq<char>) -> Option<u16>
    decreases ports.len(),
{
    if ports.len() == 0 {
        None
    } else if ports[0].slug@ == slug {
        Some(ports[0].port)
    } else {
        local_port(ports.drop_first(), slug)
    }
}

/// The password for an instance: that of its secret where it names one
/// and the secret was read, else the default one, else none.
pub open spec fn password_for(
    secret_ref: Option<String>,
    secret: Option<String>,
    default_password: Option<String>,
) -> Option<String> {
    if secret_ref is Some && secret is Some {
        secret
    } else {
        default_password
    }
}

/// The host and port at which the service of an instance is reached: its
/// name and namespace as a cluster host name, on the first port that it
/// declares. Where the cluster gives the service no name or no namespace,
/// the instance is not found.
pub open spec fn service_address(service: ServiceInfo, instance: Seq<char>) -> Result<
    (Seq<char>, u16),
    ErrorModel,
> {
    if service.name is None || service.namespace is None {
        Err(ErrorModel::InstanceNotFound(instance))
    } else if service.ports@.len() == 0 {
        Err(ErrorModel::ServiceDiscoveryFailed("Service has no ports"@))
    } else if !(1 <= service.ports@[0] <= 65535) {
        Err(ErrorModel::ServiceDiscoveryFailed("Service port is out of range"@))
    } else {
        Ok((service_host(service.name->0@, service.namespace->0@), service.ports@[0] as u16))
    }
}

/// The host and port of an instance. One that the registry does not
/// hold, or holds as deleted, is not found. Inside the cluster an instance
/// that names a service is reached at that service, as the cluster
/// describes it, and one that names a host and port at those. Outside the
/// cluster an instance is reached at the local port that stands for its
/// slug.
pub open spec fn address_of(
    descriptor: Option<InstanceDescriptor>,
    instance_id: Seq<char>,
    surroundings: Surroundings,
    service: Option<ServiceLookup>,
) -> Result<(Seq<char>, u16), ErrorModel> {
    match descriptor {
        None => Err(ErrorModel::InstanceNotFound(instance_id)),
        Some(d) => if d.status == InstanceStatus::Deleted {
            Err(ErrorModel::InstanceNotFound(instance_id))
        } else if surroundings.in_cluster {
            match d.endpoint_hint {
                EndpointHint::Direct { host, port } => Ok((host@, port)),
                EndpointHint::Service { name, namespace } => match service {
                    None => Err(ErrorModel::ServiceDiscoveryFailed("Service was not looked up"@)),
                    Some(ServiceLookup::Failed(why)) => Err(
                        ErrorModel::ServiceDiscoveryFailed(why@),
                    ),
                    Some(ServiceLookup::Found(info)) => service_address(info, instance_id),
                },
            }
        } else {
            match local_port(surroundings.local_ports@, d.slug@) {
                Some(port) => Ok(("localhost"@, port)),
                None => Err(ErrorModel::InstanceNotFound(instance_id)),
            }
        },
    }
}

/// The URL of an endpoint: `redis://host:port`, with `:password@` before
/// the host where there is a password.
pub open spec fn url_of(endpoint: Endpoint) -> Seq<char> {
    let address = endpoint.host@ + seq![':'] + decimal_digits(endpoint.port as nat);
    match endpoint.password {
        Some(password) => "redis://:"@ + password@ + seq!['@'] + address,
        None => "redis://"@ + address,
    }
}

/// The local ports of a development set-up: the replicas on 6379, the
/// master on 6380.
pub fn default_local_ports() -> (r: Vec<LocalPort>)
    ensures
        r@.len() == 2,
        r@[0].slug@ == "my-redis-replicas"@ && r@[0].port == 6379,
        r@[1].slug@ == "my-redis-master"@ && r@[1].port == 6380,
{
    let mut r: Vec<LocalPort> = Vec::new();
    r.push(LocalPort { slug: "my-redis-replicas".to_string(), port: 6379 });
    r.push(LocalPort { slug: "my-redis-master".to_string(), port: 6380 });
    r
}

/// Finds the local port that stands for `slug`.
pub fn find_local_port(ports: &Vec<LocalPort>, slug: &str) -> (r: Option<u16>)
    ensures
        r == local_port(ports@, slug@),
{
    let mut i: usize = 0;
    assert(ports@.skip(0) == ports@);
    while i < ports.len()
        invariant
            i <= ports.len(),
            local_port(ports@, slug@) == local_port(ports@.skip(i as int), slug@),
        decreases ports.len() - i,
    {
        assert(ports@.skip(i as int)[0] == ports@[i as int]);
        if same_text(ports[i].slug.as_str(), slug) {
            return Some(ports[i].port);
        }
        assert(ports@.skip(i as int).drop_first() == ports@.skip(i + 1));
        i += 1;
    }
    assert(ports@.skip(i as int).len() == 0);
    None
}

/// The host and port at which the service of the instance `instance` is
/// reached.
pub fn resolve_service(service: &ServiceInfo, instance: &str) -> (r: Result<
    (String, u16),
    GatewayError,
>)
    ensures
        (match r {
            Ok(address) => Ok((address.0@, address.1)),
            Err(e) => Err(e@),
        }) == service_address(*service, instance@),
{
    let (name, namespace) = match (&service.name, &service.namespace) {
        (Some(name), Some(namespace)) => (name, namespace),
        _ => {
            return Err(GatewayError::InstanceNotFound(instance.to_string()));
        },
    };
    if service.ports.len() == 0 {
        return Err(GatewayError::ServiceDiscoveryFailed("Service has no ports".to_string()));
    }
    let port = service.ports[0];
    if port < 1 || port > 65535 {
        return Err(
            GatewayError::ServiceDiscoveryFailed("Service port is out of range".to_string()),
        );
    }
    let mut host = name.clone();
    host.append(".");
    host.append(namespace.as_str());
    host.append(".svc.cluster.local");
    proof {
        reveal_strlit(".");
        assert("."@ =~= seq!['.']);
    }
    Ok((host, port as u16))
}

/// The password for an instance.
pub fn choose_password(
    secret_ref: &Option<String>,
    secret: Option<String>,
    default_password: &Option<String>,
) -> (r: Option<String>)
    ensures
        r == password_for(*secret_ref, secret, *default_password),
{
    if secret_ref.is_some() && secret.is_some() {
        secret
    } else {
        default_password.clone()
    }
}

/// Resolves the endpoint of an instance from what the registry returned
/// for it, what the cluster said of its service where it was asked, and
/// the password of its secret where it was read.
pub fn locate(
    descriptor: Option<&InstanceDescriptor>,
    instance_id: &str,
    surroundings: &Surroundings,
    service: Option<ServiceLookup>,
    secret: Option<String>,
) -> (r: Result<Endpoint, GatewayError>)
    ensures
        match address_of(
            match descriptor {
                Some(d) => Some(*d),
                None => None,
            },
            instance_id@,
            *surroundings,
            service,
        ) {
            Err(e) => r is Err && r->Err_0@ == e,
            Ok(address) => r is Ok && r->Ok_0.host@ == address.0 && r->Ok_0.port == address.1
                && r->Ok_0.password == password_for(
                descriptor->0.auth_secret_ref,
                secret,
                surroundings.default_password,
            ),
        },
{
    let d = match descriptor {
        None => {
            return Err(GatewayError::InstanceNotFound(instance_id.to_string()));
        },
        Some(d) => d,
    };
    if d.status == InstanceStatus::Deleted {
        return Err(GatewayError::InstanceNotFound(instance_id.to_string()));
    }
    let address: (String, u16) = if surroundings.in_cluster {
        match &d.endpoint_hint {
            EndpointHint::Direct { host, port } => (host.clone(), *port),
            EndpointHint::Service { name: _, namespace: _ } => match service {
                None => {
                    return Err(
                        GatewayError::ServiceDiscoveryFailed(
                            "Service was not looked up".to_string(),
                        ),
                    );
                },
                Some(ServiceLookup::Failed(why)) => {
                    return Err(GatewayError::ServiceDiscoveryFailed(why));
                },
                Some(ServiceLookup::Found(info)) => match resolve_service(&info, instance_id) {
                    Ok(address) => address,
                    Err(e) => {
                        return Err(e);
                    },
                },
            },
        }
    } else {
        match find_local_port(&surroundings.local_ports, d.slug.as_str()) {
            Some(port) => ("localhost".to_string(), port),
            None => {
                return Err(GatewayError::InstanceNotFound(instance_id.to_string()));
            },
        }
    };
    let password = choose_password(&d.auth_secret_ref, secret, &surroundings.default_password);
    Ok(Endpoint { host: address.0, port: address.1, password })
}

impl Endpoint {
    /// The URL of this endpoint.
    pub fn url(&self) -> (r: String)
        ensures
            r@ == url_of(*self),
    {
        let mut digits: Vec<char> = Vec::new();
        push_decimal_digits(&mut digits, self.port as u64);
        assert(digits@ == decimal_digits(self.port as nat)) by {
            assert(Seq::<char>::empty() + decimal_digits(self.port as nat) == decimal_digits(
                self.port as nat,
            ));
        }
        let port = string_of(&digits);
        let mut r = String::new();
        proof {
            reveal_strlit(":");
            reveal_strlit("@");
            assert(":"@ =~= seq![':']);
            assert("@"@ =~= seq!['@']);
        }
        match &self.password {
            Some(password) => {
                r.append("redis://:");
                r.append(password.as_str());
                r.append("@");
                r.append(self.host.as_str());
                r.append(":");
                r.append(port.as_str());
                assert(r@ =~= url_of(*self));
            },
            None => {
                r.append("redis://");
                r.append(self.host.as_str());
                r.append(":");
                r.append(port.as_str());
                assert(r@ =~= url_of(*self));
            },
        }
        r
    }
}

/// A label of a service of the cluster.
#[derive(Debug, Clone, PartialEq, Eq)]
pub struct Label {
    pub key: String,
    pub value: String,
}

/// The labels of a service of the cluster.
#[derive(Debug, Clone, PartialEq, Eq)]
pub struct ServiceLabels {
    pub labels: Vec<Label>,
}

/// The label that names the instance of a service.
pub open spec fn instance_label() -> Seq<char> {
    "instance"@
}

/// The value of the first label with the key `key`.
pub open spec fn label_value(labels: Seq<Label>, key: Seq<char>) -> Option<Seq<char>>
    decreases labels.len(),
{
    if labels.len() == 0 {
        None
    } else if labels[0].key@ == key {
        Some(labels[0].value@)
    } else {
        label_value(labels.drop_first(), key)
    }
}

/// The instances that a list of services names, in its order: for each
/// service that has the label `instance`, the value of that label.
pub open spec fn named_instances(services: Seq<ServiceLabels>) -> Seq<Seq<char>>
    decreases services.len(),
{
    if services.len() == 0 {
        Seq::empty()
    } else {
        match label_value(services.last().labels@, instance_label()) {
            Some(name) => named_instances(services.drop_last()).push(name),
            None => named_instances(services.drop_last()),
        }
    }
}

/// The value of the first label with the key `key`.
pub fn find_label(labels: &Vec<Label>, key: &str) -> (r: Option<String>)
    ensures
        (match r {
            Some(value) => Some(value@),
            None => None,
        }) == label_value(labels@, key@),
{
    let mut i: usize = 0;
    assert(labels@.skip(0) == labels@);
    while i < labels.len()
        invariant
            i <= labels.len(),
            label_value(labels@, key@) == label_value(labels@.skip(i as int), key@),
        decreases labels.len() - i,
    {
        assert(labels@.skip(i as int)[0] == labels@[i as int]);
        if same_text(labels[i].key.as_str(), key) {
            return Some(labels[i].value.clone());
        }
        assert(labels@.skip(i as int).drop_first() == labels@.skip(i + 1));
        i += 1;
    }
    assert(labels@.skip(i as int).len() == 0);
    None
}

/// The instances that a list of services names.
pub fn discover_instances(services: &Vec<ServiceLabels>) -> (r: Vec<String>)
    ensures
        texts(r@) == named_instances(services@),
{
    let mut r: Vec<String> = Vec::new();
    let mut i: usize = 0;
    assert(services@.take(0) =~= Seq::<ServiceLabels>::empty());
    assert(texts(r@) =~= Seq::<Seq<char>>::empty());
    while i < services.len()
        invariant
            i <= services.len(),
            texts(r@) == named_instances(services@.take(i as int)),
        decreases services.len() - i,
    {
        let ghost before = texts(r@);
        let ghost next = services@.take(i + 1);
        assert(next.drop_last() == services@.take(i as int));
        assert(next.last() == services@[i as int]);
        match find_label(&services[i].labels, "instance") {
            Some(name) => {
                r.push(name);
                assert(texts(r@) =~= before.push(name@));
            },
            None => {},
        }
        i += 1;
    }
    assert(services@.take(services.len() as int) == services@);
    r
}

/// The service that the cluster is to be asked for before an instance
/// can be located: the one that the instance names, where the gateway
/// runs inside the cluster and the instance is live.
pub open spec fn service_wanted(descriptor: InstanceDescriptor, in_cluster: bool) -> Option<
    (Seq<char>, Seq<char>),
> {
    if in_cluster && descriptor.status != InstanceStatus::Deleted {
        match descriptor.endpoint_hint {
            EndpointHint::Service { name, namespace } => Some((name@, namespace@)),
            EndpointHint::Direct { host, port } => None,
        }
    } else {
        None
    }
}

/// The name and the namespace of the service that the cluster is to be
/// asked for before the instance can be located.
pub fn service_to_look_up(descriptor: &InstanceDescriptor, in_cluster: bool) -> (r: Option<
    (String, String),
>)
    ensures
        (match r {
            Some(wanted) => Some((wanted.0@, wanted.1@)),
            None => None,
        }) == service_wanted(*descriptor, in_cluster),
{
    if !in_cluster || descriptor.status == InstanceStatus::Deleted {
        return None;
    }
    match &descriptor.endpoint_hint {
        EndpointHint::Service { name, namespace } => Some((name.clone(), namespace.clone())),
        EndpointHint::Direct { host: _, port: _ } => None,
    }
}

} // verus!
