//! The rules of the management routes: what a request must hold, who
//! may do what, how many things an organization may have, and how lists
//! are cut into pages.

use vstd::prelude::*;
use vstd::string::StrSliceExecFns;
use crate::k8s::{
    deployment_name, deployment_name_of, domain_of, instance_domain, namespace_of,
    organization_namespace, service_name, service_name_of,
};
use crate::text::{chars_of, same_text};

verus! {

/// Registration of a user.
#[derive(Debug, Clone, PartialEq, Eq)]
pub struct RegisterRequest {
    pub email: String,
    pub username: String,
    pub password: String,
    pub first_name: Option<String>,
    pub last_name: Option<String>,
}

/// Login of a user.
#[derive(Debug, Clone, PartialEq, Eq)]
pub struct LoginRequest {
    pub email: String,
    pub password: String,
}

/// Creation of an organization, or a change to one.
#[derive(Debug, Clone, PartialEq, Eq)]
pub struct CreateOrganizationRequest {
    pub name: String,
    pub slug: String,
    pub description: Option<String>,
}

/// A field of a request.
#[derive(Debug, Clone, Copy, PartialEq, Eq, Structural)]
pub enum Field {
    Email,
    Username,
    Password,
    FirstName,
    LastName,
    Name,
    Slug,
    Description,
    MaxMemory,
}

/// A rule that a field must meet.
#[derive(Debug, Clone, Copy, PartialEq, Eq, Structural)]
pub enum Rule {
    /// The field is an e-mail address.
    Email,
    /// The field has a number of characters within its bounds.
    Length,
    /// The field is made of the characters that it may hold.
    Pattern,
    /// The field is a number within its bounds.
    Range,
}

/// A field that does not meet a rule.
#[derive(Debug, Clone, Copy, PartialEq, Eq, Structural)]
pub struct FieldError {
    pub field: Field,
    pub rule: Rule,
}

/// Whether `validator::validate_email` takes a text for an e-mail
/// address.
pub uninterp spec fn email_is_valid(s: Seq<char>) -> bool;

/// `validator::validate_email` tells whether a text is an e-mail
/// address: a user part and a domain part around the last `@`, each of
/// the form and length that the crate asks for. The same text always
/// gives the same answer.
#[verifier::external_body]
fn check_email(s: &str) -> (r: bool)
    ensures
        r == email_is_valid(s@),
{
    validator::validate_email(s)
}

/// Whether a character may stand in a slug: a lower-case letter, a digit
/// or a hyphen.
pub open spec fn is_slug_char(c: char) -> bool {
    ('a' <= c <= 'z') || ('0' <= c <= '9') || c == '-'
}

/// Whether a text is a slug: one character or more, each of which may
/// stand in a slug.
pub open spec fn is_slug(s: Seq<char>) -> bool {
    s.len() >= 1 && forall|i: int| 0 <= i < s.len() ==> is_slug_char(#[trigger] s[i])
}

/// Whether a text is a slug.
pub fn matches_slug_pattern(s: &str) -> (r: bool)
    ensures
        r == is_slug(s@),
{
    let chars = chars_of(s);
    if chars.len() == 0 {
        return false;
    }
    let mut i: usize = 0;
    while i < chars.len()
        invariant
            i <= chars.len(),
            chars@ == s@,
            forall|j: int| 0 <= j < i ==> is_slug_char(#[trigger] chars@[j]),
        decreases chars.len() - i,
    {
        let c = chars[i];
        if !(('a' <= c && c <= 'z') || ('0' <= c && c <= '9') || c == '-') {
            assert(!is_slug_char(chars@[i as int]));
            return false;
        }
        i += 1;
    }
    true
}

/// Whether a text has between `min` and `max` characters.
pub open spec fn length_within(s: Seq<char>, min: nat, max: nat) -> bool {
    min <= s.len() <= max
}

/// Whether a text that may be there has between `min` and `max`
/// characters, if it is there.
pub open spec fn optional_length_within(s: Option<String>, min: nat, max: nat) -> bool {
    match s {
        Some(t) => length_within(t@, min, max),
        None => true,
    }
}

/// The error of a field, if it does not meet a rule.
pub open spec fn unless(met: bool, field: Field, rule: Rule) -> Seq<FieldError> {
    if met {
        Seq::empty()
    } else {
        seq![FieldError { field, rule }]
    }
}

/// What is wrong with a registration: the e-mail address must be one;
/// the user name has 3 to 50 characters, the password 8 or more, and a
/// first or last name, where given, 1 to 50.
pub open spec fn registration_errors(
    request: RegisterRequest,
    email_ok: bool,
) -> Seq<FieldError> {
    unless(email_ok, Field::Email, Rule::Email) + unless(
        length_within(request.username@, 3, 50),
        Field::Username,
        Rule::Length,
    ) + unless(request.password@.len() >= 8, Field::Password, Rule::Length) + unless(
        optional_length_within(request.first_name, 1, 50),
        Field::FirstName,
        Rule::Length,
    ) + unless(optional_length_within(request.last_name, 1, 50), Field::LastName, Rule::Length)
}

/// What is wrong with a login: the e-mail address must be one, and the
/// password must not be empty.
pub open spec fn login_errors(request: LoginRequest, email_ok: bool) -> Seq<FieldError> {
    unless(email_ok, Field::Email, Rule::Email) + unless(
        request.password@.len() >= 1,
        Field::Password,
        Rule::Length,
    )
}

/// What is wrong with an organization: the name has 1 to 100 characters;
/// the slug has 1 to 50 and is a slug; a description, where given, has at
/// most 500.
pub open spec fn organization_errors(request: CreateOrganizationRequest) -> Seq<FieldError> {
    unless(length_within(request.name@, 1, 100), Field::Name, Rule::Length) + unless(
        length_within(request.slug@, 1, 50),
        Field::Slug,
        Rule::Length,
    ) + unless(is_slug(request.slug@), Field::Slug, Rule::Pattern) + unless(
        optional_length_within(request.description, 0, 500),
        Field::Description,
        Rule::Length,
    )
}

fn has_length(s: &str, min: usize, max: usize) -> (r: bool)
    ensures
        r == length_within(s@, min as nat, max as nat),
{
    let n = s.unicode_len();
    min <= n && n <= max
}

fn has_optional_length(s: &Option<String>, min: usize, max: usize) -> (r: bool)
    ensures
        r == optional_length_within(*s, min as nat, max as nat),
{
    match s {
        Some(t) => has_length(t.as_str(), min, max),
        None => true,
    }
}

fn note(errors: &mut Vec<FieldError>, met: bool, field: Field, rule: Rule)
    ensures
        final(errors)@ == old(errors)@ + unless(met, field, rule),
{
    if !met {
        errors.push(FieldError { field, rule });
        assert(errors@ =~= old(errors)@ + unless(met, field, rule));
    } else {
        assert(errors@ =~= old(errors)@ + unless(met, field, rule));
    }
}

impl RegisterRequest {
    /// What is wrong with this registration, given whether its e-mail
    /// address is one.
    pub fn errors_given(&self, email_ok: bool) -> (errors: Vec<FieldError>)
        ensures
            errors@ == registration_errors(*self, email_ok),
    {
        let mut errors: Vec<FieldError> = Vec::new();
        note(&mut errors, email_ok, Field::Email, Rule::Email);
        note(
            &mut errors,
            has_length(self.username.as_str(), 3, 50),
            Field::Username,
            Rule::Length,
        );
        note(&mut errors, self.password.as_str().unicode_len() >= 8, Field::Password, Rule::Length);
        note(
            &mut errors,
            has_optional_length(&self.first_name, 1, 50),
            Field::FirstName,
            Rule::Length,
        );
        note(
            &mut errors,
            has_optional_length(&self.last_name, 1, 50),
            Field::LastName,
            Rule::Length,
        );
        assert(errors@ =~= registration_errors(*self, email_ok));
        errors
    }

    /// What is wrong with this registration; nothing, where it is valid.
    pub fn validate(&self) -> (errors: Vec<FieldError>)
        ensures
            errors@ == registration_errors(*self, email_is_valid(self.email@)),
    {
        self.errors_given(check_email(self.email.as_str()))
    }
}

impl LoginRequest {
    /// What is wrong with this login, given whether its e-mail address is
    /// one.
    pub fn errors_given(&self, email_ok: bool) -> (errors: Vec<FieldError>)
        ensures
            errors@ == login_errors(*self, email_ok),
    {
        let mut errors: Vec<FieldError> = Vec::new();
        note(&mut errors, email_ok, Field::Email, Rule::Email);
        note(&mut errors, self.password.as_str().unicode_len() >= 1, Field::Password, Rule::Length);
        assert(errors@ =~= login_errors(*self, email_ok));
        errors
    }

    /// What is wrong with this login; nothing, where it is valid.
    pub fn validate(&self) -> (errors: Vec<FieldError>)
        ensures
            errors@ == login_errors(*self, email_is_valid(self.email@)),
    {
        self.errors_given(check_email(self.email.as_str()))
    }
}

impl CreateOrganizationRequest {
    /// What is wrong with this organization; nothing, where it is valid.
    pub fn validate(&self) -> (errors: Vec<FieldError>)
        ensures
            errors@ == organization_errors(*self),
    {
        let mut errors: Vec<FieldError> = Vec::new();
        note(&mut errors, has_length(self.name.as_str(), 1, 100), Field::Name, Rule::Length);
        note(&mut errors, has_length(self.slug.as_str(), 1, 50), Field::Slug, Rule::Length);
        note(&mut errors, matches_slug_pattern(self.slug.as_str()), Field::Slug, Rule::Pattern);
        note(
            &mut errors,
            has_optional_length(&self.description, 0, 500),
            Field::Description,
            Rule::Length,
        );
        assert(errors@ =~= organization_errors(*self));
        errors
    }
}

/// Creation of an API key.
#[derive(Debug, Clone, PartialEq, Eq)]
pub struct CreateApiKeyRequest {
    pub name: String,
    pub organization_id: String,
    pub scopes: Vec<String>,
    /// The second at which the key expires, where it does.
    pub expires_at: Option<i64>,
}

/// Creation of an instance.
#[derive(Debug, Clone, PartialEq, Eq)]
pub struct CreateRedisInstanceRequest {
    pub name: String,
    pub slug: String,
    pub organization_id: String,
    /// The memory of the instance, in bytes.
    pub max_memory: i64,
    pub redis_version: Option<String>,
    pub persistence_enabled: Option<bool>,
    pub backup_enabled: Option<bool>,
}

/// The least memory of an instance, in bytes: a mebibyte.
pub const LEAST_MEMORY: i64 = 1_048_576;

/// The most memory of an instance, in bytes: 16 gibibytes.
pub const MOST_MEMORY: i64 = 17_179_869_184;

/// What is wrong with a request for an API key: the name has 1 to 100
/// characters.
pub open spec fn api_key_errors(request: CreateApiKeyRequest) -> Seq<FieldError> {
    unless(length_within(request.name@, 1, 100), Field::Name, Rule::Length)
}

/// What is wrong with a request for an instance: the name has 1 to 100
/// characters; the slug has 1 to 50 and is a slug; the memory lies
/// between a mebibyte and 16 gibibytes.
pub open spec fn instance_errors(request: CreateRedisInstanceRequest) -> Seq<FieldError> {
    unless(length_within(request.name@, 1, 100), Field::Name, Rule::Length) + unless(
        length_within(request.slug@, 1, 50),
        Field::Slug,
        Rule::Length,
    ) + unless(is_slug(request.slug@), Field::Slug, Rule::Pattern) + unless(
        LEAST_MEMORY <= request.max_memory <= MOST_MEMORY,
        Field::MaxMemory,
        Rule::Range,
    )
}

impl CreateApiKeyRequest {
    /// What is wrong with this request; nothing, where it is valid.
    pub fn validate(&self) -> (errors: Vec<FieldError>)
        ensures
            errors@ == api_key_errors(*self),
    {
        let mut errors: Vec<FieldError> = Vec::new();
        note(&mut errors, has_length(self.name.as_str(), 1, 100), Field::Name, Rule::Length);
        assert(errors@ =~= api_key_errors(*self));
        errors
    }
}

/// What is stored of a new instance before it is deployed.
#[derive(Debug, Clone, PartialEq, Eq)]
pub struct InstancePlan {
    pub redis_version: String,
    pub persistence_enabled: bool,
    pub backup_enabled: bool,
    pub namespace: String,
    pub port: i32,
    pub domain: String,
    pub deployment_name: String,
    pub service_name: String,
    pub status: String,
    pub health_status: String,
    pub max_connections: i32,
}

impl CreateRedisInstanceRequest {
    /// What is wrong with this request; nothing, where it is valid.
    pub fn validate(&self) -> (errors: Vec<FieldError>)
        ensures
            errors@ == instance_errors(*self),
    {
        let mut errors: Vec<FieldError> = Vec::new();
        note(&mut errors, has_length(self.name.as_str(), 1, 100), Field::Name, Rule::Length);
        note(&mut errors, has_length(self.slug.as_str(), 1, 50), Field::Slug, Rule::Length);
        note(&mut errors, matches_slug_pattern(self.slug.as_str()), Field::Slug, Rule::Pattern);
        note(
            &mut errors,
            LEAST_MEMORY <= self.max_memory && self.max_memory <= MOST_MEMORY,
            Field::MaxMemory,
            Rule::Range,
        );
        assert(errors@ =~= instance_errors(*self));
        errors
    }

    /// What is stored of the instance before it is deployed: version 7.2
    /// and persistence unless the request says otherwise, no backup unless
    /// it asks for one, the port 6379, the namespace of the organization,
    /// names after the slug, the status `creating` and an unknown health,
    /// and room for 100 connections.
    pub fn plan(&self) -> (r: InstancePlan)
        ensures
            r.redis_version@ == (match self.redis_version {
                Some(v) => v@,
                None => "7.2"@,
            }),
            r.persistence_enabled == (match self.persistence_enabled {
                Some(b) => b,
                None => true,
            }),
            r.backup_enabled == (match self.backup_enabled {
                Some(b) => b,
                None => false,
            }),
            r.namespace@ == namespace_of(self.organization_id@),
            r.port == 6379,
            r.domain@ == domain_of(self.slug@, self.organization_id@),
            r.deployment_name@ == deployment_name_of(self.slug@),
            r.service_name@ == service_name_of(self.slug@),
            r.status@ == "creating"@,
            r.health_status@ == "unknown"@,
            r.max_connections == 100,
    {
        InstancePlan {
            redis_version: match &self.redis_version {
                Some(v) => v.clone(),
                None => "7.2".to_string(),
            },
            persistence_enabled: match self.persistence_enabled {
                Some(b) => b,
                None => true,
            },
            backup_enabled: match self.backup_enabled {
                Some(b) => b,
                None => false,
            },
            namespace: organization_namespace(self.organization_id.as_str()),
            port: 6379,
            domain: instance_domain(self.slug.as_str(), self.organization_id.as_str()),
            deployment_name: deployment_name(self.slug.as_str()),
            service_name: service_name(self.slug.as_str()),
            status: "creating".to_string(),
            health_status: "unknown".to_string(),
            max_connections: 100,
        }
    }
}

/// Whether a role may administer its organization: owners and admins
/// may.
pub open spec fn administers(role: Seq<char>) -> bool {
    role == "admin"@ || role == "owner"@
}

/// Whether a role may administer its organization.
pub fn can_administer(role: &str) -> (r: bool)
    ensures
        r == administers(role@),
{
    same_text(role, "admin") || same_text(role, "owner")
}

/// Whether a role owns its organization.
pub fn is_owner(role: &str) -> (r: bool)
    ensures
        r == (role@ == "owner"@),
{
    same_text(role, "owner")
}

/// Whether a member may revoke an API key: its owner may, and so may
/// whoever administers the organization.
pub fn can_revoke_key(key_user_id: &str, user_id: &str, role: &str) -> (r: bool)
    ensures
        r == (key_user_id@ == user_id@ || administers(role@)),
{
    same_text(key_user_id, user_id) || can_administer(role)
}

/// How many instances an organization may have where no limit is set.
pub const DEFAULT_MAX_INSTANCES: i32 = 3;

/// How many API keys an organization may have where no limit is set.
pub const DEFAULT_MAX_API_KEYS: i32 = 10;

/// Whether an organization that has `count` things has reached its
/// limit, which is `default` where none is set.
pub open spec fn limit_reached(count: i64, limit: Option<i32>, default: i32) -> bool {
    count >= (match limit {
        Some(n) => n,
        None => default,
    })
}

/// Whether an organization has reached its limit.
pub fn quota_reached(count: i64, limit: Option<i32>, default: i32) -> (r: bool)
    ensures
        r == limit_reached(count, limit, default),
{
    let bound: i32 = match limit {
        Some(n) => n,
        None => default,
    };
    count >= bound as i64
}

/// The page and the page size that a list is asked for.
#[derive(Debug, Clone, Copy, PartialEq, Eq, Structural)]
pub struct PaginationParams {
    pub page: Option<u32>,
    pub limit: Option<u32>,
}

impl Default for PaginationParams {
    fn default() -> (r: Self)
        ensures
            r.page == Some(1u32),
            r.limit == Some(20u32),
    {
        PaginationParams { page: Some(1), limit: Some(20) }
    }
}

/// The part of a list that a page shows.
#[derive(Debug, Clone, Copy, PartialEq, Eq, Structural)]
pub struct PageWindow {
    pub page: u32,
    pub limit: u32,
    /// How many items come before the page.
    pub offset: u32,
}

/// One page of a list.
#[derive(Debug, Clone, PartialEq, Eq)]
pub struct PaginatedResponse<T> {
    pub items: Vec<T>,
    pub total_count: i64,
    pub page: u32,
    pub limit: u32,
    pub total_pages: u32,
}

/// The largest page size.
pub const MAX_PAGE_SIZE: u32 = 100;

/// The page that is asked for: the first where none is named.
pub open spec fn page_of(params: PaginationParams) -> int {
    match params.page {
        Some(p) => p as int,
        None => 1,
    }
}

/// The page size that is asked for: 20 where none is named, and 100 at
/// the most.
pub open spec fn limit_of(params: PaginationParams) -> int {
    match params.limit {
        Some(n) => if n <= MAX_PAGE_SIZE {
            n as int
        } else {
            MAX_PAGE_SIZE as int
        },
        None => 20,
    }
}

/// How many pages a list of `total_count` items has at a page size:
/// none for an empty list, else the count divided by the page size and
/// rounded up, and never more than 32 bits hold. A page size of zero gives
/// the most pages there can be.
pub open spec fn pages_of(total_count: int, limit: int) -> int {
    if total_count <= 0 {
        0
    } else if limit <= 0 {
        u32::MAX as int
    } else if (total_count + limit - 1) / limit > u32::MAX {
        u32::MAX as int
    } else {
        (total_count + limit - 1) / limit
    }
}

impl PaginationParams {
    /// The part of a list that is asked for; none where the page is the
    /// page zero, or lies beyond what 32 bits count.
    pub fn window(&self) -> (r: Option<PageWindow>)
        ensures
            r == (if page_of(*self) >= 1 && (page_of(*self) - 1) * limit_of(*self) <= u32::MAX {
                Some(
                    PageWindow {
                        page: page_of(*self) as u32,
                        limit: limit_of(*self) as u32,
                        offset: ((page_of(*self) - 1) * limit_of(*self)) as u32,
                    },
                )
            } else {
                None
            }),
    {
        let page: u32 = match self.page {
            Some(p) => p,
            None => 1,
        };
        let limit: u32 = match self.limit {
            Some(n) => if n <= MAX_PAGE_SIZE {
                n
            } else {
                MAX_PAGE_SIZE
            },
            None => 20,
        };
        if page == 0 {
            return None;
        }
        assert((page - 1) * limit <= u64::MAX) by (nonlinear_arith)
            requires
                page <= u32::MAX,
                limit <= 100,
                page >= 1,
        ;
        let offset: u64 = ((page - 1) as u64) * (limit as u64);
        if offset > 0xffff_ffff {
            None
        } else {
            Some(PageWindow { page, limit, offset: offset as u32 })
        }
    }
}

/// How many pages a list has at a page size.
pub fn total_pages(total_count: i64, limit: u32) -> (r: u32)
    ensures
        r == pages_of(total_count as int, limit as int),
{
    if total_count <= 0 {
        0
    } else if limit == 0 {
        u32::MAX
    } else {
        let count = total_count as u64;
        let size = limit as u64;
        let pages = (count + size - 1) / size;
        if pages > 0xffff_ffff {
            u32::MAX
        } else {
            pages as u32
        }
    }
}

/// One page of a list of `total_count` items.
pub fn paginate<T>(items: Vec<T>, total_count: i64, window: PageWindow) -> (r: PaginatedResponse<T>)
    ensures
        r.items == items,
        r.total_count == total_count,
        r.page == window.page,
        r.limit == window.limit,
        r.total_pages == pages_of(total_count as int, window.limit as int),
{
    PaginatedResponse {
        items,
        total_count,
        page: window.page,
        limit: window.limit,
        total_pages: total_pages(total_count, window.limit),
    }
}

} // verus!
