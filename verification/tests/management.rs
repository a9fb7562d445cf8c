use redisgate::management::{
    can_administer, can_revoke_key, is_owner, matches_slug_pattern, paginate, quota_reached,
    total_pages, CreateApiKeyRequest, CreateOrganizationRequest, CreateRedisInstanceRequest,
    Field, FieldError, InstancePlan, LoginRequest, PageWindow, PaginatedResponse,
    PaginationParams, RegisterRequest, Rule, DEFAULT_MAX_API_KEYS, DEFAULT_MAX_INSTANCES,
    LEAST_MEMORY, MAX_PAGE_SIZE, MOST_MEMORY,
};

fn registration() -> RegisterRequest {
    RegisterRequest {
        email: "user@example.com".to_string(),
        username: "user".to_string(),
        password: "password".to_string(),
        first_name: Some("A".to_string()),
        last_name: None,
    }
}

fn organization(name: &str, slug: &str, description: Option<String>) -> CreateOrganizationRequest {
    CreateOrganizationRequest { name: name.to_string(), slug: slug.to_string(), description }
}

fn error(field: Field, rule: Rule) -> FieldError {
    FieldError { field, rule }
}

#[test]
fn valid_registration_has_no_errors() {
    assert_eq!(registration().validate(), vec![]);
    assert_eq!(registration().errors_given(true), vec![]);
}

#[test]
fn registration_names_every_field_that_is_wrong() {
    let request = RegisterRequest {
        email: "not an address".to_string(),
        username: "ab".to_string(),
        password: "short".to_string(),
        first_name: Some(String::new()),
        last_name: Some("x".repeat(51)),
    };
    assert_eq!(
        request.validate(),
        vec![
            error(Field::Email, Rule::Email),
            error(Field::Username, Rule::Length),
            error(Field::Password, Rule::Length),
            error(Field::FirstName, Rule::Length),
            error(Field::LastName, Rule::Length),
        ]
    );
}

#[test]
fn registration_lengths_count_characters_at_their_bounds() {
    let mut request = registration();
    request.username = "abc".to_string();
    assert_eq!(request.validate(), vec![]);
    request.username = "é".repeat(50);
    assert_eq!(request.validate(), vec![]);
    request.username = "é".repeat(51);
    assert_eq!(request.validate(), vec![error(Field::Username, Rule::Length)]);
    request.username = "user".to_string();
    request.password = "1234567".to_string();
    assert_eq!(request.validate(), vec![error(Field::Password, Rule::Length)]);
    request.password = "é".repeat(8);
    assert_eq!(request.validate(), vec![]);
    request.last_name = Some("x".repeat(50));
    assert_eq!(request.validate(), vec![]);
}

#[test]
fn email_addresses_are_told_from_other_text() {
    for (email, valid) in [
        ("user@example.com", true),
        ("a.b+c@sub.example.org", true),
        ("", false),
        ("user", false),
        ("user@", false),
        ("@example.com", false),
        ("user@@example.com", false),
        ("user name@example.com", false),
    ] {
        let mut request = registration();
        request.email = email.to_string();
        let expected = if valid { vec![] } else { vec![error(Field::Email, Rule::Email)] };
        assert_eq!(request.validate(), expected, "{:?}", email);
        let login = LoginRequest { email: email.to_string(), password: "p".to_string() };
        assert_eq!(login.validate().is_empty(), valid, "{:?}", email);
    }
}

#[test]
fn login_needs_an_address_and_a_password() {
    let login = LoginRequest { email: "user@example.com".to_string(), password: String::new() };
    assert_eq!(login.validate(), vec![error(Field::Password, Rule::Length)]);
    let both = LoginRequest { email: "nobody".to_string(), password: String::new() };
    assert_eq!(
        both.validate(),
        vec![error(Field::Email, Rule::Email), error(Field::Password, Rule::Length)]
    );
    assert_eq!(both.errors_given(true), vec![error(Field::Password, Rule::Length)]);
}

#[test]
fn organization_needs_a_name_and_a_slug() {
    assert_eq!(organization("Acme", "acme-1", None).validate(), vec![]);
    assert_eq!(
        organization("", "", None).validate(),
        vec![
            error(Field::Name, Rule::Length),
            error(Field::Slug, Rule::Length),
            error(Field::Slug, Rule::Pattern),
        ]
    );
    assert_eq!(
        organization(&"n".repeat(101), &"s".repeat(51), Some("d".repeat(501))).validate(),
        vec![
            error(Field::Name, Rule::Length),
            error(Field::Slug, Rule::Length),
            error(Field::Description, Rule::Length),
        ]
    );
    assert_eq!(
        organization(&"n".repeat(100), &"s".repeat(50), Some("d".repeat(500))).validate(),
        vec![]
    );
    assert_eq!(organization("n", "s", Some(String::new())).validate(), vec![]);
}

#[test]
fn slug_is_made_of_lower_case_letters_digits_and_hyphens() {
    for slug in ["a", "z", "0", "9", "-", "my-redis-1", "---"] {
        assert_eq!(organization("n", slug, None).validate(), vec![], "{:?}", slug);
    }
    for slug in ["A", "my_redis", "my redis", "é", "a\n", "\na", "a.b", "a/b", "a\u{0}"] {
        assert_eq!(
            organization("n", slug, None).validate(),
            vec![error(Field::Slug, Rule::Pattern)],
            "{:?}",
            slug
        );
    }
}

#[test]
fn slug_pattern_is_the_pattern_of_the_expression() {
    let pattern = regex::Regex::new(r"^[a-z0-9-]+$").unwrap();
    for text in ["", "a", "-", "a-b-0", "A", "a b", "a\n", "a\nb", "é", "a_b", "0123456789", "az-"] {
        assert_eq!(matches_slug_pattern(text), pattern.is_match(text), "{:?}", text);
    }
    assert!(!matches_slug_pattern("a\n"));
    assert!(matches_slug_pattern("my-redis-1"));
}

#[test]
fn owners_and_admins_administer() {
    assert!(can_administer("owner"));
    assert!(can_administer("admin"));
    assert!(!can_administer("member"));
    assert!(!can_administer("Owner"));
    assert!(!can_administer(""));
    assert!(is_owner("owner"));
    assert!(!is_owner("admin"));
}

#[test]
fn keys_are_revoked_by_their_owner_or_an_administrator() {
    assert!(can_revoke_key("u1", "u1", "member"));
    assert!(can_revoke_key("u1", "u2", "admin"));
    assert!(can_revoke_key("u1", "u2", "owner"));
    assert!(!can_revoke_key("u1", "u2", "member"));
}

#[test]
fn quota_is_reached_at_the_limit() {
    assert_eq!(DEFAULT_MAX_INSTANCES, 3);
    assert_eq!(DEFAULT_MAX_API_KEYS, 10);
    assert!(!quota_reached(2, None, DEFAULT_MAX_INSTANCES));
    assert!(quota_reached(3, None, DEFAULT_MAX_INSTANCES));
    assert!(quota_reached(4, None, DEFAULT_MAX_INSTANCES));
    assert!(!quota_reached(9, None, DEFAULT_MAX_API_KEYS));
    assert!(quota_reached(10, None, DEFAULT_MAX_API_KEYS));
    assert!(!quota_reached(3, Some(5), DEFAULT_MAX_INSTANCES));
    assert!(quota_reached(5, Some(5), DEFAULT_MAX_INSTANCES));
    assert!(quota_reached(0, Some(0), DEFAULT_MAX_INSTANCES));
    assert!(quota_reached(0, Some(-1), DEFAULT_MAX_INSTANCES));
    assert!(!quota_reached(i64::MIN, Some(i32::MIN), 0));
    assert!(quota_reached(i64::MAX, Some(i32::MAX), 0));
}

#[test]
fn pagination_defaults_to_the_first_twenty() {
    let defaults = PaginationParams::default();
    assert_eq!(defaults, PaginationParams { page: Some(1), limit: Some(20) });
    assert_eq!(defaults.window(), Some(PageWindow { page: 1, limit: 20, offset: 0 }));
    let none = PaginationParams { page: None, limit: None };
    assert_eq!(none.window(), Some(PageWindow { page: 1, limit: 20, offset: 0 }));
}

#[test]
fn page_size_is_a_hundred_at_the_most() {
    assert_eq!(MAX_PAGE_SIZE, 100);
    let big = PaginationParams { page: Some(3), limit: Some(1000) };
    assert_eq!(big.window(), Some(PageWindow { page: 3, limit: 100, offset: 200 }));
    let exact = PaginationParams { page: Some(2), limit: Some(100) };
    assert_eq!(exact.window(), Some(PageWindow { page: 2, limit: 100, offset: 100 }));
    let zero = PaginationParams { page: Some(5), limit: Some(0) };
    assert_eq!(zero.window(), Some(PageWindow { page: 5, limit: 0, offset: 0 }));
}

#[test]
fn page_zero_and_pages_beyond_count_have_no_window() {
    assert_eq!(PaginationParams { page: Some(0), limit: None }.window(), None);
    assert_eq!(PaginationParams { page: Some(u32::MAX), limit: Some(100) }.window(), None);
    assert_eq!(
        PaginationParams { page: Some(42_949_673), limit: Some(100) }.window(),
        Some(PageWindow { page: 42_949_673, limit: 100, offset: 4_294_967_200 })
    );
    assert_eq!(PaginationParams { page: Some(42_949_674), limit: Some(100) }.window(), None);
    assert_eq!(
        PaginationParams { page: Some(u32::MAX), limit: Some(1) }.window(),
        Some(PageWindow { page: u32::MAX, limit: 1, offset: u32::MAX - 1 })
    );
}

#[test]
fn pages_are_counted_rounding_up() {
    assert_eq!(total_pages(0, 20), 0);
    assert_eq!(total_pages(1, 20), 1);
    assert_eq!(total_pages(20, 20), 1);
    assert_eq!(total_pages(21, 20), 2);
    assert_eq!(total_pages(100, 1), 100);
    assert_eq!(total_pages(-5, 20), 0);
    assert_eq!(total_pages(5, 0), u32::MAX);
    assert_eq!(total_pages(0, 0), 0);
    assert_eq!(total_pages(i64::MAX, 1), u32::MAX);
    assert_eq!(total_pages(i64::MAX, u32::MAX), 2_147_483_649);
    assert_eq!(total_pages(4_294_967_295, 1), u32::MAX);
    assert_eq!(total_pages(4_294_967_296, 1), u32::MAX);
}

#[test]
fn page_holds_its_items_and_counts() {
    let window = PageWindow { page: 2, limit: 2, offset: 2 };
    assert_eq!(
        paginate(vec!["c", "d"], 5, window),
        PaginatedResponse { items: vec!["c", "d"], total_count: 5, page: 2, limit: 2, total_pages: 3 }
    );
    let empty: PaginatedResponse<u8> = paginate(vec![], 0, PageWindow { page: 1, limit: 20, offset: 0 });
    assert_eq!(empty.total_pages, 0);
    assert_eq!(empty.items, Vec::<u8>::new());
}

#[test]
fn api_key_request_needs_a_name() {
    let request = |name: &str| CreateApiKeyRequest {
        name: name.to_string(),
        organization_id: "o".to_string(),
        scopes: vec!["read".to_string()],
        expires_at: None,
    };
    assert_eq!(request("key").validate(), vec![]);
    assert_eq!(request("").validate(), vec![error(Field::Name, Rule::Length)]);
    assert_eq!(request(&"n".repeat(100)).validate(), vec![]);
    assert_eq!(request(&"n".repeat(101)).validate(), vec![error(Field::Name, Rule::Length)]);
}

fn instance_request(slug: &str, max_memory: i64) -> CreateRedisInstanceRequest {
    CreateRedisInstanceRequest {
        name: "Cache".to_string(),
        slug: slug.to_string(),
        organization_id: "a1a2a3a4-b1b2-c1c2-d1d2-d3d4d5d6d7d8".to_string(),
        max_memory,
        redis_version: None,
        persistence_enabled: None,
        backup_enabled: None,
    }
}

#[test]
fn instance_request_needs_a_slug_and_memory_within_bounds() {
    assert_eq!(LEAST_MEMORY, 1_048_576);
    assert_eq!(MOST_MEMORY, 17_179_869_184);
    assert_eq!(instance_request("cache", LEAST_MEMORY).validate(), vec![]);
    assert_eq!(instance_request("cache", MOST_MEMORY).validate(), vec![]);
    assert_eq!(
        instance_request("cache", LEAST_MEMORY - 1).validate(),
        vec![error(Field::MaxMemory, Rule::Range)]
    );
    assert_eq!(
        instance_request("cache", MOST_MEMORY + 1).validate(),
        vec![error(Field::MaxMemory, Rule::Range)]
    );
    assert_eq!(
        instance_request("My Cache", 0).validate(),
        vec![error(Field::Slug, Rule::Pattern), error(Field::MaxMemory, Rule::Range)]
    );
    let mut nameless = instance_request("", i64::MIN);
    nameless.name = String::new();
    assert_eq!(
        nameless.validate(),
        vec![
            error(Field::Name, Rule::Length),
            error(Field::Slug, Rule::Length),
            error(Field::Slug, Rule::Pattern),
            error(Field::MaxMemory, Rule::Range),
        ]
    );
}

#[test]
fn instance_is_planned_with_its_defaults() {
    assert_eq!(
        instance_request("cache", LEAST_MEMORY).plan(),
        InstancePlan {
            redis_version: "7.2".to_string(),
            persistence_enabled: true,
            backup_enabled: false,
            namespace: "redis-a1a2a3a4b1b2c1c2d1d2d3d4d5d6d7d8".to_string(),
            port: 6379,
            domain: "cache.a1a2a3a4b1b2c1c2d1d2d3d4d5d6d7d8.redis.local".to_string(),
            deployment_name: "redis-cache".to_string(),
            service_name: "redis-cache-service".to_string(),
            status: "creating".to_string(),
            health_status: "unknown".to_string(),
            max_connections: 100,
        }
    );
    let mut chosen = instance_request("cache", LEAST_MEMORY);
    chosen.redis_version = Some("6.2".to_string());
    chosen.persistence_enabled = Some(false);
    chosen.backup_enabled = Some(true);
    let plan = chosen.plan();
    assert_eq!(plan.redis_version, "6.2");
    assert!(!plan.persistence_enabled);
    assert!(plan.backup_enabled);
}
