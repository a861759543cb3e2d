use plex_catalog::ldap::{
    default_ldap_servers, escape_filter_value, ldap_server_url, ldap_servers_from_lookup,
    plex_user_filter, uid_of_first_entry, LdapManager,
};
use plex_catalog::oidc::{
    admin_users_url, first_username, plex_user_query, token_url, TokenCache,
};

#[test]
fn filter_value_escapes_reserved_characters() {
    assert_eq!(escape_filter_value("plain"), "plain");
    assert_eq!(escape_filter_value("a*b"), "a\\2ab");
    assert_eq!(escape_filter_value("(x)"), "\\28x\\29");
    assert_eq!(escape_filter_value("back\\slash"), "back\\5cslash");
    assert_eq!(escape_filter_value("nul\0"), "nul\\00");
    assert_eq!(escape_filter_value("\\*"), "\\5c\\2a");
}

#[test]
fn user_filter_wraps_escaped_name() {
    assert_eq!(plex_user_filter("bob"), "(plex=bob)");
    assert_eq!(plex_user_filter("*)(uid=*"), "(plex=\\2a\\29\\28uid=\\2a)");
}

#[test]
fn distinct_names_give_distinct_filters() {
    assert_ne!(plex_user_filter("a*"), plex_user_filter("a\\2a"));
    assert_ne!(escape_filter_value("\\2a"), escape_filter_value("*"));
}

#[test]
fn server_urls_from_dns() {
    assert_eq!(ldap_server_url("ipa.csh.rit.edu."), "ldaps://ipa.csh.rit.edu");
    assert_eq!(
        ldap_servers_from_lookup(Some(vec!["a.".to_string(), "b".to_string()])),
        vec!["ldaps://a".to_string(), "ldaps://b".to_string()]
    );
    assert_eq!(ldap_servers_from_lookup(None), default_ldap_servers());
    assert_eq!(
        default_ldap_servers(),
        vec![
            "ldaps://ipa10-nrh.csh.rit.edu".to_string(),
            "ldaps://ipa11-tss.csh.rit.edu".to_string()
        ]
    );
}

#[test]
fn manager_picks_one_of_its_servers() {
    let servers = vec!["ldaps://a".to_string(), "ldaps://b".to_string()];
    let m = LdapManager::new(servers.clone(), "uid=svc", "pw");
    assert_eq!(m.bind_dn(), "uid=svc");
    assert_eq!(m.bind_pw(), "pw");
    for _ in 0..20 {
        let s = m.pick_server().unwrap();
        assert!(servers.contains(&s));
    }
    let empty = LdapManager::new(vec![], "uid=svc", "pw");
    assert_eq!(empty.pick_server(), None);
}

#[test]
fn uid_of_first_search_entry() {
    assert_eq!(uid_of_first_entry(&vec![]), None);
    assert_eq!(uid_of_first_entry(&vec![None]), None);
    assert_eq!(uid_of_first_entry(&vec![Some(vec![])]), None);
    assert_eq!(
        uid_of_first_entry(&vec![Some(vec!["alice".to_string(), "x".to_string()]), None]),
        Some("alice".to_string())
    );
}

#[test]
fn provider_urls() {
    assert_eq!(
        token_url("https://sso/realms/csh/"),
        "https://sso/realms/csh/protocol/openid-connect/token"
    );
    assert_eq!(admin_users_url("https://sso/realms/csh"), "https://sso/admin/realms/csh/users");
    assert_eq!(admin_users_url("https://sso/realms/csh//"), "https://sso/admin/realms/csh/users");
    assert_eq!(admin_users_url("https://sso/auth"), "https://sso/auth/users");
    assert_eq!(plex_user_query("bob"), "plex:bob");
    assert_eq!(first_username(&vec![]), None);
    assert_eq!(
        first_username(&vec!["a".to_string(), "b".to_string()]),
        Some("a".to_string())
    );
}

#[test]
fn token_cache_read_after_store() {
    let mut cache = TokenCache::new();
    assert_eq!(cache.get(0), None);
    cache.store("tok".to_string(), 1_000, 300);
    assert_eq!(cache.get(1_000), Some("tok".to_string()));
    assert_eq!(cache.get(1_000 + 289_999_999_999), Some("tok".to_string()));
    assert_eq!(cache.get(1_000 + 290_000_000_000), None);
    cache.store("short".to_string(), 5_000, 10);
    assert_eq!(cache.get(5_000), None);
    assert_eq!(cache.get(4_999), Some("short".to_string()));
}
