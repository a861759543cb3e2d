[package]
name = "plex_catalog"
version = "0.1.0"
edition = "2021"
publish = false

[dependencies]
actix-web = { version = "4", default-features = false, features = ["macros"] }
anyhow = "1"
async-trait = "0.1"
base64 = "0.21"
bytes = "1"
chrono = { version = "0.4", features = ["serde"] }
deadpool = "0.10"
dotenvy = "0.15"
futures = "0.3"
isahc = { version = "1", features = ["json"] }
lazy_static = "1"
ldap3 = "0.11"
log = "0.4"
moka = { version = "0.12", features = ["future"] }
openssl = "0.10"
rand = "0.8"
reqwest = { version = "0.11", features = ["json"] }
serde = { version = "1", features = ["derive"] }
serde_json = "1"
sqlx = { version = "0.7", default-features = false, features = ["runtime-tokio", "postgres", "chrono"] }
tokio = { version = "1", features = ["macros", "rt-multi-thread", "sync", "time"] }
tracing = "0.1"
tracing-subscriber = { version = "0.3", features = ["env-filter"] }
trust-dns-resolver = "0.23"
urlencoding = "2"
utoipa = { version = "4", features = ["actix_extras", "chrono"] }
utoipa-swagger-ui = { version = "6", features = ["actix-web"] }
