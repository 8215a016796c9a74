[package]
name = "lenso_service_account"
version = "0.1.0"
edition = "2021"
publish = false

[dependencies]
aes-gcm = "0.10"
argon2 = "0.5"
base64 = "0.22"
getrandom = "0.3"
lenso = "*"
lenso-auth-sdk = "*"
lenso-capability-access-control = "*"
lenso-capability-credential-issuer = "*"
lenso-capability-identity-directory = "*"
lenso-capability-organization-membership = "*"
lenso-capability-secrets = "*"
lenso-contract-authoring = "*"
lenso-kernel = "*"
lenso-postgres-kit = "*"
schemars = "1"
serde = { version = "1", features = ["derive"] }
serde_json = "1"
sha2 = "0.10"
sqlx = { version = "*", default-features = false, features = ["postgres", "runtime-tokio", "time"] }
thiserror = "2"
time = { version = "0.3", features = ["formatting", "parsing"] }
zeroize = "1"
