use etl_rows::sources::{
    ReadSourceResponse, SourceConfig, SourceError, SourcesDbError, StrippedSourceConfig,
    TenantIdError,
};

fn config() -> SourceConfig {
    SourceConfig {
        host: "localhost".to_string(),
        port: 5432,
        name: "postgres".to_string(),
        username: "postgres".to_string(),
        password: Some("SECRET-REDACTED".to_string()),
    }
}

#[test]
fn not_found_message() {
    assert_eq!(
        SourceError::SourceNotFound(42).to_message(),
        "The source with id 42 was not found"
    );
    assert_eq!(
        SourceError::SourceNotFound(-7).to_message(),
        "The source with id -7 was not found"
    );
    assert_eq!(
        SourceError::SourceNotFound(i64::MIN).to_message(),
        "The source with id -9223372036854775808 was not found"
    );
    assert_eq!(
        SourceError::SourceNotFound(0).to_message(),
        "The source with id 0 was not found"
    );
}

#[test]
fn database_details_are_hidden() {
    let e = SourceError::SourcesDb(SourcesDbError::Database("relation does not exist".to_string()));
    assert_eq!(e.to_message(), "internal server error");
    assert_eq!(e.status_code(), 500);
    let e = SourceError::SourcesDb(SourcesDbError::Encryption);
    assert_eq!(e.to_message(), "failed to encrypt or decrypt the source password");
    assert_eq!(e.status_code(), 500);
}

#[test]
fn tenant_and_not_found_status() {
    let e = SourceError::TenantId(TenantIdError::TenantIdMissing);
    assert_eq!(e.to_message(), "tenant id missing in request");
    assert_eq!(e.status_code(), 400);
    let e = SourceError::TenantId(TenantIdError::TenantIdIllFormed);
    assert_eq!(e.to_message(), "tenant id ill formed in request");
    assert_eq!(SourceError::SourceNotFound(1).status_code(), 404);
}

#[test]
fn stripped_config_drops_password() {
    let s = StrippedSourceConfig::from(config());
    assert_eq!(
        s,
        StrippedSourceConfig {
            host: "localhost".to_string(),
            port: 5432,
            name: "postgres".to_string(),
            username: "postgres".to_string(),
        }
    );
    let r = ReadSourceResponse::from_source(3, "tenant".to_string(), "src".to_string(), config());
    assert_eq!(r.id, 3);
    assert_eq!(r.tenant_id, "tenant");
    assert_eq!(r.name, "src");
    assert_eq!(r.config, s);
}
