use meili_notes::config::{
    authorization, connection_text, documents_url, index_uid, index_url, indexes_url,
    settings_url, url, version_url, DbConfig, MeiliConfig,
};

fn meili(ssl: bool, apikey: Option<&str>) -> MeiliConfig {
    MeiliConfig {
        host: "search.example".to_string(),
        port: 7700,
        apikey: apikey.map(|k| k.to_string()),
        ssl,
        reset: false,
        index: "misskey".to_string(),
    }
}

#[test]
fn url_plain_and_tls() {
    assert_eq!(url(&meili(false, None)), "http://search.example:7700");
    assert_eq!(url(&meili(true, None)), "https://search.example:7700");
}

#[test]
fn index_uid_appends_suffix() {
    assert_eq!(index_uid(&meili(false, None)), "misskey---notes");
}

#[test]
fn endpoints() {
    let m = meili(false, None);
    assert_eq!(version_url(&m), "http://search.example:7700/version");
    assert_eq!(indexes_url(&m), "http://search.example:7700/indexes");
    assert_eq!(index_url(&m), "http://search.example:7700/indexes/misskey---notes");
    assert_eq!(
        settings_url(&m),
        "http://search.example:7700/indexes/misskey---notes/settings"
    );
    assert_eq!(
        documents_url(&m),
        "http://search.example:7700/indexes/misskey---notes/documents"
    );
}

#[test]
fn bearer_credential_only_when_configured() {
    assert_eq!(authorization(&meili(false, None)), None);
    assert_eq!(
        authorization(&meili(false, Some("SECRET-REDACTED"))),
        Some("Bearer SECRET-REDACTED".to_string())
    );
}

#[test]
fn database_connection_text() {
    let db = DbConfig {
        host: "localhost".to_string(),
        port: 5432,
        user: "misskey".to_string(),
        password: "pw".to_string(),
        database: "mk1".to_string(),
    };
    assert_eq!(
        connection_text(&db),
        "host=localhost port=5432 user=misskey password=pw dbname=mk1"
    );
}
