//! Engine kinds and connection configuration: the closed set of backends
//! the layer speaks to, and the text of the connection endpoints.

use vstd::prelude::*;
use crate::text::{udec, u64_to_dec, joined, views, join_strings, push_string};

verus! {

/// The closed set of backend kinds, one per wrapped native pool shape.
#[derive(Debug, Clone, Copy, PartialEq, Eq, Structural)]
pub enum EngineKind {
    Postgres,
    MySql,
    Sqlite,
    SqlServer,
    Redis,
    MongoDb,
}

/// The database technology a logical connection names.
#[derive(Debug, Clone, Copy, PartialEq, Eq, Structural)]
pub enum DatabaseType {
    SQLite,
    PostgreSQL,
    MySQL,
    MariaDB,
    CockroachDB,
    Redshift,
    SQLServer,
    Redis,
    MongoDB,
}

/// TLS requirement levels for a relational connection.
#[derive(Debug, Clone, Copy, PartialEq, Eq, Structural)]
pub enum SslMode {
    Disable,
    Prefer,
    Require,
    VerifyCA,
    VerifyFull,
}

/// TLS settings for a relational connection.
#[derive(Debug, Clone)]
pub struct SslConfig {
    pub enabled: bool,
    pub mode: SslMode,
    pub ca_cert_path: Option<String>,
    pub client_cert_path: Option<String>,
    pub client_key_path: Option<String>,
}

/// Engine-specific parameters of a logical connection.
#[derive(Debug, Clone)]
pub enum ConnectionConfig {
    SQLite { path: String },
    PostgreSQL {
        host: String,
        port: u16,
        database: String,
        username: String,
        password: Option<String>,
        ssl: SslConfig,
    },
    MySQL {
        host: String,
        port: u16,
        database: String,
        username: String,
        password: Option<String>,
        ssl: SslConfig,
    },
    MariaDB {
        host: String,
        port: u16,
        database: String,
        username: String,
        password: Option<String>,
        ssl: SslConfig,
    },
    CockroachDB {
        host: String,
        port: u16,
        database: String,
        username: String,
        password: Option<String>,
        ssl: SslConfig,
    },
    Redshift {
        host: String,
        port: u16,
        database: String,
        username: String,
        password: Option<String>,
        ssl: SslConfig,
    },
    SQLServer {
        host: String,
        port: u16,
        database: String,
        username: String,
        password: Option<String>,
        encrypt: bool,
        trust_server_certificate: bool,
    },
    Redis {
        host: String,
        port: u16,
        username: Option<String>,
        password: Option<String>,
        database: u8,
        use_tls: bool,
    },
    MongoDB {
        host: String,
        port: u16,
        database: String,
        username: Option<String>,
        password: Option<String>,
        use_tls: bool,
        auth_source: Option<String>,
    },
}

/// The engine kind a configuration connects to.
pub open spec fn spec_engine_kind(config: ConnectionConfig) -> EngineKind {
    match config {
        ConnectionConfig::SQLite { .. } => EngineKind::Sqlite,
        ConnectionConfig::PostgreSQL { .. } => EngineKind::Postgres,
        ConnectionConfig::MySQL { .. } => EngineKind::MySql,
        ConnectionConfig::MariaDB { .. } => EngineKind::MySql,
        ConnectionConfig::CockroachDB { .. } => EngineKind::Postgres,
        ConnectionConfig::Redshift { .. } => EngineKind::Postgres,
        ConnectionConfig::SQLServer { .. } => EngineKind::SqlServer,
        ConnectionConfig::Redis { .. } => EngineKind::Redis,
        ConnectionConfig::MongoDB { .. } => EngineKind::MongoDb,
    }
}

impl ConnectionConfig {
    /// The engine kind this configuration connects to: the Postgres
    /// family shares one kind, the MySQL family another.
    pub fn engine_kind(&self) -> (r: EngineKind)
        ensures
            r == spec_engine_kind(*self),
    {
        match self {
            ConnectionConfig::SQLite { .. } => EngineKind::Sqlite,
            ConnectionConfig::PostgreSQL { .. } => EngineKind::Postgres,
            ConnectionConfig::MySQL { .. } => EngineKind::MySql,
            ConnectionConfig::MariaDB { .. } => EngineKind::MySql,
            ConnectionConfig::CockroachDB { .. } => EngineKind::Postgres,
            ConnectionConfig::Redshift { .. } => EngineKind::Postgres,
            ConnectionConfig::SQLServer { .. } => EngineKind::SqlServer,
            ConnectionConfig::Redis { .. } => EngineKind::Redis,
            ConnectionConfig::MongoDB { .. } => EngineKind::MongoDb,
        }
    }
}

// ---------------------------------------------------------------------------
// Endpoint text
// ---------------------------------------------------------------------------

/// What percent-encoding a credential yields; the result depends on the
/// characters alone.
pub uninterp spec fn percent_encoded(s: Seq<char>) -> Seq<char>;

/// Relies on urlencoding::encode: every byte except alphanumerics and
/// `-`, `_`, `.`, `~` is percent-encoded; the result depends on the
/// input alone, and an empty string stays empty.
#[verifier::external_body]
fn url_encode(s: &str) -> (r: String)
    ensures
        r@ == percent_encoded(s@),
        s@.len() == 0 ==> r@.len() == 0,
{
    urlencoding::encode(s).into_owned()
}

/// Builds the endpoint text each native driver is opened with.
pub struct DatabaseFactory;

/// The Postgres-family connection URL: credentials, host, port and
/// database in one `postgres://` endpoint, an absent password standing
/// in as empty.
pub open spec fn postgres_url_text(
    username: Seq<char>,
    password: Option<String>,
    host: Seq<char>,
    port: u16,
    database: Seq<char>,
) -> Seq<char> {
    "postgres://"@ + username + ":"@ + (match password {
        Some(p) => p@,
        None => Seq::<char>::empty(),
    }) + "@"@ + host + ":"@ + udec(port as nat) + "/"@ + database
}

/// The SQLite endpoint: the file path behind the `sqlite:` scheme.
pub open spec fn sqlite_url_text(path: Seq<char>) -> Seq<char> {
    "sqlite:"@ + path
}

/// The Redis endpoint: `redis://` or `rediss://` under TLS, the
/// credential part shaped by which of user and password are present,
/// and the numeric database selected by path.
pub open spec fn redis_url_text(
    use_tls: bool,
    username: Option<String>,
    password: Option<String>,
    host: Seq<char>,
    port: u16,
    database: u8,
) -> Seq<char> {
    (if use_tls {
        "rediss"@
    } else {
        "redis"@
    }) + "://"@ + (match (username, password) {
        (Some(u), Some(p)) => u@ + ":"@ + p@ + "@"@,
        (None, Some(p)) => ":"@ + p@ + "@"@,
        (Some(u), None) => u@ + "@"@,
        (None, None) => Seq::<char>::empty(),
    }) + host + ":"@ + udec(port as nat) + "/"@ + udec(database as nat)
}

/// The timeout the MongoDB endpoint asks for, in milliseconds: the
/// configured seconds (60 when none), capped upward to at least a
/// minute.
pub open spec fn mongo_timeout_ms(timeout_seconds: Option<u64>) -> int {
    let s = (match timeout_seconds {
        Some(x) => x as int,
        None => 60,
    });
    let raw = s * 1000;
    let capped = if raw > u64::MAX as int {
        u64::MAX as int
    } else {
        raw
    };
    if capped < 60000 {
        60000
    } else {
        capped
    }
}

/// The option list of the MongoDB endpoint: a direct connection, TLS
/// and auth source when asked for, the three timeouts, and the pool
/// bound.
pub open spec fn mongo_options(
    use_tls: bool,
    auth_source: Option<String>,
    timeout_seconds: Option<u64>,
) -> Seq<Seq<char>> {
    let ms = udec(mongo_timeout_ms(timeout_seconds) as nat);
    seq!["directConnection=true"@] + (if use_tls {
        seq!["tls=true"@]
    } else {
        Seq::<Seq<char>>::empty()
    }) + (match auth_source {
        Some(a) => seq!["authSource="@ + a@],
        None => Seq::<Seq<char>>::empty(),
    }) + seq![
        "connectTimeoutMS="@ + ms,
        "serverSelectionTimeoutMS="@ + ms,
        "socketTimeoutMS="@ + ms,
        "maxPoolSize=5"@,
    ]
}

/// The MongoDB endpoint: percent-encoded credentials when both are
/// present, host, port, database, and the option list.
pub open spec fn mongo_uri_text(
    host: Seq<char>,
    port: u16,
    database: Seq<char>,
    username: Option<String>,
    password: Option<String>,
    use_tls: bool,
    auth_source: Option<String>,
    timeout_seconds: Option<u64>,
) -> Seq<char> {
    "mongodb://"@ + (match (username, password) {
        (Some(u), Some(p)) => percent_encoded(u@) + ":"@ + percent_encoded(p@) + "@"@,
        _ => Seq::<char>::empty(),
    }) + host + ":"@ + udec(port as nat) + "/"@ + database + "?"@ + joined(
        mongo_options(use_tls, auth_source, timeout_seconds),
        "&"@,
    )
}

impl DatabaseFactory {
    /// The liveness probe issued when testing a SQL connection.
    pub fn probe_sql() -> (r: &'static str)
        ensures
            r@ == "SELECT 1"@,
    {
        "SELECT 1"
    }

    /// Build the Postgres-family connection URL.
    pub fn postgres_url(
        username: &str,
        password: &Option<String>,
        host: &str,
        port: u16,
        database: &str,
    ) -> (r: String)
        ensures
            r@ == postgres_url_text(username@, *password, host@, port, database@),
    {
        proof {
            reveal_strlit("postgres://");
            reveal_strlit(":");
            reveal_strlit("@");
            reveal_strlit("/");
        }
        let mut url = "postgres://".to_owned();
        url.append(username);
        url.append(":");
        match password {
            Some(p) => {
                url.append(p.as_str());
            },
            None => {},
        }
        url.append("@");
        url.append(host);
        url.append(":");
        let p = u64_to_dec(port as u64);
        url.append(p.as_str());
        url.append("/");
        url.append(database);
        proof {
            assert(url@ =~= postgres_url_text(username@, *password, host@, port, database@));
        }
        url
    }

    /// Build the SQLite endpoint.
    pub fn sqlite_url(path: &str) -> (r: String)
        ensures
            r@ == sqlite_url_text(path@),
    {
        proof {
            reveal_strlit("sqlite:");
        }
        let mut url = "sqlite:".to_owned();
        url.append(path);
        proof {
            assert(url@ =~= sqlite_url_text(path@));
        }
        url
    }

    /// Build the Redis endpoint.
    pub fn redis_url(
        use_tls: bool,
        username: &Option<String>,
        password: &Option<String>,
        host: &str,
        port: u16,
        database: u8,
    ) -> (r: String)
        ensures
            r@ == redis_url_text(use_tls, *username, *password, host@, port, database),
    {
        proof {
            reveal_strlit("rediss");
            reveal_strlit("redis");
            reveal_strlit("://");
            reveal_strlit(":");
            reveal_strlit("@");
            reveal_strlit("/");
        }
        let mut url: String = if use_tls {
            "rediss".to_owned()
        } else {
            "redis".to_owned()
        };
        url.append("://");
        match (username, password) {
            (Some(u), Some(p)) => {
                url.append(u.as_str());
                url.append(":");
                url.append(p.as_str());
                url.append("@");
            },
            (None, Some(p)) => {
                url.append(":");
                url.append(p.as_str());
                url.append("@");
            },
            (Some(u), None) => {
                url.append(u.as_str());
                url.append("@");
            },
            (None, None) => {},
        }
        url.append(host);
        url.append(":");
        let pd = u64_to_dec(port as u64);
        url.append(pd.as_str());
        url.append("/");
        let dd = u64_to_dec(database as u64);
        url.append(dd.as_str());
        proof {
            assert(url@ =~= redis_url_text(use_tls, *username, *password, host@, port, database));
        }
        url
    }

    /// Build the MongoDB endpoint.
    #[verifier::loop_isolation(false)]
    pub fn mongo_uri(
        host: &str,
        port: u16,
        database: &str,
        username: &Option<String>,
        password: &Option<String>,
        use_tls: bool,
        auth_source: &Option<String>,
        timeout_seconds: Option<u64>,
    ) -> (r: String)
        ensures
            r@ == mongo_uri_text(
                host@,
                port,
                database@,
                *username,
                *password,
                use_tls,
                *auth_source,
                timeout_seconds,
            ),
    {
        proof {
            reveal_strlit("mongodb://");
            reveal_strlit(":");
            reveal_strlit("@");
            reveal_strlit("/");
            reveal_strlit("?");
            reveal_strlit("directConnection=true");
            reveal_strlit("tls=true");
            reveal_strlit("authSource=");
            reveal_strlit("connectTimeoutMS=");
            reveal_strlit("serverSelectionTimeoutMS=");
            reveal_strlit("socketTimeoutMS=");
            reveal_strlit("maxPoolSize=5");
        }
        let secs: u64 = match timeout_seconds {
            Some(s) => s,
            None => 60,
        };
        let raw: u64 = if secs > u64::MAX / 1000 {
            u64::MAX
        } else {
            secs * 1000
        };
        let ms: u64 = if raw < 60000 {
            60000
        } else {
            raw
        };
        proof {
            assert(ms as int == mongo_timeout_ms(timeout_seconds));
        }
        let ms_text = u64_to_dec(ms);

        let mut options: Vec<String> = Vec::new();
        push_string(&mut options, "directConnection=true".to_owned());
        if use_tls {
            push_string(&mut options, "tls=true".to_owned());
        }
        match auth_source {
            Some(a) => {
                let mut o = "authSource=".to_owned();
                o.append(a.as_str());
                push_string(&mut options, o);
            },
            None => {},
        }
        let mut o1 = "connectTimeoutMS=".to_owned();
        o1.append(ms_text.as_str());
        push_string(&mut options, o1);
        let mut o2 = "serverSelectionTimeoutMS=".to_owned();
        o2.append(ms_text.as_str());
        push_string(&mut options, o2);
        let mut o3 = "socketTimeoutMS=".to_owned();
        o3.append(ms_text.as_str());
        push_string(&mut options, o3);
        push_string(&mut options, "maxPoolSize=5".to_owned());
        proof {
            assert(views(options@) =~~= mongo_options(use_tls, *auth_source, timeout_seconds));
        }

        let mut uri = "mongodb://".to_owned();
        match (username, password) {
            (Some(u), Some(p)) => {
                let eu = url_encode(u.as_str());
                uri.append(eu.as_str());
                uri.append(":");
                let ep = url_encode(p.as_str());
                uri.append(ep.as_str());
                uri.append("@");
            },
            _ => {},
        }
        uri.append(host);
        uri.append(":");
        let pd = u64_to_dec(port as u64);
        uri.append(pd.as_str());
        uri.append("/");
        uri.append(database);
        uri.append("?");
        let opts = join_strings(&options, "&");
        uri.append(opts.as_str());
        proof {
            assert(uri@ =~= mongo_uri_text(
                host@,
                port,
                database@,
                *username,
                *password,
                use_tls,
                *auth_source,
                timeout_seconds,
            ));
        }
        uri
    }
}

} // verus!
