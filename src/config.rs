//! Run settings, and the addresses and connection text derived from them.

use vstd::prelude::*;
use vstd::string::*;
use crate::text::{decimal, decimal_spec};

verus! {

/// Settings for one run.
#[derive(Debug, Clone, PartialEq, Eq)]
pub struct Config {
    pub db: DbConfig,
    pub meili: MeiliConfig,
    pub option: OptionConfig,
}

/// Where the database is and how to log in.
#[derive(Debug, Clone, PartialEq, Eq)]
pub struct DbConfig {
    pub host: String,
    pub port: u16,
    pub user: String,
    pub password: String,
    pub database: String,
}

/// Where the search engine is, its credential, and the index to fill.
#[derive(Debug, Clone, PartialEq, Eq)]
pub struct MeiliConfig {
    pub host: String,
    pub port: u16,
    pub apikey: Option<String>,
    pub ssl: bool,
    pub reset: bool,
    pub index: String,
}

/// Which rows to take and how their creation time is found.
#[derive(Debug, Clone, PartialEq, Eq)]
pub struct OptionConfig {
    /// Only notes of local authors.
    pub localonly: bool,
    /// Unset: the creation time is a column. Otherwise the name of the
    /// identifier encoding that carries it.
    pub idtype: Option<String>,
    /// At most this many rows.
    pub limit: Option<u64>,
}

pub open spec fn url_spec(m: MeiliConfig) -> Seq<char> {
    (if m.ssl { "https"@ } else { "http"@ }) + "://"@ + m.host@ + ":"@ + decimal_spec(
        m.port as nat,
    )
}

pub open spec fn index_uid_spec(m: MeiliConfig) -> Seq<char> {
    m.index@ + "---notes"@
}

pub open spec fn index_url_spec(m: MeiliConfig) -> Seq<char> {
    url_spec(m) + "/indexes/"@ + index_uid_spec(m)
}

pub open spec fn connection_text_spec(d: DbConfig) -> Seq<char> {
    "host="@ + d.host@ + " port="@ + decimal_spec(d.port as nat) + " user="@ + d.user@
        + " password="@ + d.password@ + " dbname="@ + d.database@
}

/// The base address of the search engine.
pub fn url(meili: &MeiliConfig) -> (r: String)
    ensures
        r@ == url_spec(*meili),
{
    let mut r = if meili.ssl {
        String::from_str("https")
    } else {
        String::from_str("http")
    };
    r.append("://");
    r.append(meili.host.as_str());
    r.append(":");
    let port = decimal(meili.port as u64);
    r.append(port.as_str());
    r
}

/// The identifier of the index that the notes go to.
pub fn index_uid(meili: &MeiliConfig) -> (r: String)
    ensures
        r@ == index_uid_spec(*meili),
{
    let mut r = meili.index.clone();
    r.append("---notes");
    r
}

/// The address of the engine's version probe.
pub fn version_url(meili: &MeiliConfig) -> (r: String)
    ensures
        r@ == url_spec(*meili) + "/version"@,
{
    let mut r = url(meili);
    r.append("/version");
    r
}

/// The address at which indexes are created.
pub fn indexes_url(meili: &MeiliConfig) -> (r: String)
    ensures
        r@ == url_spec(*meili) + "/indexes"@,
{
    let mut r = url(meili);
    r.append("/indexes");
    r
}

/// The address of the notes index itself.
pub fn index_url(meili: &MeiliConfig) -> (r: String)
    ensures
        r@ == index_url_spec(*meili),
{
    let mut r = url(meili);
    r.append("/indexes/");
    let uid = index_uid(meili);
    r.append(uid.as_str());
    r
}

/// The address of the notes index's settings.
pub fn settings_url(meili: &MeiliConfig) -> (r: String)
    ensures
        r@ == index_url_spec(*meili) + "/settings"@,
{
    let mut r = index_url(meili);
    r.append("/settings");
    r
}

/// The address to which documents are upserted.
pub fn documents_url(meili: &MeiliConfig) -> (r: String)
    ensures
        r@ == index_url_spec(*meili) + "/documents"@,
{
    let mut r = index_url(meili);
    r.append("/documents");
    r
}

/// The value of the `Authorization` header, when a credential is configured.
pub fn authorization(meili: &MeiliConfig) -> (r: Option<String>)
    ensures
        meili.apikey is None ==> r is None,
        meili.apikey matches Some(k) ==> r matches Some(v) && v@ == "Bearer "@ + k@,
{
    match &meili.apikey {
        None => None,
        Some(k) => {
            let mut v = String::from_str("Bearer ");
            v.append(k.as_str());
            Some(v)
        },
    }
}

/// The text that opens a database connection.
pub fn connection_text(db: &DbConfig) -> (r: String)
    ensures
        r@ == connection_text_spec(*db),
{
    let mut r = String::from_str("host=");
    r.append(db.host.as_str());
    r.append(" port=");
    let port = decimal(db.port as u64);
    r.append(port.as_str());
    r.append(" user=");
    r.append(db.user.as_str());
    r.append(" password=");
    r.append(db.password.as_str());
    r.append(" dbname=");
    r.append(db.database.as_str());
    r
}

} // verus!
