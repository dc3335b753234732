use vstd::prelude::*;
use crate::text::has_nul;

verus! {

/// Write-ahead-log settings of the key-value store (`IWKV_WAL_OPTS`).
#[derive(Debug, PartialEq, Eq)]
pub struct WalOptions {
    pub enabled: bool,
    pub check_crc_on_checkpoint: bool,
    pub savepoint_timeout_sec: u32,
    pub checkpoint_timeout_sec: u32,
    pub wal_buffer_sz: u64,
    pub checkpoint_buffer_sz: u64,
    /// Whether a lock interceptor callback is installed.
    pub wal_lock_interceptor: bool,
}

/// Settings of the key-value store under the database (`IWKV_OPTS`).
#[derive(Debug, PartialEq, Eq)]
pub struct KvOptions {
    pub path: String,
    pub random_seed: u32,
    pub fmt_version: i32,
    pub oflags: u8,
    pub file_lock_fail_fast: bool,
    pub wal: WalOptions,
}

/// Settings of the embedded HTTP endpoint (`EJDB_HTTP`).
#[derive(Debug, PartialEq, Eq)]
pub struct HttpOptions {
    pub enabled: bool,
    pub port: i32,
    pub access_token: Option<String>,
    pub blocking: bool,
    pub cors: bool,
    pub max_body_size: u64,
    pub bind: Option<String>,
    pub read_anon: bool,
}

/// Everything `ejdb_open` is given (`EJDB_OPTS`).
#[derive(Debug, PartialEq, Eq)]
pub struct OpenOptions {
    pub kv: KvOptions,
    pub document_buffer_sz: u32,
    pub http: HttpOptions,
    pub no_wal: bool,
    pub sort_buffer_sz: u32,
}

/// The settings the bindings open every database file with: the store at `path` with its
/// write-ahead log on and every size and timeout left to the library's defaults (0), and the
/// HTTP endpoint off.
pub open spec fn default_open_options(path: Seq<char>, o: OpenOptions) -> bool {
    &&& o.kv.path@ == path
    &&& o.kv.random_seed == 0
    &&& o.kv.fmt_version == 0
    &&& o.kv.oflags == 0
    &&& !o.kv.file_lock_fail_fast
    &&& o.kv.wal.enabled
    &&& !o.kv.wal.check_crc_on_checkpoint
    &&& o.kv.wal.savepoint_timeout_sec == 0
    &&& o.kv.wal.checkpoint_timeout_sec == 0
    &&& o.kv.wal.wal_buffer_sz == 0
    &&& o.kv.wal.checkpoint_buffer_sz == 0
    &&& !o.kv.wal.wal_lock_interceptor
    &&& o.document_buffer_sz == 0
    &&& !o.http.enabled
    &&& o.http.port == 0
    &&& o.http.access_token is None
    &&& !o.http.blocking
    &&& !o.http.cors
    &&& o.http.max_body_size == 0
    &&& o.http.bind is None
    &&& !o.http.read_anon
    &&& !o.no_wal
    &&& o.sort_buffer_sz == 0
}

impl OpenOptions {
    /// The options that `open` passes to `ejdb_open` for the database file at `path`. A path
    /// with a NUL cannot be handed to the C library: `open` panics on it first.
    pub fn for_path(path: &str) -> (o: OpenOptions)
        requires
            !has_nul(path@),
        ensures
            default_open_options(path@, o),
    {
        OpenOptions {
            kv: KvOptions {
                path: path.to_owned(),
                random_seed: 0,
                fmt_version: 0,
                oflags: 0,
                file_lock_fail_fast: false,
                wal: WalOptions {
                    enabled: true,
                    check_crc_on_checkpoint: false,
                    savepoint_timeout_sec: 0,
                    checkpoint_timeout_sec: 0,
                    wal_buffer_sz: 0,
                    checkpoint_buffer_sz: 0,
                    wal_lock_interceptor: false,
                },
            },
            document_buffer_sz: 0,
            http: HttpOptions {
                enabled: false,
                port: 0,
                access_token: None,
                blocking: false,
                cors: false,
                max_body_size: 0,
                bind: None,
                read_anon: false,
            },
            no_wal: false,
            sort_buffer_sz: 0,
        }
    }
}

/// The counters of a query run (`EJDB_EXEC`) that `exec` sets.
#[derive(Debug, PartialEq, Eq)]
pub struct ExecSettings {
    pub cnt: i64,
    pub limit: i64,
    pub skip: i64,
    /// Whether a log buffer is attached.
    pub log: bool,
    /// Whether a memory pool is attached.
    pub pool: bool,
}

impl ExecSettings {
    /// The settings of every query run: no count yet, and no limit, skip, log or pool beyond
    /// what the query itself says.
    pub fn initial() -> (s: ExecSettings)
        ensures
            s.cnt == 0,
            s.limit == 0,
            s.skip == 0,
            !s.log,
            !s.pool,
    {
        ExecSettings { cnt: 0, limit: 0, skip: 0, log: false, pool: false }
    }
}

} // verus!
