use ejdb2::options::{ExecSettings, OpenOptions};

#[test]
fn open_options_for_a_path() {
    let o = OpenOptions::for_path("test.db");
    assert_eq!(o.kv.path, "test.db");
    assert_eq!(o.kv.random_seed, 0);
    assert_eq!(o.kv.fmt_version, 0);
    assert_eq!(o.kv.oflags, 0);
    assert!(!o.kv.file_lock_fail_fast);
    assert!(o.kv.wal.enabled);
    assert!(!o.kv.wal.check_crc_on_checkpoint);
    assert_eq!(o.kv.wal.savepoint_timeout_sec, 0);
    assert_eq!(o.kv.wal.checkpoint_timeout_sec, 0);
    assert_eq!(o.kv.wal.wal_buffer_sz, 0);
    assert_eq!(o.kv.wal.checkpoint_buffer_sz, 0);
    assert!(!o.kv.wal.wal_lock_interceptor);
    assert_eq!(o.document_buffer_sz, 0);
    assert!(!o.http.enabled);
    assert_eq!(o.http.port, 0);
    assert_eq!(o.http.access_token, None);
    assert!(!o.http.blocking);
    assert!(!o.http.cors);
    assert_eq!(o.http.max_body_size, 0);
    assert_eq!(o.http.bind, None);
    assert!(!o.http.read_anon);
    assert!(!o.no_wal);
    assert_eq!(o.sort_buffer_sz, 0);
}

#[test]
fn open_options_keep_the_path_verbatim() {
    let o = OpenOptions::for_path("/tmp/dir with space/ü.db");
    assert_eq!(o.kv.path, "/tmp/dir with space/ü.db");
}

#[test]
fn exec_settings_start_empty() {
    let s = ExecSettings::initial();
    assert_eq!(s, ExecSettings { cnt: 0, limit: 0, skip: 0, log: false, pool: false });
}
