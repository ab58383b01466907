use apogee_host::ctx::RequestCtx;
use apogee_host::paths::{clean_path, join_paths, root_path};
use apogee_host::table::{Resource, Table};
use apogee_host::wasi::WasiCtx;

#[test]
fn clean_keeps_plain_absolute_path() {
    assert_eq!(clean_path(b"/data/x.txt"), b"/data/x.txt".to_vec());
}

#[test]
fn clean_removes_dot_segments_and_duplicate_separators() {
    assert_eq!(clean_path(b"/a/./b//c"), b"/a/b/c".to_vec());
}

#[test]
fn clean_resolves_parent_segments_before_any_lookup() {
    assert_eq!(clean_path(b"/data/../etc/passwd"), b"/etc/passwd".to_vec());
}

#[test]
fn clean_stops_parent_traversal_at_root() {
    assert_eq!(clean_path(b"/.."), b"/".to_vec());
    assert_eq!(clean_path(b"/../../x"), b"/x".to_vec());
}

#[test]
fn clean_strips_trailing_separator() {
    assert_eq!(clean_path(b"/a/"), b"/a".to_vec());
    assert_eq!(clean_path(b"/"), b"/".to_vec());
}

#[test]
fn root_path_prepends_missing_slash() {
    assert_eq!(root_path(b"data/x.txt"), b"/data/x.txt".to_vec());
    assert_eq!(root_path(b"/data/x.txt"), b"/data/x.txt".to_vec());
}

#[test]
fn join_inserts_exactly_one_separator() {
    assert_eq!(join_paths(b"/host", b"/x"), b"/host/x".to_vec());
    assert_eq!(join_paths(b"/host", b"x"), b"/host/x".to_vec());
    assert_eq!(join_paths(b"/host", b""), b"/host".to_vec());
}

#[test]
fn resolve_maps_preopened_path_to_host_root() {
    let mut ctx = RequestCtx::new();
    ctx.preopen_dir(b"/data", b"/srv/hostroot".to_vec());
    let host = ctx.resolve_read_path(b"/data/x.txt").expect("preopened path should resolve");
    assert_eq!(host, b"/srv/hostroot/x.txt".to_vec());
}

#[test]
fn resolve_rejects_path_outside_preopens() {
    let mut ctx = RequestCtx::new();
    ctx.preopen_dir(b"/data", b"/srv/hostroot".to_vec());
    let err = ctx.resolve_read_path(b"/other").unwrap_err();
    assert_eq!(err, "Path not preopened");
}

#[test]
fn resolve_roots_relative_path_before_lookup() {
    let mut ctx = RequestCtx::new();
    ctx.preopen_dir(b"/data", b"/srv/hostroot".to_vec());
    let host = ctx.resolve_read_path(b"data/x.txt").expect("rooted path should resolve");
    assert_eq!(host, b"/srv/hostroot/x.txt".to_vec());
}

#[test]
fn resolve_overlapping_preopens_longest_wins() {
    let mut ctx = RequestCtx::new();
    ctx.preopen_dir(b"/", b"/srv/rootA".to_vec());
    ctx.preopen_dir(b"/data", b"/srv/rootB".to_vec());
    let host = ctx.resolve_read_path(b"/data/x").expect("should resolve");
    assert_eq!(host, b"/srv/rootB/x".to_vec());
    let other = ctx.resolve_read_path(b"/elsewhere").expect("root preopen should catch");
    assert_eq!(other, b"/srv/rootA/elsewhere".to_vec());
}

#[test]
fn resolve_cleans_traversal_before_security_check() {
    // "/data/../etc/passwd" cleans to "/etc/passwd" before the preopen
    // lookup, so the traversal never reaches the granted subtree.
    let mut ctx = RequestCtx::new();
    ctx.preopen_dir(b"/data", b"/srv/hostroot".to_vec());
    let err = ctx.resolve_read_path(b"/data/../etc/passwd").unwrap_err();
    assert_eq!(err, "Path not preopened");
}

#[test]
fn resolve_traversal_inside_grant_stays_inside() {
    let mut ctx = RequestCtx::new();
    ctx.preopen_dir(b"/data", b"/srv/hostroot".to_vec());
    let host = ctx.resolve_read_path(b"/data/sub/../x.txt").expect("should resolve");
    assert_eq!(host, b"/srv/hostroot/x.txt".to_vec());
}

#[test]
fn resolve_empty_table_rejects_everything() {
    let ctx = RequestCtx::new();
    assert!(ctx.resolve_read_path(b"/data/x").is_err());
}

#[test]
fn disjoint_sandboxes_resolve_to_disjoint_hosts() {
    let mut a = RequestCtx::new();
    a.preopen_dir(b"/data", b"/srv/serviceA".to_vec());
    let mut b = RequestCtx::new();
    b.preopen_dir(b"/data", b"/srv/serviceB".to_vec());
    let ha = a.resolve_read_path(b"/data/shared.txt").unwrap();
    let hb = b.resolve_read_path(b"/data/shared.txt").unwrap();
    assert_ne!(ha, hb);
    assert!(ha.starts_with(b"/srv/serviceA"));
    assert!(hb.starts_with(b"/srv/serviceB"));
}

#[test]
fn fresh_context_has_default_clock_capabilities() {
    let ctx = RequestCtx::new();
    assert_eq!(ctx.wasi.default_monotonic, 0);
    assert_eq!(ctx.wasi.default_wall, 1);
    assert!(matches!(ctx.wasi.table.get(0), Some(Resource::MonotonicClock)));
    assert!(matches!(ctx.wasi.table.get(1), Some(Resource::WallClock)));
    assert!(ctx.wasi.table.get(2).is_none());
}

#[test]
fn capability_table_handles_are_stable() {
    let mut t = Table::new();
    let h0 = t.push(Resource::MonotonicClock);
    let h1 = t.push(Resource::Socket);
    assert_eq!(h0, 0);
    assert_eq!(h1, 1);
    let h2 = t.push(Resource::WallClock);
    assert_eq!(h2, 2);
    assert!(matches!(t.get(h1), Some(Resource::Socket)));
    assert!(matches!(t.get(h0), Some(Resource::MonotonicClock)));
    assert_eq!(t.len(), 3);
}

#[test]
fn getrandom_returns_requested_length() {
    let ctx = WasiCtx::default();
    assert_eq!(ctx.getrandom(0).len(), 0);
    assert_eq!(ctx.getrandom(16).len(), 16);
    assert_eq!(ctx.getrandom(1024).len(), 1024);
}

#[test]
fn log_line_is_prefixed_with_tag() {
    let mut ctx = WasiCtx::default();
    assert_eq!(ctx.log_line(b"hello"), b"[I/O] hello".to_vec());
    ctx.set_context(String::from("svcA"));
    assert_eq!(ctx.log_line(b"hello"), b"[svcA] hello".to_vec());
}

#[test]
fn socket_surface_fails_loudly() {
    let ctx = WasiCtx::default();
    assert_eq!(ctx.bytes_readable(0).unwrap_err(), "not supported");
    assert_eq!(ctx.bytes_writable(0).unwrap_err(), "not supported");
    assert_eq!(ctx.subscribe_read(0).unwrap_err(), "not supported");
    assert_eq!(ctx.subscribe_write(0).unwrap_err(), "not supported");
}
