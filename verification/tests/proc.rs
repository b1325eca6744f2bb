use ludex::proc::environ::parse;
use ludex::proc::fdinfo::{accumulate, parse_byte_unit, parse_ns, GpuSummary};
use ludex::proc::maps::{self, GraphicsLibraries};
use ludex::proc::tree::{any_comm_is, parse_ppid, walk_continues};

// ---- environ ----

#[test]
fn parses_simple_environ() {
    let raw = b"FOO=bar\0BAZ=qux\0\0";
    let env = parse(raw);
    assert_eq!(env.get("FOO").map(String::as_str), Some("bar"));
    assert_eq!(env.get("BAZ").map(String::as_str), Some("qux"));
}

#[test]
fn ignores_entries_without_equals() {
    let raw = b"GOOD=yes\0MALFORMED\0ALSO_GOOD=true\0";
    let env = parse(raw);
    assert_eq!(env.get("GOOD").map(String::as_str), Some("yes"));
    assert_eq!(env.get("ALSO_GOOD").map(String::as_str), Some("true"));
    assert_eq!(env.get("MALFORMED"), None);
}

#[test]
fn ignores_invalid_utf8() {
    let mut raw: Vec<u8> = Vec::new();
    raw.extend_from_slice(b"OK=value\0");
    raw.extend_from_slice(b"BAD=");
    raw.push(0xff);
    raw.push(0);
    let env = parse(&raw);
    assert_eq!(env.get("OK").map(String::as_str), Some("value"));
    assert_eq!(env.get("BAD"), None);
}

#[test]
fn empty_input() {
    assert_eq!(parse(&[]).len(), 0);
    assert_eq!(parse(b"\0\0\0").len(), 0);
}

#[test]
fn value_may_contain_equals() {
    let raw = b"PATH=/a=b/c\0";
    let env = parse(raw);
    assert_eq!(env.get("PATH").map(String::as_str), Some("/a=b/c"));
}

#[test]
fn later_duplicate_variable_wins() {
    let env = parse(b"A=1\0A=2\0");
    assert_eq!(env.get("A").map(String::as_str), Some("2"));
    assert_eq!(env.len(), 1);
}

// ---- fdinfo ----

fn parse_one(content: &str) -> GpuSummary {
    let mut s = GpuSummary::default();
    accumulate(content, &mut s);
    s
}

#[test]
fn parses_amdgpu_fdinfo() {
    let content = "\
pos: 0
flags: 02
mnt_id: 24
drm-driver: amdgpu
drm-pdev: 0000:03:00.0
drm-client-id: 12345
drm-engine-gfx: 12345678 ns
drm-memory-vram: 1024 kB
drm-memory-gtt: 2048 kB
";
    let s = parse_one(content);
    assert_eq!(s.driver.as_deref(), Some("amdgpu"));
    assert_eq!(s.memory_bytes, (1024 + 2048) * 1024);
    assert_eq!(s.engine_nanoseconds, 12_345_678);
}

#[test]
fn sums_across_multiple_fds() {
    let fd1 = "drm-driver: amdgpu\ndrm-memory-vram: 100 kB\ndrm-engine-gfx: 500 ns\n";
    let fd2 = "drm-driver: amdgpu\ndrm-memory-vram: 300 kB\ndrm-engine-gfx: 1500 ns\n";
    let mut s = GpuSummary::default();
    accumulate(fd1, &mut s);
    accumulate(fd2, &mut s);
    assert_eq!(s.memory_bytes, 400 * 1024);
    assert_eq!(s.engine_nanoseconds, 2000);
}

#[test]
fn non_drm_fdinfo_yields_nothing() {
    let content = "pos: 0\nflags: 02\nmnt_id: 24\n";
    let s = parse_one(content);
    assert_eq!(s, GpuSummary::default());
    assert!(!s.any());
}

#[test]
fn excludes_engine_capacity_lines() {
    let content = "\
drm-driver: amdgpu
drm-engine-gfx: 1000 ns
drm-engine-gfx-capacity: 999999 ns
";
    let s = parse_one(content);
    assert_eq!(s.engine_nanoseconds, 1000);
}

#[test]
fn accepts_common_memory_units() {
    for (value, expected) in [
        ("1 B", 1),
        ("1 kB", 1024),
        ("1 KiB", 1024),
        ("2 MB", 2 * 1024 * 1024),
        ("3 MiB", 3 * 1024 * 1024),
    ] {
        assert_eq!(parse_byte_unit(value), Some(expected));
    }
}

#[test]
fn rejects_unknown_unit() {
    assert_eq!(parse_byte_unit("1 pages"), None);
}

#[test]
fn garbage_input_is_harmless() {
    let mut s = GpuSummary::default();
    accumulate("not: valid: input\n::\n\n", &mut s);
    assert_eq!(s, GpuSummary::default());
}

#[test]
fn nanoseconds_need_their_unit() {
    assert_eq!(parse_ns("12 ns"), Some(12));
    assert_eq!(parse_ns("12 us"), None);
}

// ---- maps ----

#[test]
fn classifies_opengl_mapping() {
    let s = "7f00-7f01 r-xp 00000000 fd:01 1 /usr/lib/libGL.so.1\n";
    assert!(maps::parse(s).opengl);
}

#[test]
fn classifies_vulkan_mapping() {
    let s = "7f00-7f01 r-xp 00000000 fd:01 1 /usr/lib64/libvulkan.so.1.3\n";
    assert!(maps::parse(s).vulkan);
}

#[test]
fn classifies_sdl_mapping() {
    let s = "7f00-7f01 r-xp 00000000 fd:01 1 /usr/lib/libSDL2-2.0.so.0\n";
    assert!(maps::parse(s).sdl);
}

#[test]
fn classifies_proton_dxvk() {
    let s = "7f00-7f01 r-xp 00000000 fd:01 1 /home/u/.steam/compatdata/440/pfx/drive_c/windows/system32/dxvk_d3d9.dll\n";
    assert!(maps::parse(s).directx_via_proton);
}

#[test]
fn classifies_raw_d3d11_dll() {
    let s = "7f00-7f01 r-xp 00000000 fd:01 1 Z:/some/path/d3d11.dll\n";
    assert!(maps::parse(s).directx_via_proton);
}

#[test]
fn ignores_unrelated_libraries() {
    let s = "\
7f00-7f01 r-xp 00000000 fd:01 1 /usr/lib/libc.so.6
7f02-7f03 r-xp 00000000 fd:01 2 /usr/lib/libQt6Core.so.6
";
    let g = maps::parse(s);
    assert_eq!(g, GraphicsLibraries::default());
}

#[test]
fn ignores_anonymous_mappings() {
    let s = "7f00-7f01 rw-p 00000000 00:00 0\n";
    let g = maps::parse(s);
    assert_eq!(g, GraphicsLibraries::default());
}

#[test]
fn ignores_stacked_regions() {
    let s = "7f00-7f01 rw-p 00000000 00:00 0 [heap]\n7f02-7f03 rw-p 0 00:00 0 [stack]\n";
    let g = maps::parse(s);
    assert_eq!(g, GraphicsLibraries::default());
}

#[test]
fn any_flag() {
    let mut g = GraphicsLibraries::default();
    assert!(!g.any());
    g.vulkan = true;
    assert!(g.any());
}

#[test]
fn garbage_input_never_panics() {
    maps::parse("");
    maps::parse("not valid /proc/maps content");
    maps::parse("\0\0\0\n\n\n");
}

// ---- tree ----

#[test]
fn parses_normal_stat_line() {
    let line = "42 (bash) S 1234 42 42 34816 42 4194304 ...";
    assert_eq!(parse_ppid(line), Some(1234));
}

#[test]
fn handles_parens_in_comm() {
    let line = "42 (weird) (name) S 1234 42 ...";
    assert_eq!(parse_ppid(line), Some(1234));
}

#[test]
fn malformed_stat_returns_none() {
    assert_eq!(parse_ppid("not a stat line"), None);
    assert_eq!(parse_ppid(""), None);
    assert_eq!(parse_ppid("42 (bash"), None);
}

#[test]
fn ppid_must_be_a_number() {
    assert_eq!(parse_ppid("42 (bash) S x 1"), None);
    assert_eq!(parse_ppid("42 (bash) S"), None);
}

#[test]
fn walk_stops_at_init() {
    assert!(walk_continues(2));
    assert!(!walk_continues(1));
    assert!(!walk_continues(0));
}

#[test]
fn ancestor_comm_match_is_trimmed_and_exact() {
    let comms = vec!["bash\n".to_owned(), "gamescope\n".to_owned()];
    assert!(any_comm_is(&comms, "gamescope"));
    assert!(!any_comm_is(&comms, "gamescope-wl"));
}

#[test]
fn one_document_sums_every_memory_and_engine_line() {
    let doc = "drm-driver: i915\ndrm-memory-system: 2 MiB\ndrm-memory-vram: 1 GiB\n\
drm-engine-render: 40 ns\ndrm-engine-capacity-video: 2\ndrm-engine-video: 2 ns\ndrm-driver: other\n";
    let mut s = GpuSummary::default();
    accumulate(doc, &mut s);
    assert_eq!(s.driver.as_deref(), Some("i915"));
    assert_eq!(s.memory_bytes, 2 * 1048576 + 1073741824);
    assert_eq!(s.engine_nanoseconds, 42);
    let mut big = GpuSummary { driver: None, memory_bytes: u64::MAX - 1, engine_nanoseconds: 0 };
    accumulate("drm-memory-vram: 5 B\n", &mut big);
    assert_eq!(big.memory_bytes, u64::MAX);
}

#[test]
fn maps_of_joined_documents_or_the_parts() {
    let a = "7f00-7f01 r-xp 00000000 08:01 1 /usr/lib/libGL.so.1\n";
    let b = "7f02-7f03 r-xp 00000000 08:01 2 /usr/lib/libvulkan.so.1\n";
    let whole = maps::parse(&format!("{a}{b}"));
    let (pa, pb) = (maps::parse(a), maps::parse(b));
    assert!(whole.opengl && whole.vulkan);
    assert_eq!(whole.opengl, pa.opengl || pb.opengl);
    assert_eq!(whole.vulkan, pa.vulkan || pb.vulkan);
    assert_eq!(maps::parse(""), GraphicsLibraries::default());
}
