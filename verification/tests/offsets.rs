use rauha::offsets::{
    object_sha256, offset_defs, offsets_sidecar_path, pahole_candidates, pahole_field_offset,
    pahole_field_offset_any, parse_offsets_sidecar, parse_pahole_field_offset,
    render_offsets_sidecar, resolve_kernel_offsets, resolve_kernel_offsets_map, which_pahole,
    PaholeRun, ResolvedOffset, OBJECT_SHA256_KEY,
};

const TASK_STRUCT_SAMPLE: &str = r#"
struct task_struct {
        int                        unrelated;            /*    12     4 */
        struct css_set *           cgroups;              /*  2608     8 */
};
"#;

const BINPRM_SAMPLE: &str = r#"
struct linux_binprm {
        struct file *              file;                 /*    40     8 */
        struct file *              executable;           /*    48     8 */
};
"#;

#[test]
fn parses_pahole_task_struct_field() {
    assert_eq!(
        parse_pahole_field_offset(TASK_STRUCT_SAMPLE, "cgroups"),
        Ok(2608)
    );
}

#[test]
fn parses_linux_binprm_file_before_executable() {
    assert_eq!(parse_pahole_field_offset(BINPRM_SAMPLE, "file"), Ok(40));
}

#[test]
fn linux_binprm_prefers_file_before_executable() {
    let defs = offset_defs();
    let def = defs
        .iter()
        .find(|def| def.manifest_key == "BPRM_FILE_OFFSET")
        .unwrap();
    assert_eq!(def.field_names, &["file", "executable"]);
}

#[test]
fn sidecar_parser_rejects_duplicates() {
    let content = "OBJECT_SHA256=abc\nTASK_CGROUPS_OFFSET=1\nTASK_CGROUPS_OFFSET=2\n";
    assert!(parse_offsets_sidecar(content).is_err());
}

#[test]
fn sidecar_parser_requires_object_hash() {
    let content = "TASK_CGROUPS_OFFSET=1\n";
    assert!(parse_offsets_sidecar(content).is_err());
}

#[test]
fn renders_and_parses_sidecar() {
    let offsets = [ResolvedOffset {
        rust_const: "TASK_CGROUPS",
        manifest_key: "TASK_CGROUPS_OFFSET",
        offset: 2608,
    }];
    let sidecar = render_offsets_sidecar("abc123", &offsets);
    let parsed = parse_offsets_sidecar(&sidecar).unwrap();
    assert_eq!(parsed.object_sha256, "abc123");
    assert_eq!(parsed.offsets.get("TASK_CGROUPS_OFFSET"), Some(&2608));
}

#[test]
fn sidecar_has_two_comments_a_digest_and_a_line_each() {
    let offsets = [
        ResolvedOffset { rust_const: "A", manifest_key: "A_OFFSET", offset: 0 },
        ResolvedOffset { rust_const: "B", manifest_key: "B_OFFSET", offset: 18446744073709551615 },
    ];
    assert_eq!(
        render_offsets_sidecar("ff00", &offsets),
        "# Generated by `cargo xtask build-ebpf`.\n# key=value byte offsets compiled into the eBPF object.\nOBJECT_SHA256=ff00\nA_OFFSET=0\nB_OFFSET=18446744073709551615\n"
    );
}

#[test]
fn sidecar_errors_say_what_is_wrong() {
    let error = |content: &str| parse_offsets_sidecar(content).unwrap_err();
    assert_eq!(error(""), "missing OBJECT_SHA256 in offsets sidecar");
    assert_eq!(error("# x\n\nnonsense\n"), "invalid offsets sidecar line 3");
    assert_eq!(
        error("OBJECT_SHA256=a\nOBJECT_SHA256=b\n"),
        "duplicate OBJECT_SHA256 in offsets sidecar"
    );
    assert_eq!(
        error("OBJECT_SHA256=a\nX=1\n X = 1 \n"),
        "duplicate offset key X in offsets sidecar"
    );
    assert_eq!(
        error("X=\n"),
        "invalid offset value for X: cannot parse integer from empty string"
    );
    assert_eq!(
        error("X=-1\n"),
        "invalid offset value for X: invalid digit found in string"
    );
    assert_eq!(
        error("X=18446744073709551616\n"),
        "invalid offset value for X: number too large to fit in target type"
    );
    assert_eq!(OBJECT_SHA256_KEY, "OBJECT_SHA256");
}

#[test]
fn sidecar_is_read_in_spite_of_white_space_and_line_ends() {
    let parsed = parse_offsets_sidecar("  OBJECT_SHA256 = d=e \r\n\tB = +7\r\nA=3").unwrap();
    assert_eq!(parsed.object_sha256, "d=e");
    assert_eq!(parsed.offsets.len(), 2);
    assert_eq!(parsed.offsets.keys(), vec!["A".to_string(), "B".to_string()]);
    assert_eq!(parsed.offsets.get("B"), Some(&7));
    assert_eq!(parsed.offsets.get("C"), None);
}

#[test]
fn pahole_lines_are_read_closely() {
    let offset = |line: &str, field: &str| parse_pahole_field_offset(line, field);
    assert_eq!(offset("  u64 id:4;  /* 96: 0  8 */", "id").unwrap_err(), "field 'id' not found in pahole output");
    assert_eq!(offset("  u64 id:4;  /* 96 8 */", "id"), Ok(96));
    assert_eq!(offset("  struct file **f; /* 8 8 */", "f"), Ok(8));
    assert_eq!(offset("  int a; /* x */ int b; /* 4 4 */", "a"), Ok(4));
    assert_eq!(offset("  int a; 8 */", "a").is_err(), true);
    assert_eq!(offset("  int a; /* 8", "a").is_err(), true);
    assert_eq!(offset("  /* 8 4 */", "").is_err(), true);
    assert_eq!(offset("int a; /* size */\nint a; /* 12 4 */", "a"), Ok(12));
}

#[test]
fn digests_are_lower_case_hexadecimal() {
    assert_eq!(
        object_sha256(b"abc"),
        "ba7816bf8f01cfea414140de5dae2223b00361a396177a9cb410ff61f20015ad"
    );
    assert_eq!(
        object_sha256(b""),
        "e3b0c44298fc1c149afbf4c8996fb92427ae41e4649b934ca495991b7852b855"
    );
}

#[test]
fn sidecar_path_is_beside_the_object() {
    assert_eq!(offsets_sidecar_path("/usr/lib/rauha/rauha-ebpf"), "/usr/lib/rauha/rauha-ebpf.offsets.json");
    assert_eq!(offsets_sidecar_path("obj.o"), "obj.o.offsets.json");
    assert_eq!(offsets_sidecar_path("a/b/"), "a/b.offsets.json");
    assert_eq!(offsets_sidecar_path("/"), "/rauha-ebpf.offsets.json");
    assert_eq!(offsets_sidecar_path("a/.."), "a/../rauha-ebpf.offsets.json");
}

#[test]
fn pahole_runs_are_told_apart() {
    let not_started = PaholeRun::NotStarted("no such file".to_string());
    assert_eq!(
        pahole_field_offset("/usr/bin/pahole", "file", "f_inode", &not_started),
        Err("failed to run /usr/bin/pahole: no such file".to_string())
    );
    let failed = PaholeRun::Failed(b"  no BTF \xff\n".to_vec());
    assert_eq!(
        pahole_field_offset("pahole", "file", "f_inode", &failed),
        Err("pahole failed for file: no BTF \u{fffd}".to_string())
    );
    let finished = PaholeRun::Finished(TASK_STRUCT_SAMPLE.as_bytes().to_vec());
    assert_eq!(pahole_field_offset("pahole", "task_struct", "cgroups", &finished), Ok(2608));
    assert_eq!(
        pahole_field_offset("pahole", "task_struct", "gone", &finished),
        Err("field 'gone' not found in pahole output".to_string())
    );
}

#[test]
fn the_first_field_that_is_found_counts() {
    let lookup = |_: &str, field: &str| {
        if field == "executable" {
            Ok(48)
        } else {
            Err("no".to_string())
        }
    };
    assert_eq!(pahole_field_offset_any(&lookup, "linux_binprm", &["file", "executable"]), Ok(48));
    assert_eq!(
        pahole_field_offset_any(&lookup, "linux_binprm", &["file", "path"]),
        Err("none of fields [file, path] found in pahole output for 'linux_binprm'".to_string())
    );
}

#[test]
fn offsets_are_resolved_in_order() {
    let lookup = |kind: &str, field: &str| Ok::<usize, String>(kind.len() * 100 + field.len());
    let found = resolve_kernel_offsets(Some("pahole"), &lookup).unwrap();
    assert_eq!(found.len(), 7);
    assert_eq!(found[0].rust_const, "TASK_CGROUPS");
    assert_eq!(found[0].manifest_key, "TASK_CGROUPS_OFFSET");
    assert_eq!(found[0].offset, 1107);
    assert_eq!(found[6].manifest_key, "BPRM_FILE_OFFSET");
    assert_eq!(found[6].offset, 1204);
    let map = resolve_kernel_offsets_map(Some("pahole"), &lookup).unwrap();
    assert_eq!(map.len(), 7);
    assert_eq!(map.get("CGROUP_KN_OFFSET"), Some(&602));
}

#[test]
fn offsets_are_not_resolved_without_pahole_or_a_field() {
    let lookup = |_: &str, _: &str| Ok::<usize, String>(1);
    assert_eq!(
        resolve_kernel_offsets(None, &lookup).unwrap_err(),
        "pahole not found; install dwarves or put pahole on PATH"
    );
    let no_inode = |kind: &str, _: &str| {
        if kind == "inode" {
            Err("gone".to_string())
        } else {
            Ok(1)
        }
    };
    assert_eq!(
        resolve_kernel_offsets_map(Some("pahole"), &no_inode).unwrap_err(),
        "none of fields [i_ino] found in pahole output for 'inode'"
    );
}

#[test]
fn pahole_is_looked_for_in_order() {
    assert_eq!(
        pahole_candidates(Some("/a:b/:")),
        vec!["/usr/bin/pahole", "/usr/local/bin/pahole", "/a/pahole", "b/pahole", "pahole"]
    );
    assert_eq!(pahole_candidates(None).len(), 2);
    let in_b = |place: &str| place == "/b/pahole" || place == "/c/pahole";
    assert_eq!(which_pahole(Some("/a:/b:/c"), &in_b), Some("/b/pahole".to_string()));
    assert_eq!(which_pahole(Some("/a"), &in_b), None);
    assert_eq!(which_pahole(None, &|_: &str| true), Some("/usr/bin/pahole".to_string()));
}

#[test]
fn resolved_offsets_are_read_back_from_the_sidecar() {
    let lookup = |kind: &str, field: &str| Ok::<usize, String>(kind.len() * 100 + field.len());
    let found = resolve_kernel_offsets(Some("pahole"), &lookup).unwrap();
    let digest = object_sha256(b"abc");
    let manifest = parse_offsets_sidecar(&render_offsets_sidecar(&digest, &found)).unwrap();
    assert_eq!(manifest.object_sha256, digest);
    assert_eq!(manifest.offsets, resolve_kernel_offsets_map(Some("pahole"), &lookup).unwrap());
    assert_eq!(manifest.offsets.len(), 7);
}
