use nix_opengl_driver::cli::{Cli, Commands};
use nix_opengl_driver::detect::{detect_driver, parse_kernel_module_version, Driver};
use nix_opengl_driver::cli::pick_driver;
use nix_opengl_driver::errors::Error;
use nix_opengl_driver::hash_store::HashStore;
use nix_opengl_driver::resolve::{build_outcome, extract_hash, probe_outcome, render_nix_expr,
    resolve_step, ResolveAction};

#[test]
fn hash_is_properly_extracted() {
    let output = r#"
building '/nix/store/09x2dbx2mb0chnr02rg6fg48fphm8s44-intel-ocl-5.0-63503.drv'...
error: hash mismatch in fixed-output derivation '/nix/store/0sv2pvsyilwvi488kkjw6mbx6h8sv4yv-NVIDIA-Linux-x86_64-570.133.07.run.drv':
         specified: sha256-AAAAAAAAAAAAAAAAAAAAAAAAAAAAAAAAAAAAAAAAAAA=
            got:    sha256-LUPmTFgb5e9VTemIixqpADfvbUX1QoTT2dztwI3E3CY=
error: 1 dependencies of derivation '/nix/store/d15fr4ik98n677hri556aqwkds0cz6sb-nvidia-x11-570.133.07.drv' failed to build
        "#;

    assert_eq!(
        extract_hash(&output).as_deref(),
        Some("sha256-LUPmTFgb5e9VTemIixqpADfvbUX1QoTT2dztwI3E3CY=")
    );
}

#[test]
fn extraction_ignores_specified_line() {
    let output = "specified: sha256-BBBB=\n got:\tsha256-CCCC=";
    assert_eq!(extract_hash(output).as_deref(), Some("sha256-CCCC="));
}

#[test]
fn extraction_without_got_line_fails() {
    let output = "error: builder for derivation failed with exit code 1";
    assert_eq!(extract_hash(output), None);
    let r = probe_outcome(false, output);
    assert!(matches!(r, Err(Error::HashDiscovery)));
}

#[test]
fn extraction_needs_a_nonempty_payload() {
    assert_eq!(extract_hash("got: sha256-"), None);
    assert_eq!(extract_hash("got: sha256-A"), Some("sha256-A".to_string()));
}

#[test]
fn pattern_whitespace_covers_the_unusual_spaces() {
    assert_eq!(extract_hash("got:\u{c}sha256-Q="), Some("sha256-Q=".to_string()));
    assert_eq!(extract_hash("got:\u{a0}\u{3000}sha256-Q="), Some("sha256-Q=".to_string()));
    let d = detect_driver(Some("Kernel Module\u{b}570.1 rest")).unwrap();
    assert_eq!(d, Driver::Nvidia("570.1".to_string()));
}

#[test]
fn marker_without_version_token_is_unrecognized() {
    let r = detect_driver(Some("Kernel Module but no number"));
    assert!(matches!(r, Err(Error::Detection)));
}

#[test]
fn discovered_hash_is_persisted_and_served_again() {
    let diagnostics = "         specified: sha256-AAAAAAAAAAAAAAAAAAAAAAAAAAAAAAAAAAAAAAAAAAA=\n            got:    sha256-LUPmTFgb5e9VTemIixqpADfvbUX1QoTT2dztwI3E3CY=\n";
    let version = "570.133.07".to_string();
    let hash = probe_outcome(false, diagnostics).unwrap();
    assert_eq!(hash, "sha256-LUPmTFgb5e9VTemIixqpADfvbUX1QoTT2dztwI3E3CY=");
    let mut store = HashStore::empty();
    store.insert(version.clone(), hash.clone());
    assert_eq!(store.get(&version), Some(&hash));
    match resolve_step(&store, &Driver::Nvidia(version)) {
        ResolveAction::UseHash(h) => assert_eq!(h, hash),
        ResolveAction::ProbeBuild => panic!("the persisted version must not probe again"),
    }
}

#[test]
fn an_earlier_incomplete_marker_does_not_block_detection() {
    let txt = "Kernel ModuleX then the real Kernel Module  570.133.07  tail";
    let d = detect_driver(Some(txt)).unwrap();
    assert_eq!(d, Driver::Nvidia("570.133.07".to_string()));
}

#[test]
fn successful_probe_reports_empty_hash() {
    let r = probe_outcome(true, "anything at all");
    assert_eq!(r.unwrap(), "");
}

#[test]
fn failed_probe_reports_extracted_hash() {
    let r = probe_outcome(false, "got: sha256-LUPmTFgb=");
    assert_eq!(r.unwrap(), "sha256-LUPmTFgb=");
}

#[test]
fn cached_version_resolves_without_probe() {
    let mut store = HashStore::empty();
    store.insert("570.133.07".to_string(), "sha256-LUPmTFgb=".to_string());
    let d = Driver::Nvidia("570.133.07".to_string());
    match resolve_step(&store, &d) {
        ResolveAction::UseHash(h) => assert_eq!(h, "sha256-LUPmTFgb="),
        ResolveAction::ProbeBuild => panic!("cached version must not probe"),
    }
}

#[test]
fn uncached_version_probes() {
    let store = HashStore::empty();
    let d = Driver::Nvidia("570.133.07".to_string());
    assert!(matches!(resolve_step(&store, &d), ResolveAction::ProbeBuild));
}

#[test]
fn mesa_needs_no_hash() {
    let store = HashStore::empty();
    match resolve_step(&store, &Driver::Mesa) {
        ResolveAction::UseHash(h) => assert_eq!(h, ""),
        ResolveAction::ProbeBuild => panic!("the open stack must not probe"),
    }
}

#[test]
fn final_build_failure_carries_diagnostics() {
    let r = build_outcome(false, "linker exploded");
    match r {
        Err(Error::BuildFailure(t)) => assert_eq!(t, "linker exploded"),
        _ => panic!("a failed build must be fatal"),
    }
    assert!(build_outcome(true, "").is_ok());
}

#[test]
fn nvidia_descriptor_renders_version_and_hash() {
    let d = Driver::Nvidia("570.133.07".to_string());
    let tpl = "url = nvidia-{{version}}.run; hash = \"{{sha256}}\";";
    let r = render_nix_expr(&d, Some("sha256-LUPmTFgb="), "mesa output", tpl).unwrap();
    assert_eq!(r, "url = nvidia-570.133.07.run; hash = \"sha256-LUPmTFgb=\";");
}

#[test]
fn nvidia_descriptor_without_hash_renders_empty_placeholder() {
    let d = Driver::Nvidia("570.133.07".to_string());
    let tpl = "hash = \"{{sha256}}\";";
    let r = render_nix_expr(&d, None, "mesa output", tpl).unwrap();
    assert_eq!(r, "hash = \"\";");
}

#[test]
fn mesa_descriptor_renders_template_verbatim() {
    let tpl = "buildEnv { name = \"mesa-farm\"; }";
    let r = render_nix_expr(&Driver::Mesa, None, tpl, "nvidia {{version}}").unwrap();
    assert_eq!(r, "buildEnv { name = \"mesa-farm\"; }");
}

#[test]
fn kernel_module_version_is_detected() {
    let txt = "NVRM version: NVIDIA UNIX x86_64 Kernel Module  570.133.07  Fri Mar 14 13:12:07 UTC 2025";
    assert_eq!(parse_kernel_module_version(txt).as_deref(), Some("570.133.07"));
    let d = detect_driver(Some(txt)).unwrap();
    assert_eq!(d, Driver::Nvidia("570.133.07".to_string()));
}

#[test]
fn absent_version_file_means_mesa() {
    assert_eq!(detect_driver(None).unwrap(), Driver::Mesa);
}

#[test]
fn unrecognized_version_text_is_a_hard_failure() {
    let r = detect_driver(Some("some other driver entirely"));
    assert!(matches!(r, Err(Error::Detection)));
}

#[test]
fn forced_version_bypasses_detection() {
    let cli = Cli {
        quiet: false,
        force_mesa: false,
        force_nvidia: Some("123.45".to_string()),
        resolve_hashes: false,
        cmd: Commands::Driver,
    };
    let d = pick_driver(&cli, Some("garbage that would not parse")).unwrap();
    assert_eq!(d, Driver::Nvidia("123.45".to_string()));
}

#[test]
fn forced_mesa_bypasses_detection() {
    let cli = Cli {
        quiet: false,
        force_mesa: true,
        force_nvidia: None,
        resolve_hashes: false,
        cmd: Commands::Driver,
    };
    let d = pick_driver(&cli, Some("garbage that would not parse")).unwrap();
    assert_eq!(d, Driver::Mesa);
}

#[test]
fn unforced_pick_detects() {
    let cli = Cli {
        quiet: true,
        force_mesa: false,
        force_nvidia: None,
        resolve_hashes: true,
        cmd: Commands::Sync,
    };
    let d = pick_driver(&cli, None).unwrap();
    assert_eq!(d, Driver::Mesa);
}
