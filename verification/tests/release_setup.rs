//! Release selection for the voice helper and the update report.

use stemcell_tui::release_setup::{
    evolve_report, find_release_asset, no_release_message, release_asset_pattern, release_platform,
    whisper_binary_name, EvolveOutcome,
};

#[test]
fn platforms_and_assets() {
    assert_eq!(whisper_binary_name(true), "whispercrabs.exe");
    assert_eq!(whisper_binary_name(false), "whispercrabs");
    assert_eq!(release_platform("linux"), Ok(("linux", "tar.gz")));
    assert_eq!(release_platform("macos"), Ok(("macos", "tar.gz")));
    assert_eq!(release_platform("windows"), Ok(("windows", "zip")));
    assert_eq!(release_platform("freebsd"), Err("Unsupported OS: freebsd".to_string()));
    let pattern = release_asset_pattern("linux", "x86_64");
    assert_eq!(pattern, "whispercrabs-linux-x86_64");
    let names = vec![
        None,
        Some("whispercrabs-macos-aarch64.tar.gz".to_string()),
        Some("whispercrabs-linux-x86_64.tar.gz".to_string()),
        Some("whispercrabs-linux-x86_64.tar.gz.sha256".to_string()),
    ];
    assert_eq!(find_release_asset(&names, &pattern), Some(2));
    assert_eq!(find_release_asset(&names, "whispercrabs-windows-x86_64"), None);
    assert_eq!(no_release_message("linux", "riscv64"), "No release found for linux-riscv64");
}

#[test]
fn update_run_reports() {
    let failed = EvolveOutcome::Ran { success: false, error: Some("no network".to_string()), output: String::new() };
    assert_eq!(evolve_report(&failed), Some("Evolve failed: no network".to_string()));
    let unknown = EvolveOutcome::Ran { success: false, error: None, output: "x".to_string() };
    assert_eq!(evolve_report(&unknown), Some("Evolve failed (unknown error)".to_string()));
    let latest = EvolveOutcome::Ran { success: true, error: None, output: "Already on latest".to_string() };
    assert_eq!(evolve_report(&latest), Some("Already on latest".to_string()));
    let quiet = EvolveOutcome::Ran { success: true, error: None, output: String::new() };
    assert_eq!(evolve_report(&quiet), None);
    assert_eq!(evolve_report(&EvolveOutcome::Failed("boom".to_string())), Some("Evolve error: boom".to_string()));
}
