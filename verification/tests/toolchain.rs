use khora_codegen_llvm::names::{mangle, with_suffix};
use khora_codegen_llvm::timings::{timings_requested, Phase, Whole};
use khora_codegen_llvm::toolchain::{
    archive_candidates, clang_arguments, debug_info_requested, first_present, link_blocker, link_failure,
    runtime_archive_name, system_libraries, tool, Platform,
};
use khora_codegen_llvm::unboxing_requested;

fn strings(items: &[&str]) -> Vec<String> {
    items.iter().map(|s| s.to_string()).collect()
}

#[test]
fn an_executable_links_the_runtime_after_the_objects() {
    let args = clang_arguments(
        &strings(&["a.o", "b.o"]),
        &strings(&["libkhora_rt.a"]),
        "app",
        false,
        true,
        &system_libraries(Platform::Linux),
    );
    assert_eq!(
        args,
        strings(&[
            "a.o", "b.o", "libkhora_rt.a", "-lgcc_s", "-lutil", "-lrt", "-lpthread", "-lm", "-ldl", "-lc", "-g",
            "-o", "app"
        ])
    );
}

#[test]
fn a_plain_link_takes_no_system_libraries() {
    let args = clang_arguments(&strings(&["a.o"]), &vec![], "out", false, false, &system_libraries(Platform::Windows));
    assert_eq!(args, strings(&["a.o", "-o", "out"]));
}

#[test]
fn a_library_is_linked_shared() {
    let args = clang_arguments(&strings(&["a.o"]), &vec![], "lib.so", true, false, &vec![]);
    assert_eq!(args, strings(&["-shared", "a.o", "-o", "lib.so"]));
}

#[test]
fn system_libraries_by_platform() {
    assert_eq!(system_libraries(Platform::MacOs)[2..4], strings(&["-framework", "CoreFoundation"]));
    assert_eq!(system_libraries(Platform::Windows).len(), 7);
    assert_eq!(system_libraries(Platform::Other), strings(&["-lSystem", "-lc", "-lm"]));
    assert_eq!(runtime_archive_name(true), "khora_rt.lib");
    assert_eq!(runtime_archive_name(false), "libkhora_rt.a");
}

#[test]
fn a_tool_lives_in_bin_under_the_prefix() {
    assert_eq!(tool(None, "clang", false), None);
    let path = tool(Some("/opt/llvm"), "clang", false).unwrap();
    assert!(path == "/opt/llvm/bin/clang" || path == "/opt/llvm\\bin\\clang", "{path}");
    let path = tool(Some("/opt/llvm/"), "clang", true).unwrap();
    assert!(path.ends_with("bin/clang.exe") || path.ends_with("bin\\clang.exe"), "{path}");
}

#[test]
fn switches_from_the_environment() {
    assert!(debug_info_requested(None));
    assert!(debug_info_requested(Some("1")));
    assert!(!debug_info_requested(Some("0")));
    assert!(!debug_info_requested(Some("off")));
    assert!(!debug_info_requested(Some("false")));
    assert!(unboxing_requested(None));
    assert!(unboxing_requested(Some("1")));
    assert!(!unboxing_requested(Some("0")));
    assert!(!timings_requested(None));
    assert!(!timings_requested(Some("0")));
    assert!(timings_requested(Some("1")));
}

#[test]
fn symbols_and_object_files() {
    assert_eq!(mangle("main$add"), "kh$main$add");
    assert_eq!(with_suffix("app.exe", ".o"), "app.exe.o");
    assert_eq!(with_suffix("out/app", ".o"), "out/app.o");
}

#[test]
fn phases_remember_what_they_were_started_with() {
    let phase = Phase::start("link", true);
    assert_eq!(phase.name(), "link");
    assert!(phase.live());
    assert!(phase.began().elapsed().as_secs() < 60);
    let whole = Whole::start(false);
    assert!(!whole.live());
}

#[test]
fn the_runtime_is_looked_for_in_order() {
    let found = archive_candidates(
        Some("/opt/rt/libkhora_rt.a"),
        Some("/home/u/ws/target/debug/deps"),
        Some("/home/u/ws/target/debug"),
        Some("/home/u/ws"),
        false,
    );
    assert_eq!(
        found,
        strings(&[
            "/opt/rt/libkhora_rt.a",
            "/home/u/ws/target/debug/deps/libkhora_rt.a",
            "/home/u/ws/target/debug/libkhora_rt.a",
            "/home/u/ws/target/debug/libkhora_rt.a",
            "/home/u/ws/target/release/libkhora_rt.a",
        ])
    );
}

#[test]
fn one_directory_up_is_looked_at_only_beside_an_executable() {
    let found = archive_candidates(None, None, Some("/up"), Some("/ws"), false);
    assert_eq!(found, strings(&["/ws/target/debug/libkhora_rt.a", "/ws/target/release/libkhora_rt.a"]));
    assert!(archive_candidates(None, None, None, None, true).is_empty());
    let beside = archive_candidates(None, Some("/bin"), None, None, false);
    assert_eq!(beside, strings(&["/bin/libkhora_rt.a"]));
}

#[test]
fn the_search_settles_on_the_first_file() {
    assert_eq!(first_present(&vec![false, true, true]), Some(1));
    assert_eq!(first_present(&vec![true, false]), Some(0));
    assert_eq!(first_present(&vec![false, false]), None);
    assert_eq!(first_present(&vec![]), None);
}

#[test]
fn a_missing_runtime_is_reported_before_a_missing_clang() {
    assert_eq!(
        link_blocker(true, false, false, false),
        Some(
            "the Khora runtime archive (libkhora_rt.a) was not found. Build it with `cargo build -p khora-rt`, \
             or point KHORA_RT_LIB at it."
                .to_string()
        )
    );
    assert_eq!(
        link_blocker(true, false, true, true),
        Some(
            "the Khora runtime archive (khora_rt.lib) was not found. Build it with `cargo build -p khora-rt`, \
             or point KHORA_RT_LIB at it."
                .to_string()
        )
    );
    let clang = Some("clang not found in the LLVM toolchain; set LLVM_SYS_221_PREFIX (see docs/llvm-setup.md)".to_string());
    assert_eq!(link_blocker(true, true, false, false), clang);
    assert_eq!(link_blocker(false, false, false, false), clang);
    assert_eq!(link_blocker(true, true, true, false), None);
    assert_eq!(link_blocker(false, false, true, false), None);
}

#[test]
fn a_failed_link_reports_status_and_output() {
    assert_eq!(link_failure("exit status: 1", "undefined symbol: f\n", None), "link failed (exit status: 1):\nundefined symbol: f\n");
    let crossed = link_failure("exit status: 1", "unknown file type", Some("aarch64-unknown-linux-gnu"));
    assert_eq!(
        crossed,
        "link failed (exit status: 1):\nunknown file type\n\nThe object was generated for `aarch64-unknown-linux-gnu` \
         and this host's linker cannot read it. Code generation for another target works; linking for one needs a \
         linker and a sysroot that this build does not yet fetch \u{2014} `docs/design/targets.md`."
    );
}
