use weave_launcher::app_state::App;
use weave_launcher::artifacts::{find_jar_asset, is_jar_name, weave_dir_path, weave_loader_path, ReleaseAsset};
use weave_launcher::gpu::get_gpu_env_vars;
use weave_launcher::launcher::{
    find_sandbox_app_id, join_command, launch_flatpak, plan_direct_launch, shell_quote,
    LaunchError,
};
use weave_launcher::locator::{
    agent_already_installed, agent_flag, build_target, derive_home_path, find_target,
    rewrite_launch_args, LunarProcess, ProcessEntry,
};
use weave_launcher::relay::LogBuffer;
use weave_launcher::terminator::{classify_kill, TerminatorError};
use weave_launcher::text::{contains_substr, count_matches, second_token, starts_with_str};

const WEAVE: &str = "/home/u/.weave/loader.jar";

fn sample_cmd() -> Vec<String> {
    vec![
        "/home/u/.lunarclient/offline/jre/bin/java".to_string(),
        "-Xmx2G".to_string(),
        "-Dichor.filteredGenesisSentries=abc".to_string(),
        "-cp".to_string(),
        "lunar.jar".to_string(),
    ]
}

#[test]
fn rewrite_strips_flag_and_injects_agent() {
    let out = rewrite_launch_args(&sample_cmd(), WEAVE);
    let expected = vec![
        "-Xmx2G".to_string(),
        format!("-javaagent:{WEAVE}"),
        "-cp".to_string(),
        "lunar.jar".to_string(),
    ];
    assert_eq!(out, expected);
    for arg in &out {
        assert!(!arg.starts_with("-Dichor.filteredGenesisSentries"));
    }
}

#[test]
fn rewrite_injects_agent_exactly_once() {
    let out = rewrite_launch_args(&sample_cmd(), WEAVE);
    let agent = format!("-javaagent:{WEAVE}");
    assert_eq!(out.iter().filter(|a| **a == agent).count(), 1);
}

#[test]
fn rewrite_agent_lands_at_index_one() {
    let out = rewrite_launch_args(&sample_cmd(), WEAVE);
    assert_eq!(out[1], format!("-javaagent:{WEAVE}"));
}

#[test]
fn rewrite_with_no_remaining_argument() {
    let only_exe = vec!["/opt/.lunarclient/bin/java".to_string()];
    let out = rewrite_launch_args(&only_exe, WEAVE);
    assert_eq!(out, vec![format!("-javaagent:{WEAVE}")]);
    let empty: Vec<String> = Vec::new();
    let out = rewrite_launch_args(&empty, WEAVE);
    assert_eq!(out, vec![format!("-javaagent:{WEAVE}")]);
}

#[test]
fn agent_flag_is_exact() {
    assert_eq!(agent_flag(WEAVE), format!("-javaagent:{WEAVE}"));
}

#[test]
fn agent_installed_checks_original_vector() {
    let mut cmd = sample_cmd();
    assert!(!agent_already_installed(&cmd, WEAVE));
    cmd.push(format!("-javaagent:{WEAVE}"));
    assert!(agent_already_installed(&cmd, WEAVE));
    // A prefix is not enough: membership is exact.
    let near = vec![format!("-javaagent:{WEAVE}x")];
    assert!(!agent_already_installed(&near, WEAVE));
}

#[test]
fn home_derivation_truncates_at_marker() {
    let exe = "/home/u/.lunarclient/offline/jre/bin/java";
    let home = derive_home_path(exe).unwrap();
    assert_eq!(home, "/home/u/.lunarclient/offline/multiver");
}

#[test]
fn home_derivation_is_deterministic() {
    let exe = "/data/.lunarclient/run/bin/java";
    assert_eq!(derive_home_path(exe), derive_home_path(exe));
    assert_eq!(derive_home_path(exe).unwrap(), "/data/.lunarclient/offline/multiver");
}

#[test]
fn home_derivation_absent_marker() {
    assert_eq!(derive_home_path("/usr/bin/java"), None);
}

#[test]
fn find_target_picks_first_match_and_skips_unresolved() {
    let entries = vec![
        ProcessEntry { pid: 1, exe: None, cmd: vec![] },
        ProcessEntry { pid: 2, exe: Some("/usr/bin/java".to_string()), cmd: vec![] },
        ProcessEntry {
            pid: 3,
            exe: Some("/home/u/.lunarclient/offline/jre/bin/java".to_string()),
            cmd: sample_cmd(),
        },
        ProcessEntry {
            pid: 4,
            exe: Some("/home/v/.lunarclient/offline/jre/bin/java".to_string()),
            cmd: vec![],
        },
    ];
    assert_eq!(find_target(&entries), Some(2));
    let nothing = vec![ProcessEntry { pid: 9, exe: Some("/bin/sh".to_string()), cmd: vec![] }];
    assert_eq!(find_target(&nothing), None);
}

#[test]
fn build_target_fields() {
    let e = ProcessEntry {
        pid: 77,
        exe: Some("/home/u/.lunarclient/offline/jre/bin/java".to_string()),
        cmd: sample_cmd(),
    };
    let p = build_target(&e, WEAVE, true);
    assert_eq!(p.pid, 77);
    assert_eq!(p.exe, "/home/u/.lunarclient/offline/jre/bin/java");
    assert_eq!(p.home_path, "/home/u/.lunarclient/offline/multiver");
    assert!(!p.weave_installed);
    assert!(!p.flatpak);
    assert_eq!(p.launch_cmd_modified[1], format!("-javaagent:{WEAVE}"));
}

#[test]
fn sandbox_status_follows_home_presence() {
    let e = ProcessEntry {
        pid: 5,
        exe: Some("/app/.lunarclient/bin/java".to_string()),
        cmd: vec!["/app/.lunarclient/bin/java".to_string(), "-Xms1G".to_string()],
    };
    let native = build_target(&e, WEAVE, true);
    assert!(!native.flatpak);
    let sandboxed = build_target(&e, WEAVE, false);
    assert!(sandboxed.flatpak);
}

#[test]
fn gpu_under_two_controllers_yields_nothing() {
    assert_eq!(get_gpu_env_vars(""), vec![]);
    let one = "00:02.0 VGA compatible controller: NVIDIA Corporation Device";
    assert_eq!(get_gpu_env_vars(one), vec![]);
}

#[test]
fn gpu_two_controllers_nvidia() {
    let listing = "00:02.0 VGA compatible controller: Intel\n01:00.0 VGA compatible controller: NVIDIA Corporation";
    assert_eq!(
        get_gpu_env_vars(listing),
        vec![
            ("__NV_PRIME_RENDER_OFFLOAD".to_string(), "1".to_string()),
            ("__GLX_VENDOR_LIBRARY_NAME".to_string(), "nvidia".to_string()),
        ]
    );
}

#[test]
fn gpu_two_controllers_amd() {
    let long = "00:02.0 VGA compatible controller: Intel\n01:00.0 VGA compatible controller: Advanced Micro Devices";
    assert_eq!(get_gpu_env_vars(long), vec![("DRI_PRIME".to_string(), "1".to_string())]);
    let short = "00:02.0 VGA compatible controller: Intel\n01:00.0 VGA compatible controller: AMD Radeon";
    assert_eq!(get_gpu_env_vars(short), vec![("DRI_PRIME".to_string(), "1".to_string())]);
}

#[test]
fn gpu_two_controllers_unknown_vendor() {
    let listing = "VGA compatible controller: Vendor A\nVGA compatible controller: Vendor B";
    assert_eq!(get_gpu_env_vars(listing), vec![]);
}

#[test]
fn controller_counting_is_exact() {
    let listing = "VGA compatible controller\nAudio device\nVGA compatible controller";
    assert_eq!(count_matches(listing, "VGA compatible controller"), 2);
    assert_eq!(count_matches(listing, "Audio device"), 1);
    assert_eq!(count_matches("aaaa", "aa"), 2);
}

#[test]
fn relay_marks_stderr_lines() {
    let mut log = LogBuffer::new();
    log.push_stdout("hello".to_string());
    log.push_stderr("boom");
    assert_eq!(log.len(), 2);
    assert_eq!(log.line(0).as_str(), "hello");
    assert_eq!(log.line(1).as_str(), "ERR: boom");
    assert_eq!(log.snapshot(), vec!["hello".to_string(), "ERR: boom".to_string()]);
}

#[test]
fn terminator_unknown_pid() {
    assert_eq!(
        classify_kill(1234, None),
        Err(TerminatorError::ProcessNotFound(1234))
    );
}

#[test]
fn terminator_refused_signal() {
    assert_eq!(
        classify_kill(99, Some(false)),
        Err(TerminatorError::TerminationFailed(99))
    );
    assert_eq!(classify_kill(99, Some(true)), Ok(()));
}

#[test]
fn sandbox_app_id_from_listing() {
    let listing = "Firefox org.mozilla.firefox stable\nLunar Client org.lunarclient.App stable\n";
    assert_eq!(find_sandbox_app_id(listing), Some("Client".to_string()));
    let tabbed = "Lunar\tcom.lunarclient.LunarClient\t3.2\n";
    assert_eq!(find_sandbox_app_id(tabbed), Some("com.lunarclient.LunarClient".to_string()));
}

#[test]
fn sandbox_app_id_is_case_insensitive() {
    let listing = "LUNAR CLIENT com.lc.App\n";
    assert_eq!(find_sandbox_app_id(listing), Some("CLIENT".to_string()));
}

#[test]
fn sandbox_app_id_absent() {
    assert_eq!(find_sandbox_app_id("Firefox org.mozilla.firefox\n"), None);
    assert_eq!(find_sandbox_app_id(""), None);
    // The first matching line decides: a single token there ends the search.
    assert_eq!(find_sandbox_app_id("lunar\nignored lunar.second.App\n"), None);
}

#[test]
fn second_token_extraction() {
    assert_eq!(second_token("a b c"), Some("b".to_string()));
    assert_eq!(second_token("  one\t two  "), Some("two".to_string()));
    assert_eq!(second_token(" only "), None);
    assert_eq!(second_token(""), None);
}

#[test]
fn quoting_keeps_whitespace_and_quotes() {
    assert_eq!(shell_quote("abc"), "'abc'");
    assert_eq!(shell_quote("a b"), "'a b'");
    assert_eq!(shell_quote("a'b"), "'a'\\''b'");
    assert_eq!(shell_quote(""), "''");
}

#[test]
fn command_join_is_quoted() {
    let args = vec!["-Xmx2G".to_string(), "-Dx=a b".to_string()];
    let cmd = join_command("/h/.lunarclient/offline/multiver", "/h/.lunarclient/bin/java", &args);
    assert_eq!(
        cmd,
        "cd '/h/.lunarclient/offline/multiver' && '/h/.lunarclient/bin/java' '-Xmx2G' '-Dx=a b'"
    );
}

#[test]
fn flatpak_plan_routes_through_runner() {
    let p = LunarProcess {
        pid: 8,
        exe: "/h/.lunarclient/bin/java".to_string(),
        launch_cmd_modified: vec!["-Xmx2G".to_string()],
        weave_installed: false,
        flatpak: true,
        home_path: "/h/.lunarclient/offline/multiver".to_string(),
    };
    let listing = "LunarClient\torg.lunarclient.App\tstable\n";
    let plan = launch_flatpak(&p, listing).unwrap();
    assert_eq!(plan.program, "flatpak");
    assert_eq!(
        plan.args,
        vec![
            "run".to_string(),
            "--command=sh".to_string(),
            "org.lunarclient.App".to_string(),
            "-c".to_string(),
            "cd '/h/.lunarclient/offline/multiver' && '/h/.lunarclient/bin/java' '-Xmx2G'"
                .to_string(),
        ]
    );
    assert!(plan.cwd.is_none());
    assert!(plan.env.is_empty());
}

#[test]
fn flatpak_plan_without_entry_fails() {
    let p = LunarProcess {
        pid: 8,
        exe: "/h/.lunarclient/bin/java".to_string(),
        launch_cmd_modified: vec![],
        weave_installed: false,
        flatpak: true,
        home_path: "/h/.lunarclient/offline/multiver".to_string(),
    };
    let r = launch_flatpak(&p, "Firefox org.mozilla.firefox stable\n");
    assert_eq!(r.err(), Some(LaunchError::SandboxAppNotFound));
}

#[test]
fn direct_plan_carries_configuration() {
    let p = LunarProcess {
        pid: 3,
        exe: "/h/.lunarclient/bin/java".to_string(),
        launch_cmd_modified: vec!["-Xmx2G".to_string()],
        weave_installed: false,
        flatpak: false,
        home_path: "/h/.lunarclient/offline/multiver".to_string(),
    };
    let env = vec![("DRI_PRIME".to_string(), "1".to_string())];
    let plan = plan_direct_launch(&p, env.clone());
    assert_eq!(plan.program, p.exe);
    assert_eq!(plan.args, p.launch_cmd_modified);
    assert_eq!(plan.cwd, Some(p.home_path.clone()));
    assert_eq!(plan.env, env);
}

#[test]
fn jar_names() {
    assert!(is_jar_name("Weave-Loader.jar"));
    assert!(is_jar_name("x.JAR"));
    assert!(!is_jar_name("loader.jar.txt"));
    assert!(!is_jar_name(".jar"));
    assert!(!is_jar_name("jar"));
}

#[test]
fn jar_asset_selection() {
    let assets = vec![
        ReleaseAsset { name: "sources.zip".to_string(), url: "u1".to_string() },
        ReleaseAsset { name: "Weave-Loader-1.0.jar".to_string(), url: "u2".to_string() },
        ReleaseAsset { name: "other.jar".to_string(), url: "u3".to_string() },
    ];
    assert_eq!(find_jar_asset(&assets), Some("u2".to_string()));
    let none = vec![ReleaseAsset { name: "readme.md".to_string(), url: "u".to_string() }];
    assert_eq!(find_jar_asset(&none), None);
}

#[test]
fn loader_locations() {
    assert_eq!(weave_dir_path("/home/u"), "/home/u/.weave");
    assert_eq!(weave_loader_path("/home/u"), "/home/u/.weave/loader.jar");
}

#[test]
fn text_search_basics() {
    assert!(contains_substr("/x/.lunarclient/bin/java", "bin/java"));
    assert!(!contains_substr("/usr/bin/python", "bin/java"));
    assert!(starts_with_str("-Dichor.filteredGenesisSentries=1", "-Dichor.filteredGenesisSentries"));
    assert!(!starts_with_str("-Dother", "-Dichor.filteredGenesisSentries"));
}

#[test]
fn app_state_decisions() {
    let mut app = App {
        lunar_client: Some(LunarProcess {
            pid: 1,
            exe: "/h/.lunarclient/bin/java".to_string(),
            launch_cmd_modified: vec![],
            weave_installed: false,
            flatpak: false,
            home_path: "/h/.lunarclient/offline/multiver".to_string(),
        }),
        weaver_path: WEAVE.to_string(),
        downloading: false,
        lunar_weave_ready: (false, false),
    };
    assert!(!app.should_launch());
    app.refresh_status(true);
    assert_eq!(app.lunar_weave_ready, (true, true));
    assert!(app.should_launch());
    if let Some(p) = app.lunar_client.as_mut() {
        p.weave_installed = true;
    }
    assert!(!app.should_launch());
    app.lunar_client = None;
    app.refresh_status(true);
    assert_eq!(app.lunar_weave_ready, (false, true));
    assert!(!app.should_launch());
}

#[test]
fn app_new_starts_idle() {
    let app = App::new(WEAVE);
    assert_eq!(app.weaver_path, WEAVE);
    assert!(!app.downloading);
    assert_eq!(app.lunar_weave_ready, (false, false));
}
