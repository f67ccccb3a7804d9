//! The provisioning transaction: validation, rollback and commit.

use eagle::config::{build_java_args, eula_content, server_properties_content};
use eagle::error::Error;
use eagle::provision::{
    parse_server_type, run_create, validate_server_name, DirGuard, ServerType, StepFailures,
    TargetStore,
};

#[test]
fn server_name_validation() {
    assert_eq!(validate_server_name("survival"), Ok(()));
    assert_eq!(validate_server_name("my server 2"), Ok(()));
    assert_eq!(validate_server_name(""), Err(Error::InvalidName));
    assert_eq!(validate_server_name("   "), Err(Error::InvalidName));
    assert_eq!(validate_server_name("a/b"), Err(Error::InvalidName));
    assert_eq!(validate_server_name("a\\b"), Err(Error::InvalidName));
    assert_eq!(validate_server_name("a:b"), Err(Error::InvalidName));
    assert_eq!(validate_server_name("a?b"), Err(Error::InvalidName));
    assert_eq!(validate_server_name("a*b"), Err(Error::InvalidName));
    assert_eq!(validate_server_name("a\"b"), Err(Error::InvalidName));
    assert_eq!(validate_server_name("<a>"), Err(Error::InvalidName));
    assert_eq!(validate_server_name("a|b"), Err(Error::InvalidName));
    assert_eq!(validate_server_name("..evil"), Err(Error::InvalidName));
    assert_eq!(validate_server_name("a..b"), Err(Error::InvalidName));
    assert_eq!(validate_server_name("a.b"), Ok(()));
}

#[test]
fn server_type_parsing() {
    assert_eq!(parse_server_type("paper"), Some(ServerType::Paper));
    assert_eq!(parse_server_type("PAPER"), Some(ServerType::Paper));
    assert_eq!(parse_server_type("Fabric"), Some(ServerType::Fabric));
    assert_eq!(parse_server_type("vanilla"), None);
    assert_eq!(parse_server_type(""), None);
    assert_eq!(ServerType::Paper.as_str(), "paper");
    assert_eq!(ServerType::Fabric.as_str(), "fabric");
}

#[test]
fn dir_guard_commit_discipline() {
    let mut g = DirGuard::new("survival".to_string());
    assert!(g.needs_rollback());
    g.commit();
    assert!(!g.needs_rollback());
}

#[test]
fn create_succeeds_and_populates_target() {
    let mut store = TargetStore::new();
    let r = run_create(
        &mut store,
        "survival",
        22222,
        "eagle minecraft server",
        false,
        false,
        "jar-bytes",
        &StepFailures::none(),
    );
    assert_eq!(r, Ok("survival".to_string()));
    assert!(store.contains_target("survival"));
    let dir = &store.dirs[0];
    let mut names: Vec<&str> = dir.files.iter().map(|f| f.name.as_str()).collect();
    names.sort();
    assert_eq!(names, vec!["eula.txt", "server.jar", "server.properties"]);
    for f in dir.files.iter() {
        match f.name.as_str() {
            "eula.txt" => assert_eq!(f.content, eula_content()),
            "server.properties" => {
                assert_eq!(f.content, server_properties_content(22222, "eagle minecraft server"))
            }
            "server.jar" => assert_eq!(f.content, "jar-bytes"),
            other => panic!("unexpected file: {other}"),
        }
    }
}

#[test]
fn create_skip_download_writes_config_only() {
    let mut store = TargetStore::new();
    let r = run_create(
        &mut store,
        "lobby",
        25565,
        "hi",
        false,
        true,
        "",
        &StepFailures::none(),
    );
    assert_eq!(r, Ok("lobby".to_string()));
    let dir = &store.dirs[0];
    assert_eq!(dir.files.len(), 2);
    assert!(dir.files.iter().all(|f| f.name != "server.jar"));
}

#[test]
fn create_rejects_invalid_name_untouched() {
    let mut store = TargetStore::new();
    let r = run_create(
        &mut store,
        "a/b",
        22222,
        "m",
        false,
        true,
        "",
        &StepFailures::none(),
    );
    assert_eq!(r, Err(Error::InvalidName));
    assert!(store.dirs.is_empty());
}

#[test]
fn create_rejects_existing_target_without_force() {
    let mut store = TargetStore::new();
    run_create(&mut store, "survival", 1, "a", false, true, "", &StepFailures::none()).unwrap();
    let r = run_create(&mut store, "survival", 2, "b", false, true, "", &StepFailures::none());
    assert_eq!(r, Err(Error::AlreadyExists));
    // The existing target is untouched.
    let dir = &store.dirs[0];
    let props = dir
        .files
        .iter()
        .find(|f| f.name == "server.properties")
        .unwrap();
    assert_eq!(props.content, server_properties_content(1, "a"));
}

#[test]
fn create_force_replaces_existing_target() {
    let mut store = TargetStore::new();
    run_create(&mut store, "survival", 1, "a", false, true, "", &StepFailures::none()).unwrap();
    let r = run_create(&mut store, "survival", 2, "b", true, true, "", &StepFailures::none());
    assert_eq!(r, Ok("survival".to_string()));
    assert_eq!(store.dirs.len(), 1);
    let props = store.dirs[0]
        .files
        .iter()
        .find(|f| f.name == "server.properties")
        .unwrap();
    assert_eq!(props.content, server_properties_content(2, "b"));
}

#[test]
fn rollback_on_failure_at_every_step() {
    let failing = Error::TransferFailed { status: Some(500) };
    let plans = [
        StepFailures { eula: Some(failing), properties: None, download: None },
        StepFailures { eula: None, properties: Some(failing), download: None },
        StepFailures { eula: None, properties: None, download: Some(failing) },
    ];
    for plan in plans.iter() {
        let mut store = TargetStore::new();
        let r = run_create(&mut store, "survival", 22222, "m", false, false, "jar", plan);
        assert_eq!(r, Err(failing));
        // The rollback invariant: no half-populated target survives.
        assert!(!store.contains_target("survival"));
        assert!(store.dirs.is_empty());
    }
}

#[test]
fn rollback_on_failure_preserves_other_targets() {
    let mut store = TargetStore::new();
    run_create(&mut store, "lobby", 1, "a", false, true, "", &StepFailures::none()).unwrap();
    let plan = StepFailures {
        eula: None,
        properties: None,
        download: Some(Error::TransferFailed { status: None }),
    };
    let r = run_create(&mut store, "survival", 2, "b", false, false, "jar", &plan);
    assert_eq!(r, Err(Error::TransferFailed { status: None }));
    assert!(!store.contains_target("survival"));
    assert!(store.contains_target("lobby"));
}

#[test]
fn rollback_with_force_removes_old_target_too() {
    // Forced re-creation deletes the old target first; a later failure must
    // still leave nothing behind.
    let mut store = TargetStore::new();
    run_create(&mut store, "survival", 1, "a", false, true, "", &StepFailures::none()).unwrap();
    let plan = StepFailures { eula: Some(Error::SyncFailed), properties: None, download: None };
    let r = run_create(&mut store, "survival", 2, "b", true, false, "jar", &plan);
    assert_eq!(r, Err(Error::SyncFailed));
    assert!(!store.contains_target("survival"));
}

#[test]
fn eula_content_is_exact() {
    assert_eq!(
        eula_content(),
        "# By changing the setting below to TRUE you are indicating your\n# agreement to our EULA (https://aka.ms/MinecraftEULA).\neula=true\n"
    );
}

#[test]
fn server_properties_content_is_exact() {
    let content = server_properties_content(22222, "eagle minecraft server");
    let expected_lines = [
        "enable-jmx-monitoring=false",
        "server-port=22222",
        "server-ip=",
        "motd=eagle minecraft server",
        "enable-command-block=false",
        "online-mode=true",
        "level-name=world",
        "gamemode=survival",
        "difficulty=easy",
        "max-players=20",
        "view-distance=10",
        "simulation-distance=10",
        "spawn-protection=16",
        "sync-chunk-writes=true",
        "enable-rcon=false",
        "enable-query=false",
        "enforce-secure-profile=true",
        "white-list=false",
        "pvp=true",
        "allow-flight=false",
        "generate-structures=true",
        "level-seed=",
        "allow-nether=true",
        "spawn-animals=true",
        "spawn-monsters=true",
        "spawn-npcs=true",
        "use-native-transport=true",
    ];
    assert_eq!(content, format!("{}\n", expected_lines.join("\n")));
}

#[test]
fn java_args_are_exact() {
    let args = build_java_args(8192, "C:\\servers\\s\\server.jar");
    assert_eq!(args.len(), 25);
    assert_eq!(args[0], "-Xmx8192M");
    assert_eq!(args[1], "-Xms8192M");
    assert_eq!(args[2], "-XX:+UseG1GC");
    assert_eq!(args[21], "-Dusing.aikars.flags=https://mcutils.com");
    assert_eq!(args[22], "-jar");
    assert_eq!(args[23], "C:\\servers\\s\\server.jar");
    assert_eq!(args[24], "nogui");
}
