//! Path safety and configuration helpers.

use worldsync::coordinator::record_written;
use worldsync::file_manager::FileManager;
use worldsync::paths::check_path;

#[test]
fn safe_relative_paths_pass() {
    assert!(check_path("a/b.txt"));
    assert!(check_path("world/region/r.0.0.mca"));
    assert!(check_path("level.dat"));
    // Dots that do not form a parent-directory segment are fine.
    assert!(check_path("a..b"));
    assert!(check_path("notes../x"));
    assert!(check_path("..hidden"));
}

#[test]
fn unsafe_paths_are_rejected() {
    assert!(!check_path(""));
    assert!(!check_path("/etc/passwd"));
    assert!(!check_path(".."));
    assert!(!check_path("../sibling"));
    assert!(!check_path("a/../b"));
    assert!(!check_path("a/.."));
    assert!(!check_path("a\\b"));
}

#[test]
fn minecraft_paths_follow_the_username() {
    let paths = worldsync::config::get_minecraft_paths("alex");
    assert_eq!(paths.len(), 2);
    assert_eq!(
        paths[0],
        "C:\\Users\\alex\\AppData\\Local\\Packages\\Microsoft.MinecraftUWP_8wekyb3d8bbwe\\LocalState\\games\\com.mojang\\minecraftWorlds"
    );
    assert_eq!(
        paths[1],
        "C:\\Users\\alex\\AppData\\Local\\Packages\\Microsoft.MinecraftUWP_8wekyb3d8bbwe\\LocalState\\games\\com.mojang\\development_behavior_packs"
    );
}

#[test]
fn server_addr_renders_host_and_port() {
    let config = worldsync::config::Config {
        server: worldsync::config::ServerConfig { port: 9100, host: "0.0.0.0".to_string() },
        sync: worldsync::config::SyncConfig {
            devices: Vec::new(),
            conflict_resolution: "newest".to_string(),
            sync_interval: 60,
        },
        paths: worldsync::config::PathConfig { minecraft_worlds: "worlds".to_string() },
    };
    assert_eq!(config.get_server_addr(), "0.0.0.0:9100");
}

#[test]
fn server_addr_port_edges() {
    let mut config = worldsync::config::Config {
        server: worldsync::config::ServerConfig { port: 0, host: "localhost".to_string() },
        sync: worldsync::config::SyncConfig {
            devices: Vec::new(),
            conflict_resolution: "newest".to_string(),
            sync_interval: 60,
        },
        paths: worldsync::config::PathConfig { minecraft_worlds: "worlds".to_string() },
    };
    assert_eq!(config.get_server_addr(), "localhost:0");
    config.server.port = 65535;
    assert_eq!(config.get_server_addr(), "localhost:65535");
}

#[test]
fn written_content_is_fingerprinted() {
    let mut manager = FileManager::new("root".to_string());
    record_written(&mut manager, "a/b.txt".to_string(), 5, b"x");
    let info = manager.get_file_info("a/b.txt").unwrap();
    assert_eq!(info.size, 1);
    assert_eq!(info.last_modified, 5);
    assert_eq!(info.hash, "2d711642b726b04401627ca9fbac32f5c8530fb1903cc4db02258717921a4881");
}
