//! Tests of the two-tier configuration model: rendering, parsing, the
//! save/load round trip, and interoperability with a real TOML reader.

use gph::cli::{handle_config_command, ConfigCommands, EngineCommands};
use gph::config::{GlobalConfig, ProjectConfig};
use gph::engine::EngineType;
use gph::error::Error;

#[test]
fn global_config_default_renders_empty_table() {
    let config = GlobalConfig::default();
    assert_eq!(config.to_toml_bytes(), b"[engine_paths]\n".to_vec());
}

#[test]
fn global_config_save_then_load_reproduces_paths() {
    let mut config = GlobalConfig::default();
    config.set_engine_path(EngineType::Unreal, b"/opt/UE/RunUAT.sh".to_vec());
    config.set_engine_path(EngineType::Godot, b"/usr/bin/godot".to_vec());
    let saved = config.to_toml_bytes();
    let loaded = GlobalConfig::load(Some(&saved));
    assert_eq!(loaded.engine_paths.unreal, Some(b"/opt/UE/RunUAT.sh".to_vec()));
    assert_eq!(loaded.engine_paths.unity, None);
    assert_eq!(loaded.engine_paths.godot, Some(b"/usr/bin/godot".to_vec()));
}

#[test]
fn global_config_round_trip_keeps_special_bytes() {
    let mut config = GlobalConfig::default();
    let odd = b"C:\\Game Engines\\UE5\n\"odd\"".to_vec();
    config.set_engine_path(EngineType::Unity, odd.clone());
    let saved = config.to_toml_bytes();
    let loaded = GlobalConfig::load(Some(&saved));
    assert_eq!(loaded.engine_paths.unity, Some(odd));
    assert_eq!(loaded.engine_paths.unreal, None);
}

#[test]
fn global_config_absent_file_gives_empty_table() {
    let loaded = GlobalConfig::load(None);
    assert_eq!(loaded.engine_paths.unreal, None);
    assert_eq!(loaded.engine_paths.unity, None);
    assert_eq!(loaded.engine_paths.godot, None);
    assert_eq!(loaded.to_toml_bytes(), b"[engine_paths]\n".to_vec());
}

#[test]
fn global_config_malformed_file_degrades_to_default() {
    let loaded = GlobalConfig::load(Some(&b"this is not a config".to_vec()));
    assert_eq!(loaded.engine_paths.unreal, None);
    assert_eq!(loaded.engine_paths.unity, None);
    assert_eq!(loaded.engine_paths.godot, None);
}

#[test]
fn config_engine_add_persists_and_leaves_others_unset() {
    let mut config = GlobalConfig::load(None);
    let command = Some(ConfigCommands::Engine {
        command: Some(EngineCommands::Add {
            engine_type: EngineType::Unreal,
            path: b"/opt/UE/Engine/Build/BatchFiles".to_vec(),
        }),
    });
    let effect = handle_config_command(command, &mut config);
    assert!(effect.save);
    assert!(effect.output.is_none());
    let reloaded = GlobalConfig::load(Some(&config.to_toml_bytes()));
    assert_eq!(
        reloaded.engine_paths.unreal,
        Some(b"/opt/UE/Engine/Build/BatchFiles".to_vec())
    );
    assert_eq!(reloaded.engine_paths.unity, None);
    assert_eq!(reloaded.engine_paths.godot, None);
}

#[test]
fn config_command_without_subcommand_prints_whole_config() {
    let mut config = GlobalConfig::default();
    config.set_engine_path(EngineType::Godot, b"/usr/bin/godot".to_vec());
    let expected = config.to_toml_bytes();
    let effect = handle_config_command(None, &mut config);
    assert!(!effect.save);
    assert_eq!(effect.output, Some(expected));
}

#[test]
fn config_engine_command_prints_table_only() {
    let mut config = GlobalConfig::default();
    config.set_engine_path(EngineType::Unity, b"/opt/unity".to_vec());
    let effect = handle_config_command(
        Some(ConfigCommands::Engine { command: None }),
        &mut config,
    );
    assert!(!effect.save);
    assert_eq!(effect.output, Some(b"unity = \"/opt/unity\"\n".to_vec()));
}

#[test]
fn saved_config_is_real_toml() {
    let mut config = GlobalConfig::default();
    config.set_engine_path(EngineType::Unreal, b"/opt/UE/RunUAT.sh".to_vec());
    config.set_engine_path(EngineType::Unity, b"C:\\Unity \"LTS\"".to_vec());
    let saved = String::from_utf8(config.to_toml_bytes()).unwrap();
    let value: toml::Value = toml::from_str(&saved).unwrap();
    let table = value.get("engine_paths").unwrap();
    assert_eq!(
        table.get("unreal").unwrap().as_str(),
        Some("/opt/UE/RunUAT.sh")
    );
    assert_eq!(
        table.get("unity").unwrap().as_str(),
        Some("C:\\Unity \"LTS\"")
    );
    assert!(table.get("godot").is_none());
}

#[test]
fn added_engine_path_is_saved_as_one_table_line() {
    let mut config = GlobalConfig::default();
    config.set_engine_path(EngineType::Unreal, b"/opt/UE/Engine/Build/BatchFiles".to_vec());
    assert_eq!(
        config.to_toml_bytes(),
        b"[engine_paths]\nunreal = \"/opt/UE/Engine/Build/BatchFiles\"\n".to_vec()
    );
}

#[test]
fn written_project_config_is_real_toml() {
    let config = ProjectConfig { engine_type: Some(EngineType::Godot) };
    let rendered = String::from_utf8(config.to_toml_bytes()).unwrap();
    let value: toml::Value = toml::from_str(&rendered).unwrap();
    assert_eq!(value.get("engine_type").unwrap().as_str(), Some("Godot"));
}

#[test]
fn project_config_missing_file_is_a_distinct_error() {
    let r = ProjectConfig::load(None);
    assert!(matches!(r, Err(Error::ProjectConfigMissing)));
}

#[test]
fn project_config_empty_file_declares_nothing() {
    let r = ProjectConfig::load(Some(&b"".to_vec())).unwrap();
    assert_eq!(r.engine_type, None);
}

#[test]
fn project_config_reads_declared_engine() {
    let text = b"engine_type = \"Unity\"\n".to_vec();
    let r = ProjectConfig::load(Some(&text)).unwrap();
    assert_eq!(r.engine_type, Some(EngineType::Unity));
}

#[test]
fn project_config_unknown_engine_is_invalid() {
    let text = b"engine_type = \"Blender\"\n".to_vec();
    let r = ProjectConfig::load(Some(&text));
    assert!(matches!(r, Err(Error::ProjectConfigInvalid)));
}

#[test]
fn project_config_malformed_engine_line_is_invalid() {
    let text = b"engine_type = Unity\n".to_vec();
    let r = ProjectConfig::load(Some(&text));
    assert!(matches!(r, Err(Error::ProjectConfigInvalid)));
}

#[test]
fn project_config_skips_comments_and_opaque_options() {
    let text = b"# project settings\nname = \"demo\"\nengine_type = \"Godot\"\n[build]\nprofile = \"release\"\n"
        .to_vec();
    let r = ProjectConfig::load(Some(&text)).unwrap();
    assert_eq!(r.engine_type, Some(EngineType::Godot));
}

#[test]
fn project_config_render_parses_back() {
    let config = ProjectConfig { engine_type: Some(EngineType::Unreal) };
    let rendered = config.to_toml_bytes();
    assert_eq!(rendered, b"engine_type = \"Unreal\"\n".to_vec());
    let reloaded = ProjectConfig::load(Some(&rendered)).unwrap();
    assert_eq!(reloaded.engine_type, Some(EngineType::Unreal));
}

#[test]
fn engine_type_names_round_trip() {
    assert_eq!(EngineType::Unreal.name_bytes(), b"Unreal".to_vec());
    assert_eq!(EngineType::Unity.name_bytes(), b"Unity".to_vec());
    assert_eq!(EngineType::Godot.name_bytes(), b"Godot".to_vec());
    for t in [EngineType::Unreal, EngineType::Unity, EngineType::Godot] {
        assert_eq!(EngineType::parse_name(&t.name_bytes()), Some(t));
    }
    assert_eq!(EngineType::parse_name(&b"unreal".to_vec()), None);
    assert_eq!(EngineType::parse_name(&b"".to_vec()), None);
}
