//! Tests of the engine abstraction and the build/package flows: detection,
//! engine selection, command planning, outcome mapping and error rendering.

use gph::config::{GlobalConfig, ProjectConfig};
use gph::engine::{
    build_outcome, no_project_message, package_outcome, select_project, Engine, EngineType,
    ToolStatus,
};
use gph::error::Error;
use gph::manager::{resolve_output_path, ProjectManager};
use gph::text::{i32_decimal, u64_decimal};

fn entries(names: &[&[u8]]) -> Vec<Vec<u8>> {
    names.iter().map(|n| n.to_vec()).collect()
}

#[test]
fn detection_on_empty_directory_finds_nothing() {
    let engine = Engine { engine_type: EngineType::Unreal, tool_path: None };
    let found = engine.detect_projects(&b"/work/empty".to_vec(), &Vec::new());
    assert_eq!(found.len(), 0);
}

#[test]
fn detection_finds_unreal_descriptors_in_order() {
    let engine = Engine { engine_type: EngineType::Unreal, tool_path: None };
    let root = b"/work/game".to_vec();
    let listing = entries(&[b"Docs", b"Foo.uproject", b"notes.txt", b"Bar.uproject"]);
    let found = engine.detect_projects(&root, &listing);
    assert_eq!(found.len(), 2);
    assert_eq!(found[0].name, b"Foo".to_vec());
    assert_eq!(found[0].path, b"/work/game/Foo.uproject".to_vec());
    assert_eq!(found[0].engine_type, EngineType::Unreal);
    assert_eq!(found[1].name, b"Bar".to_vec());
    assert_eq!(found[1].path, b"/work/game/Bar.uproject".to_vec());
}

#[test]
fn detection_ignores_a_bare_descriptor_suffix() {
    let engine = Engine { engine_type: EngineType::Unreal, tool_path: None };
    let found = engine.detect_projects(&b"/w".to_vec(), &entries(&[b".uproject"]));
    assert_eq!(found.len(), 0);
}

#[test]
fn detection_finds_a_unity_project_by_its_assets_folder() {
    let engine = Engine { engine_type: EngineType::Unity, tool_path: None };
    let root = b"/work/unity-game".to_vec();
    let found = engine.detect_projects(&root, &entries(&[b"Assets", b"Library", b"Temp"]));
    assert_eq!(found.len(), 1);
    assert_eq!(found[0].name, root);
    assert_eq!(found[0].path, root);
    assert_eq!(found[0].engine_type, EngineType::Unity);
}

#[test]
fn detection_finds_a_godot_project_by_its_descriptor() {
    let engine = Engine { engine_type: EngineType::Godot, tool_path: None };
    let root = b"/work/godot-game".to_vec();
    let found = engine.detect_projects(&root, &entries(&[b"project.godot", b"scenes"]));
    assert_eq!(found.len(), 1);
    assert_eq!(found[0].path, root);
}

#[test]
fn flows_act_on_the_first_detected_project() {
    let engine = Engine { engine_type: EngineType::Unreal, tool_path: None };
    let root = b"/w".to_vec();
    let found = engine.detect_projects(&root, &entries(&[b"A.uproject", b"B.uproject"]));
    let chosen = select_project(&found).unwrap();
    assert_eq!(chosen.name, b"A".to_vec());
    assert!(select_project(&Vec::new()).is_none());
}

#[test]
fn no_project_message_names_engine_and_path() {
    let m = no_project_message(EngineType::Unity, &b"/tmp/empty".to_vec());
    assert_eq!(m, b"No Unity project found at path '/tmp/empty'".to_vec());
}

#[test]
fn get_engine_reflects_the_configuration_snapshot() {
    let mut config = GlobalConfig::default();
    config.set_engine_path(EngineType::Unity, b"/opt/unity".to_vec());
    let manager = ProjectManager::new(config);
    let first = manager.get_engine(EngineType::Unity).unwrap();
    let second = manager.get_engine(EngineType::Unity).unwrap();
    assert_eq!(first.engine_type, second.engine_type);
    assert_eq!(first.tool_path, second.tool_path);
    assert_eq!(first.tool_path, Some(b"/opt/unity".to_vec()));
    let unconfigured = manager.get_engine(EngineType::Godot).unwrap();
    assert_eq!(unconfigured.tool_path, None);
}

#[test]
fn build_without_declared_engine_fails_before_any_scan() {
    let manager = ProjectManager::new(GlobalConfig::default());
    let project_config = ProjectConfig { engine_type: None };
    let r = manager.resolve_engine(&project_config);
    assert!(matches!(r, Err(Error::EngineTypeNotSpecified)));
}

#[test]
fn declared_unity_without_registered_path_is_not_configured() {
    let manager = ProjectManager::new(GlobalConfig::default());
    let project_config = ProjectConfig { engine_type: Some(EngineType::Unity) };
    let engine = manager.resolve_engine(&project_config).unwrap();
    assert_eq!(engine.tool_path, None);
    let found = engine.detect_projects(&b"/w".to_vec(), &entries(&[b"Assets"]));
    let r = engine.build_command(&found[0]);
    match r {
        Err(Error::EngineNotConfigured(t)) => assert_eq!(t, EngineType::Unity),
        _ => panic!("expected an engine-not-configured error"),
    }
}

#[test]
fn build_command_runs_the_registered_tool() {
    let engine = Engine {
        engine_type: EngineType::Unreal,
        tool_path: Some(b"/opt/UE/RunUAT.sh".to_vec()),
    };
    let root = b"/work/game".to_vec();
    let found = engine.detect_projects(&root, &entries(&[b"Foo.uproject"]));
    assert_eq!(found.len(), 1);
    let cmd = engine.build_command(&found[0]).unwrap();
    assert_eq!(cmd.program, b"/opt/UE/RunUAT.sh".to_vec());
    assert_eq!(
        cmd.args,
        vec![
            b"BuildCookRun".to_vec(),
            b"-project=/work/game/Foo.uproject".to_vec()
        ]
    );
}

#[test]
fn package_flow_plans_build_then_package_into_output() {
    let mut config = GlobalConfig::default();
    config.set_engine_path(EngineType::Unreal, b"/opt/UE/RunUAT.sh".to_vec());
    let manager = ProjectManager::new(config);
    let project_config = ProjectConfig { engine_type: Some(EngineType::Unreal) };
    let engine = manager.resolve_engine(&project_config).unwrap();
    let root = b".".to_vec();
    let found = engine.detect_projects(&root, &entries(&[b"Solo.uproject"]));
    assert_eq!(found.len(), 1);
    let output = resolve_output_path(&root, &Some(b"/tmp/out".to_vec()), &b"unused".to_vec());
    assert_eq!(output, b"/tmp/out".to_vec());
    let build = engine.build_command(&found[0]).unwrap();
    let package = engine.package_command(&found[0], &output).unwrap();
    assert_eq!(build.program, package.program);
    assert_eq!(package.args.last(), Some(&b"/tmp/out".to_vec()));
    assert_eq!(&package.args[..package.args.len() - 1], &build.args[..]);
}

#[test]
fn default_output_path_is_timestamped_under_the_project() {
    let out = resolve_output_path(&b"/proj".to_vec(), &None, &b"20260101-120000".to_vec());
    assert_eq!(out, b"/proj/.gph/packages/20260101-120000".to_vec());
}

#[test]
fn build_outcome_succeeds_only_on_exit_zero() {
    let engine = Engine { engine_type: EngineType::Godot, tool_path: Some(b"/usr/bin/godot".to_vec()) };
    let found = engine.detect_projects(&b"/g".to_vec(), &entries(&[b"project.godot"]));
    assert!(build_outcome(&found[0], ToolStatus::Exited(0)).is_ok());
    let failed = build_outcome(&found[0], ToolStatus::Exited(3)).unwrap_err();
    assert_eq!(
        failed.message(),
        b"build of project '/g' failed with exit status 3".to_vec()
    );
    let interrupted = build_outcome(&found[0], ToolStatus::Interrupted).unwrap_err();
    assert_eq!(
        interrupted.message(),
        b"build of project '/g' failed without an exit status".to_vec()
    );
}

#[test]
fn package_outcome_reports_the_packaging_phase() {
    let engine = Engine { engine_type: EngineType::Unity, tool_path: Some(b"/opt/unity".to_vec()) };
    let found = engine.detect_projects(&b"/u".to_vec(), &entries(&[b"Assets"]));
    assert!(package_outcome(&found[0], ToolStatus::Exited(0)).is_ok());
    let failed = package_outcome(&found[0], ToolStatus::Exited(-9)).unwrap_err();
    assert_eq!(
        failed.message(),
        b"packaging of project '/u' failed with exit status -9".to_vec()
    );
    assert!(matches!(failed, Error::PackageFailure { .. }));
}

#[test]
fn init_plans_a_fresh_project_and_never_overwrites() {
    let manager = ProjectManager::new(GlobalConfig::default());
    let path = b"/work/new-game".to_vec();
    let plan = manager.init_project(&path, false);
    assert_eq!(plan.project_dir, path);
    assert_eq!(plan.config_path, b"/work/new-game/gph.toml".to_vec());
    assert_eq!(plan.contents, Some(Vec::new()));
    let again = manager.init_project(&path, true);
    assert_eq!(again.contents, None);
}

#[test]
fn error_messages_name_each_condition() {
    assert_eq!(
        Error::ProjectConfigMissing.message(),
        b"no project configuration file found in the project directory".to_vec()
    );
    assert_eq!(
        Error::ProjectConfigInvalid.message(),
        b"the project configuration file is malformed".to_vec()
    );
    assert_eq!(
        Error::EngineTypeNotSpecified.message(),
        b"the project configuration does not declare an engine type".to_vec()
    );
    assert_eq!(
        Error::UnsupportedEngine(EngineType::Godot).message(),
        b"no engine backend is available for Godot".to_vec()
    );
    assert_eq!(
        Error::EngineNotConfigured(EngineType::Unity).message(),
        b"no engine path is configured for Unity; register one with `gph config engine add`"
            .to_vec()
    );
    assert_eq!(
        Error::ConfigPersistFailure(b"disk full".to_vec()).message(),
        b"failed to save the global configuration: disk full".to_vec()
    );
}

#[test]
fn decimal_rendering_matches_expected_digits() {
    assert_eq!(u64_decimal(0), b"0".to_vec());
    assert_eq!(u64_decimal(12034), b"12034".to_vec());
    assert_eq!(i32_decimal(-42), b"-42".to_vec());
    assert_eq!(i32_decimal(7), b"7".to_vec());
    assert_eq!(i32_decimal(i32::MIN), b"-2147483648".to_vec());
}
