use ue_log_tail::targets::{
    discovered_project, editor_project_arg, log_path_from_exe, log_path_from_uproject,
    merge_discovered, slugify, Build, Config, Project, TargetError,
};

fn project(key: &str, name: &str, path: &str) -> Project {
    Project { key: key.to_string(), name: name.to_string(), uproject: path.to_string(), discovered: false }
}

#[test]
fn project_log_path() {
    assert_eq!(
        log_path_from_uproject("/work/Shooter/Shooter.uproject"),
        Ok("/work/Shooter/Saved/Logs/Shooter.log".to_string())
    );
}

#[test]
fn build_log_path() {
    assert_eq!(
        log_path_from_exe("/games/dev/Shooter.exe"),
        Ok("/games/dev/Shooter/Saved/Logs/Shooter.log".to_string())
    );
}

#[test]
fn derivation_errors() {
    assert_eq!(log_path_from_uproject("/"), Err(TargetError::InvalidPath));
    assert_eq!(log_path_from_exe("dir/.."), Err(TargetError::InvalidFileName));
    assert_eq!(TargetError::InvalidPath.message(), "Invalid path: no parent directory");
}

#[test]
fn slugs() {
    assert_eq!(slugify("My Cool_Game!"), "my-cool-game");
    assert_eq!(slugify("--Lyra--"), "lyra");
    assert_eq!(slugify("!!!"), "project");
    assert_eq!(slugify("Caf\u{e9} 2"), "caf-2");
}

#[test]
fn name_or_key_falls_back_on_blank_name() {
    assert_eq!(project("k", "  ", "/a.uproject").name_or_key(), "k");
    assert_eq!(project("k", "Nice", "/a.uproject").name_or_key(), "Nice");
    let b = Build { key: "game-dev".to_string(), name: String::new(), exe: "/g.exe".to_string() };
    assert_eq!(b.name_or_key(), "game-dev");
}

#[test]
fn editor_arguments() {
    let args = |v: &[&str]| v.iter().map(|s| s.to_string()).collect::<Vec<String>>();
    assert_eq!(
        editor_project_arg("UnrealEditor.exe", &args(&["x", "D:/P/Game.UPROJECT", "-log"])),
        Some("D:/P/Game.UPROJECT".to_string())
    );
    assert_eq!(
        editor_project_arg("UE4Editor.exe", &args(&["-Project", "/p/A.uproject"])),
        Some("/p/A.uproject".to_string())
    );
    assert_eq!(editor_project_arg("notepad.exe", &args(&["/p/A.uproject"])), None);
    assert_eq!(editor_project_arg("UE5Editor.exe", &args(&["-project"])), None);
}

#[test]
fn discovered_project_from_file() {
    let p = discovered_project("/p/My Game.uproject".to_string());
    assert_eq!(p.name, "My Game");
    assert_eq!(p.key, "my-game");
    assert!(p.discovered);
}

#[test]
fn merge_skips_known_paths_and_keys() {
    let mut cfg = Config { projects: vec![project("Alpha", "Alpha", "/p/Alpha.uproject")], builds: vec![] };
    let paths = vec!["/P/ALPHA.uproject".to_string()];
    let found = vec![
        discovered_project("/p/alpha.uproject".to_string()),
        project("alpha", "Other", "/q/Other.uproject"),
        discovered_project("/p/Beta.uproject".to_string()),
        discovered_project("/p/Beta.uproject".to_string()),
        project("", "", "/p/Gamma Ray.uproject"),
    ];
    let found_paths: Vec<String> = found.iter().map(|p| p.uproject.clone()).collect();
    merge_discovered(&mut cfg, &paths, found, &found_paths);
    let keys: Vec<&str> = cfg.projects.iter().map(|p| p.key.as_str()).collect();
    assert_eq!(keys, vec!["Alpha", "beta", "gamma-ray"]);
    assert_eq!(cfg.projects[2].name, "Gamma Ray");
}
