use runner::profiles::EnvironmentProfile;

#[test]
fn test_environment_profiles() {
    let profiles = EnvironmentProfile::all();
    assert_eq!(profiles.len(), 5);

    let dev_scripts = EnvironmentProfile::Development.get_default_scripts();
    assert!(dev_scripts.contains(&"git.sh"));
    assert!(dev_scripts.contains(&"python.sh"));

    let server_scripts = EnvironmentProfile::Server.get_default_scripts();
    assert!(server_scripts.contains(&"openssh-server.sh"));

    assert_eq!(
        EnvironmentProfile::Development.to_string(),
        "Development Machine"
    );
    assert_eq!(EnvironmentProfile::Server.to_string(), "Server");
}

#[test]
fn profiles_come_in_a_fixed_order() {
    assert_eq!(
        EnvironmentProfile::all(),
        vec![
            EnvironmentProfile::Development,
            EnvironmentProfile::Server,
            EnvironmentProfile::EdgeRuntime,
            EnvironmentProfile::Minimal,
            EnvironmentProfile::Custom,
        ]
    );
}

#[test]
fn every_profile_has_its_scripts_and_its_label() {
    assert_eq!(
        EnvironmentProfile::Development.get_default_scripts(),
        vec![
            "apt.sh",
            "git.sh",
            "python.sh",
            "nodejs.sh",
            "flutter.sh",
            "docker-desktop.sh",
            "neovim.sh"
        ]
    );
    assert_eq!(
        EnvironmentProfile::Server.get_default_scripts(),
        vec!["apt.sh", "git.sh", "python.sh", "nodejs.sh", "openssh-server.sh", "podman.sh"]
    );
    assert_eq!(
        EnvironmentProfile::EdgeRuntime.get_default_scripts(),
        vec!["apt.sh", "git.sh", "python.sh", "nodejs.sh"]
    );
    assert_eq!(EnvironmentProfile::Minimal.get_default_scripts(), vec!["apt.sh", "git.sh"]);
    assert!(EnvironmentProfile::Custom.get_default_scripts().is_empty());
    assert_eq!(EnvironmentProfile::EdgeRuntime.to_string(), "Edge Runtime");
    assert_eq!(EnvironmentProfile::Minimal.to_string(), "Minimal");
    assert_eq!(EnvironmentProfile::Custom.to_string(), "Custom");
}
