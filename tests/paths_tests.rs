use ppm::paths::{
    get_project_config_file, get_requirements_file, get_venv_bin_dir, get_venv_pip_path,
    get_venv_python_path, Target,
};

#[test]
fn test_get_venv_paths() {
    let venv_root = "test_venv";

    assert_eq!(get_venv_python_path(venv_root, Target::Windows), "./test_venv/Scripts/python.exe");
    assert_eq!(get_venv_pip_path(venv_root, Target::Windows), "./test_venv/Scripts/pip.exe");
    assert_eq!(get_venv_bin_dir(venv_root, Target::Windows), "./test_venv/Scripts/");

    assert_eq!(get_venv_python_path(venv_root, Target::Unix), "./test_venv/bin/python");
    assert_eq!(get_venv_pip_path(venv_root, Target::Unix), "./test_venv/bin/pip");
    assert_eq!(get_venv_bin_dir(venv_root, Target::Unix), "./test_venv/bin/");
}

#[test]
fn file_names() {
    assert_eq!(get_project_config_file(), "project.toml");
    assert_eq!(get_requirements_file(), "requirements.txt");
}
