use raytracer::args::{parse_args, ArgsError, ProgramArgs};

fn strings(v: &[&str]) -> Vec<String> {
    v.iter().map(|s| s.to_string()).collect()
}

#[test]
fn scene_file_alone() {
    let r = parse_args(&strings(&["render", "scene.json"]));
    assert_eq!(r, Ok(ProgramArgs { file_path: "scene.json".to_string(), job_count: 0 }));
}

#[test]
fn scene_file_and_job_count() {
    let r = parse_args(&strings(&["render", "scene.json", "12"]));
    assert_eq!(r, Ok(ProgramArgs { file_path: "scene.json".to_string(), job_count: 12 }));
    let r = parse_args(&strings(&["render", "scene.json", "+7"]));
    assert_eq!(r, Ok(ProgramArgs { file_path: "scene.json".to_string(), job_count: 7 }));
}

#[test]
fn wrong_argument_count_is_usage_error() {
    assert_eq!(parse_args(&strings(&["render"])), Err(ArgsError::Usage));
    assert_eq!(parse_args(&strings(&[])), Err(ArgsError::Usage));
    assert_eq!(
        parse_args(&strings(&["render", "a.json", "2", "extra"])),
        Err(ArgsError::Usage)
    );
}

#[test]
fn non_numeric_job_count_is_rejected() {
    for bad in ["abc", "-1", "", "+", "1 ", "99999999999999999999999"] {
        assert_eq!(
            parse_args(&strings(&["render", "a.json", bad])),
            Err(ArgsError::InvalidJobCount)
        );
    }
}
