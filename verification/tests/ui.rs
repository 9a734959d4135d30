use mkrevealslides::paths::PathStatus;
use mkrevealslides::presentation::PresentationConfig;
use mkrevealslides::ui::{
    dir_exists, file_exists, validate_slide_dir, CliArgs, Commands, LogLevel,
    PresentationConfigFile,
};

fn hs(s: &str) -> String {
    String::from(s)
}

fn config_file(include_files: Vec<String>) -> PresentationConfigFile {
    PresentationConfigFile {
        title: hs("Test Presentation"),
        slide_dir: hs("slides"),
        output_dir: hs("output"),
        output_file: hs("output.html"),
        template_file: hs("template.html"),
        include_files,
        working_dir: hs("/tmp/deck"),
    }
}

#[test]
fn test_get_log_level() {
    let level = |verbose: usize| {
        CliArgs { verbose, command: Commands::FromConfig { config_path: hs("config.yaml") } }.get_log_level()
    };
    assert_eq!(level(0), LogLevel::Error);
    assert_eq!(level(1), LogLevel::Warn);
    assert_eq!(level(2), LogLevel::Info);
    assert_eq!(level(3), LogLevel::Debug);
    assert_eq!(level(4), LogLevel::Trace);
    assert_eq!(level(usize::MAX), LogLevel::Trace);
}

#[test]
fn test_convert_paths_to_full_paths() {
    let mut cfg = config_file(vec![hs("slide_1.md"), hs("slide_2.md"), hs("slide_3.md")]);
    assert!(!cfg.discovers_slides());
    assert_eq!(cfg.slide_directory(), "/tmp/deck/slides");
    cfg.convert_paths_to_full_paths();
    assert_eq!(cfg.slide_dir, "/tmp/deck/slides");
    assert_eq!(cfg.output_dir, "/tmp/deck/output");
    assert_eq!(cfg.output_file, "output.html");
    assert_eq!(cfg.template_file, "/tmp/deck/template.html");
    assert_eq!(
        cfg.include_files,
        vec![hs("/tmp/deck/slides/slide_1.md"), hs("/tmp/deck/slides/slide_2.md"), hs("/tmp/deck/slides/slide_3.md")]
    );
    assert_eq!(cfg.title, "Test Presentation");
    assert_eq!(cfg.working_dir, "/tmp/deck");
    assert!(config_file(Vec::new()).discovers_slides());
}

#[test]
fn test_validate_include_paths() {
    let cfg = config_file(vec![hs("/s/1.md"), hs("/s/2.md"), hs("/s/3.md")]);
    let all = vec![PathStatus::File, PathStatus::File, PathStatus::File];
    assert_eq!(cfg.validate_include_paths(&all), Ok(()));
    let second_missing = vec![PathStatus::File, PathStatus::Missing, PathStatus::Directory];
    assert_eq!(cfg.validate_include_paths(&second_missing), Err(hs("File /s/2.md does not exist")));
    let third_dir = vec![PathStatus::File, PathStatus::File, PathStatus::Directory];
    assert_eq!(cfg.validate_include_paths(&third_dir), Err(hs("/s/3.md is not a file")));
    let short = vec![PathStatus::File];
    assert_eq!(cfg.validate_include_paths(&short), Err(hs("File /s/2.md does not exist")));
    assert_eq!(config_file(Vec::new()).validate_include_paths(&Vec::new()), Ok(()));
}

#[test]
fn test_presentation_from_config_file() {
    let cfg = PresentationConfig::from_config_file(config_file(Vec::new()), Vec::new());
    assert_eq!(cfg.title, "Test Presentation");
    assert_eq!(cfg.output_dir, "/tmp/deck/output");
    assert_eq!(cfg.output_filename, "output.html");
    assert_eq!(cfg.template_file, "/tmp/deck/template.html");
    assert!(cfg.slides.is_empty());
}

#[test]
fn test_presentation_from_cli() {
    let cfg = PresentationConfig::from_cli("/cwd", None, "t.html", "out", hs("index.html"), Vec::new());
    assert_eq!(cfg.title, "Untitled Presentation");
    assert_eq!(cfg.output_dir, "/cwd/out");
    assert_eq!(cfg.output_filename, "index.html");
    assert_eq!(cfg.template_file, "/cwd/t.html");
    let cfg = PresentationConfig::from_cli("/cwd", Some(hs("Talk")), "/abs/t.html", "/abs/out", hs("i.html"), Vec::new());
    assert_eq!(cfg.title, "Talk");
    assert_eq!(cfg.output_dir, "/abs/out");
    assert_eq!(cfg.template_file, "/abs/t.html");
}

#[test]
fn test_include_paths() {
    let cfg = config_file(vec![hs("b.md"), hs("sub/a.md"), hs("/abs/c.md")]);
    assert_eq!(
        cfg.include_paths(),
        vec![hs("/tmp/deck/slides/b.md"), hs("/tmp/deck/slides/sub/a.md"), hs("/abs/c.md")]
    );
    assert_eq!(config_file(Vec::new()).include_paths(), Vec::<String>::new());
}

#[test]
fn test_dir_exists() {
    assert_eq!(dir_exists("/d", PathStatus::Directory, &None), Ok(hs("/d")));
    assert_eq!(
        dir_exists("/d", PathStatus::Directory, &Some(hs("denied"))),
        Err(hs("Could not read directory `/d`: denied"))
    );
    assert_eq!(dir_exists("/d", PathStatus::Missing, &None), Err(hs("`/d` does not exist")));
    assert_eq!(dir_exists("/d", PathStatus::Missing, &Some(hs("x"))), Err(hs("`/d` does not exist")));
    assert_eq!(dir_exists("/d", PathStatus::File, &None), Err(hs("`/d` is not a directory")));
    assert_eq!(dir_exists("/d", PathStatus::Other, &None), Err(hs("`/d` is not a directory")));
}

#[test]
fn test_file_exists() {
    assert_eq!(file_exists("/f", PathStatus::File, &None), Ok(hs("/f")));
    assert_eq!(file_exists("/f", PathStatus::File, &Some(hs("denied"))), Err(hs("Could not open file: `denied`")));
    assert_eq!(file_exists("/f", PathStatus::Missing, &Some(hs("gone"))), Err(hs("`/f` does not exist")));
    assert_eq!(file_exists("/f", PathStatus::Directory, &None), Err(hs("`/f` is not a file")));
    assert_eq!(file_exists("/f", PathStatus::Other, &None), Err(hs("`/f` is not a file")));
}

#[test]
fn test_validate_slide_dir() {
    let ok = vec![None, None, None];
    assert_eq!(validate_slide_dir("/s", PathStatus::Directory, &None, &ok), Ok(hs("/s")));
    assert_eq!(validate_slide_dir("/s", PathStatus::Directory, &None, &vec![None]), Ok(hs("/s")));
    assert_eq!(validate_slide_dir("/s", PathStatus::Directory, &None, &Vec::new()), Err(hs("`/s` is empty")));
    assert_eq!(validate_slide_dir("/s", PathStatus::Missing, &None, &ok), Err(hs("`/s` does not exist")));
    assert_eq!(validate_slide_dir("/s", PathStatus::File, &None, &ok), Err(hs("`/s` is not a directory")));
    assert_eq!(
        validate_slide_dir("/s", PathStatus::Directory, &Some(hs("denied")), &Vec::new()),
        Err(hs("Could not read directory `/s`: denied"))
    );
    let failing = vec![Some(hs("first")), None, Some(hs("third")), Some(hs("fourth"))];
    assert_eq!(validate_slide_dir("/s", PathStatus::Directory, &None, &failing), Err(hs("third")));
    assert_eq!(validate_slide_dir("/s", PathStatus::Directory, &None, &vec![Some(hs("first"))]), Ok(hs("/s")));
}
