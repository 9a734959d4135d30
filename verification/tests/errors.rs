use mkrevealslides::errors::{AppError, ArgumentError, PipelineError, ValidationError};
use std::collections::BTreeMap;
use std::io;

#[test]
fn test_apperror_fmt_debug() {
    let err = AppError::new("test");
    assert_eq!(err.to_string(), "App Error: test");
}

#[test]
fn test_apperror_display() {
    let err = AppError::new("test");
    assert_eq!(err.to_string(), "App Error: test");
}

#[test]
fn test_apperror_description() {
    let err = AppError::new("test_desc");
    assert_eq!(err.to_string(), "App Error: test_desc");
}

#[test]
fn test_from_io_error() {
    let err = AppError::from(io::Error::new(io::ErrorKind::Other, "test"));
    assert_eq!(err.to_string(), "IO Error: test");
}

#[test]
fn test_from_parse_int_error() {
    let err = AppError::from("not_num".parse::<i32>().unwrap_err());
    assert!(err.to_string().contains("Parse Error (int)"));
}

#[test]
fn test_from_serde_yaml_error() {
    let bad_yaml_err =
        serde_yaml::from_str::<BTreeMap<String, String>>("invalid_yaml|").unwrap_err();
    let err = AppError::from(bad_yaml_err);
    assert!(err.to_string().contains("Parse Error (yaml)"));
}

#[test]
fn test_from_argument_error() {
    let err = AppError::from(ArgumentError {
        arg: "arg0".to_string(),
        value: "test_value".to_string(),
        reason: "test_reason".to_string(),
    });
    assert_eq!(err.to_string(), "Arg error [arg0=>test_value]: test_reason");
}

#[test]
fn test_from_tera_error() {
    let err = tera::Error::msg("welp".to_string());
    let err = AppError::from(err);
    assert_eq!(err.to_string(), "Template Engine Error: welp");
}

#[test]
fn test_from_validation_error() {
    let err = AppError::from(ValidationError::new("/a/b.txt", "File is not a markdown file".to_string()));
    assert_eq!(err.error_kind, "Validation error [=>/a/b.txt]");
    assert_eq!(err.description, "File is not a markdown file");
    assert_eq!(err.description(), "File is not a markdown file");
}

#[test]
fn test_argument_error_text() {
    let err = ArgumentError::new("template_file".to_string(), "t.html", "is relative".to_string());
    assert_eq!(err.arg, "template_file");
    assert_eq!(err.value, "t.html");
    assert_eq!(err.reason, "is relative");
    assert_eq!(err.to_string(), "ArgError [template_file=>t.html]: is relative");
}

#[test]
fn test_validation_error_text() {
    let err = ValidationError::new("/x", "File does not exist".to_string());
    assert_eq!(err.value, "/x");
    assert_eq!(err.reason, "File does not exist");
    assert_eq!(err.to_string(), "ValidationError [/x]: File does not exist");
}

#[test]
fn test_pipeline_errors_as_app_errors() {
    let cases = vec![
        (PipelineError::DirectoryAccess("/slides".to_string()), "DirectoryAccessError: /slides"),
        (PipelineError::FileType("/slides/x".to_string()), "FileTypeError: /slides/x"),
        (PipelineError::IndexParse("abc".to_string()), "IndexParseError: abc"),
        (PipelineError::AssetNotFound("../a.png".to_string()), "AssetNotFoundError: ../a.png"),
        (PipelineError::TemplateRender("bad".to_string()), "TemplateRenderError: bad"),
        (PipelineError::IoWrite("/out/index.html".to_string()), "IOWriteError: /out/index.html"),
        (
            PipelineError::InvalidSlide(ValidationError::new("a.md", "Path is not absolute".to_string())),
            "Validation error [=>a.md]: Path is not absolute",
        ),
    ];
    for (err, text) in cases {
        assert_eq!(AppError::from(err).to_string(), text);
    }
}

#[test]
fn test_outside_errors_keep_their_text() {
    let err = AppError::from("not_num".parse::<i32>().unwrap_err());
    assert_eq!(err.error_kind, "Parse Error (int)");
    assert_eq!(err.description, "not_num".parse::<i32>().unwrap_err().to_string());
    let yaml = || serde_yaml::from_str::<BTreeMap<String, String>>("invalid_yaml|").unwrap_err();
    let err = AppError::from(yaml());
    assert_eq!(err.error_kind, "Parse Error (yaml)");
    assert_eq!(err.description, yaml().to_string());
    assert!(!err.description.is_empty());
}
