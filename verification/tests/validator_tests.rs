use islog::error::Kndx;
use islog::validator::{validate, validate_new_content, ValidationError};

#[test]
fn validate_accepts_plain_text() {
    assert_eq!(validate("hello\nworld"), Ok(()));
    assert_eq!(validate(""), Ok(()));
    assert_eq!(validate("\n\n"), Ok(()));
}

#[test]
fn validate_accepts_one_subtitle() {
    assert_eq!(validate("## 2024-01-02\nhello"), Ok(()));
    assert_eq!(validate("hello\n## 2024-01-02"), Ok(()));
    assert_eq!(validate("## "), Ok(()));
}

#[test]
fn validate_refuses_a_title_wherever_it_stands() {
    assert_eq!(validate("# Title"), Err(ValidationError::TitleNotAllowed));
    assert_eq!(validate("# Title\nhello\nworld"), Err(ValidationError::TitleNotAllowed));
    assert_eq!(validate("hello\n# Title\nworld"), Err(ValidationError::TitleNotAllowed));
    assert_eq!(validate("hello\nworld\n# Title"), Err(ValidationError::TitleNotAllowed));
    assert_eq!(validate("hello\r\n# Title\r\n"), Err(ValidationError::TitleNotAllowed));
    assert_eq!(validate("# "), Err(ValidationError::TitleNotAllowed));
}

#[test]
fn validate_refuses_two_subtitles() {
    assert_eq!(
        validate("## 2024-01-02\n## 2024-01-03"),
        Err(ValidationError::TooManySubtitles(2))
    );
    assert_eq!(
        validate("## a\nx\n## a\ny\n## b"),
        Err(ValidationError::TooManySubtitles(3))
    );
}

#[test]
fn validate_names_the_title_before_the_subtitles() {
    assert_eq!(validate("## a\n## b\n# t"), Err(ValidationError::TitleNotAllowed));
    assert_eq!(validate("# t\n## a\n## b"), Err(ValidationError::TitleNotAllowed));
}

#[test]
fn validate_takes_a_heading_by_the_start_of_its_line() {
    assert_eq!(validate("a # b"), Ok(()));
    assert_eq!(validate("a ## b\nc ## d"), Ok(()));
    assert_eq!(validate(" # indented"), Ok(()));
    assert_eq!(validate("#no space"), Ok(()));
    assert_eq!(validate("#"), Ok(()));
    assert_eq!(validate("##\n##"), Ok(()));
    assert_eq!(validate("### third\n### level"), Ok(()));
}

#[test]
fn validation_error_has_a_message() {
    assert_eq!(
        ValidationError::TitleNotAllowed.message(),
        "cannot have Title (Header 1) in new content"
    );
    assert_eq!(
        ValidationError::TooManySubtitles(12).message(),
        "cannot have more than one Subtitle (Header 2) in new content; currently having 12 subtitles"
    );
}

#[test]
fn validate_new_content_accepts_and_refuses_as_validate_does() {
    assert!(validate_new_content("hello").is_ok());
    assert!(validate_new_content("## 2024-01-02\nhello").is_ok());
    let title = validate_new_content("x\n# Title").unwrap_err();
    assert_eq!(
        title.knd,
        Kndx::G("cannot have Title (Header 1) in new content".to_string())
    );
    assert!(title.src.is_none());
    assert!(title.bkt.is_some());
    let subtitles = validate_new_content("## a\n## b").unwrap_err();
    assert_eq!(
        subtitles.knd,
        Kndx::G(
            "cannot have more than one Subtitle (Header 2) in new content; currently having 2 subtitles"
                .to_string()
        )
    );
    assert_eq!(
        subtitles.message(),
        "generic error: cannot have more than one Subtitle (Header 2) in new content; currently having 2 subtitles"
    );
}
