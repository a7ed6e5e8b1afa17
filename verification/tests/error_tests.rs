use islog::error::{Errx, Kndx, Srcx};

#[test]
fn kinds_have_their_texts() {
    assert_eq!(Kndx::G("boom".to_string()).message(), "generic error: boom");
    assert_eq!(Kndx::Io("disk".to_string()).message(), "IO error: disk");
    assert_eq!(Kndx::G(String::new()).message(), "generic error: ");
}

#[test]
fn g_and_io_make_errors_without_a_source() {
    let general = Errx::g("boom");
    assert_eq!(general.knd, Kndx::G("boom".to_string()));
    assert!(general.src.is_none());
    assert!(general.bkt.is_some());
    assert_eq!(general.message(), "generic error: boom");
    let io = Errx::io("disk");
    assert_eq!(io.knd, Kndx::Io("disk".to_string()));
    assert!(io.src.is_none());
    assert!(io.bkt.is_some());
    assert_eq!(io.message(), "IO error: disk");
}

#[test]
fn chain_of_a_single_error_is_its_message() {
    assert_eq!(Errx::g("boom").chain(), vec!["generic error: boom".to_string()]);
}

#[test]
fn chain_goes_down_to_an_error_from_elsewhere() {
    let source = Srcx::Other(vec!["file not found".to_string(), "os error 2".to_string()]);
    let e = Errx::e_io(source, "reading old database content");
    assert_eq!(e.knd, Kndx::Io("reading old database content".to_string()));
    assert!(e.bkt.is_some());
    assert_eq!(
        e.chain(),
        vec![
            "IO error: reading old database content".to_string(),
            "file not found".to_string(),
            "os error 2".to_string(),
        ]
    );
    let general = Errx::e_g(Srcx::Other(vec!["inner".to_string()]), "outer");
    assert_eq!(general.knd, Kndx::G("outer".to_string()));
    assert_eq!(
        general.chain(),
        vec!["generic error: outer".to_string(), "inner".to_string()]
    );
}

#[test]
fn chain_goes_through_errors_of_the_library() {
    let lowest = Errx::e_io(Srcx::Other(vec!["denied".to_string()]), "opening LOG.md for writing");
    let middle = Errx::e_g(Srcx::Own(Box::new(lowest)), "updating");
    let top = Errx::e_g(Srcx::Own(Box::new(middle)), "running");
    assert_eq!(
        top.chain(),
        vec![
            "generic error: running".to_string(),
            "generic error: updating".to_string(),
            "IO error: opening LOG.md for writing".to_string(),
            "denied".to_string(),
        ]
    );
}

#[test]
fn new_takes_over_the_backtrace_of_the_error_under_it() {
    let under = Errx {
        src: None,
        bkt: Some("0: first\n   at src/main.rs:1:1\n".to_string()),
        knd: Kndx::Io("disk".to_string()),
    };
    let over = Errx::new(Some(Srcx::Own(Box::new(under))), Kndx::G("outer".to_string()));
    assert_eq!(over.bkt, Some("0: first\n   at src/main.rs:1:1\n".to_string()));
    assert_eq!(over.knd, Kndx::G("outer".to_string()));
    match &over.src {
        Some(Srcx::Own(inner)) => {
            assert!(inner.bkt.is_none());
            assert_eq!(inner.knd, Kndx::Io("disk".to_string()));
            assert!(inner.src.is_none());
        }
        _ => panic!("the error under it is kept"),
    }
}

#[test]
fn new_over_an_error_without_a_backtrace_has_none() {
    let under = Errx { src: None, bkt: None, knd: Kndx::G("inner".to_string()) };
    let over = Errx::new(Some(Srcx::Own(Box::new(under))), Kndx::G("outer".to_string()));
    assert!(over.bkt.is_none());
    assert!(over.backtrace().is_none());
}

#[test]
fn new_captures_a_backtrace_where_it_takes_none_over() {
    let alone = Errx::new(None, Kndx::G("boom".to_string()));
    assert!(alone.bkt.is_some());
    assert!(alone.src.is_none());
    let over = Errx::new(Some(Srcx::Other(vec!["x".to_string()])), Kndx::Io("y".to_string()));
    assert!(over.bkt.is_some());
    match &over.src {
        Some(Srcx::Other(texts)) => assert_eq!(texts, &vec!["x".to_string()]),
        _ => panic!("the error under it is kept"),
    }
}

#[test]
fn backtrace_shows_the_frames_of_the_text() {
    let e = Errx {
        src: None,
        bkt: Some(
            "   0: islog::run\n             at ./src/run.rs:3:5\n   1: std::rt::lang_start\n             at /rustc/abc/library/std/src/rt.rs:1:1\n"
                .to_string(),
        ),
        knd: Kndx::G("boom".to_string()),
    };
    assert_eq!(e.backtrace(), Some(vec!["0: islog::run at ./src/run.rs:3:5".to_string()]));
    assert!(Errx::g("boom").backtrace().is_some());
}
