use tock_drivers::filename::{FilenameError, ShortFileName};

fn created(name: &[u8]) -> ShortFileName {
    ShortFileName::create_from_buffer(name).unwrap()
}

#[test]
fn lower_case_becomes_upper_case() {
    let sfn = created(b"hello.txt");
    assert_eq!(sfn.base_name(), b"HELLO");
    assert_eq!(sfn.extension(), b"TXT");
    assert_eq!(sfn.display(None, ' '), "HELLO.TXT");
}

#[test]
fn mixed_case_is_kept() {
    let sfn = ShortFileName::create_from_buffer_mixed_case(b"Hello.Txt").unwrap();
    assert_eq!(sfn.base_name(), b"Hello");
    assert_eq!(sfn.extension(), b"Txt");
    assert_eq!(sfn.display(None, ' '), "Hello.Txt");
}

#[test]
fn name_without_extension() {
    let sfn = created(b"README");
    assert_eq!(sfn.base_name(), b"README");
    assert_eq!(sfn.extension(), b"");
    assert_eq!(sfn.display(None, ' '), "README");
}

#[test]
fn longest_name() {
    let sfn = created(b"12345678.ABC");
    assert_eq!(sfn.base_name(), b"12345678");
    assert_eq!(sfn.extension(), b"ABC");
    assert_eq!(sfn.display(None, ' '), "12345678.ABC");
}

#[test]
fn period_may_be_repeated_before_the_extension() {
    assert_eq!(created(b"A..B"), created(b"A.B"));
    assert_eq!(created(b"A."), created(b"A"));
}

#[test]
fn each_error_has_its_names() {
    for name in [
        &b"A B"[..],
        b"A*",
        b"A?",
        b"A\x00",
        b"A\x1F",
        b"A\"",
        b"A|",
        b"A[",
        b"A/",
        b"A\\",
    ] {
        assert_eq!(
            ShortFileName::create_from_buffer(name),
            Err(FilenameError::InvalidCharacter)
        );
        assert_eq!(
            ShortFileName::create_from_buffer_mixed_case(name),
            Err(FilenameError::InvalidCharacter)
        );
    }
    assert_eq!(
        ShortFileName::create_from_buffer(b""),
        Err(FilenameError::FilenameEmpty)
    );
    assert_eq!(
        ShortFileName::create_from_buffer(b"123456789"),
        Err(FilenameError::NameTooLong)
    );
    assert_eq!(
        ShortFileName::create_from_buffer(b"1.2345"),
        Err(FilenameError::NameTooLong)
    );
    assert_eq!(
        ShortFileName::create_from_buffer(b".A"),
        Err(FilenameError::MisplacedPeriod)
    );
    assert_eq!(
        ShortFileName::create_from_buffer(b"A.B.C"),
        Err(FilenameError::MisplacedPeriod)
    );
}

#[test]
fn only_seven_bit_characters() {
    assert_eq!(
        ShortFileName::create_from_buffer(b"A\x80"),
        Err(FilenameError::InvalidCharacter)
    );
    assert_eq!(
        ShortFileName::create_from_buffer(b"\xFF"),
        Err(FilenameError::InvalidCharacter)
    );
    assert!(ShortFileName::create_from_buffer(b"A\x7F").is_ok());
}

#[test]
fn first_error_counts() {
    assert_eq!(
        ShortFileName::create_from_buffer(b"123456789*"),
        Err(FilenameError::NameTooLong)
    );
    assert_eq!(
        ShortFileName::create_from_buffer(b"1234*6789"),
        Err(FilenameError::InvalidCharacter)
    );
}

#[test]
fn display_fills_up_to_the_width() {
    let sfn = created(b"a.b");
    assert_eq!(sfn.display(Some(6), ' '), "A.B   ");
    assert_eq!(sfn.display(Some(5), '*'), "A.B**");
    assert_eq!(sfn.display(Some(3), '*'), "A.B");
    assert_eq!(sfn.display(Some(1), '*'), "A.B");
}

#[test]
fn debug_text_names_the_type() {
    assert_eq!(created(b"a.b").debug_string(), "ShortFileName(\"A.B\")");
}

#[test]
fn displayed_name_creates_the_same_name() {
    for name in [&b"a"[..], b"ab.c", b"12345678.123", b"Some.Thg"] {
        let sfn = created(name);
        let again = created(sfn.display(None, ' ').as_bytes());
        assert_eq!(again, sfn);
    }
}

#[test]
fn base_period_and_extension_create_the_same_name() {
    for name in [&b"a"[..], b"ab.c", b"12345678.123", b"X..y"] {
        let sfn = created(name);
        let mut text = sfn.base_name().to_vec();
        text.push(b'.');
        text.extend_from_slice(sfn.extension());
        assert_eq!(created(&text), sfn);
    }
}

#[test]
fn what_follows_the_first_offending_byte_does_not_matter() {
    let misplaced = Err(FilenameError::MisplacedPeriod);
    assert_eq!(ShortFileName::create_from_buffer(b"A.B."), misplaced);
    assert_eq!(ShortFileName::create_from_buffer(b"A.B.*"), misplaced);
    assert_eq!(ShortFileName::create_from_buffer(b"A.B.CDEFGH"), misplaced);
    assert_eq!(ShortFileName::create_from_buffer(b".*"), misplaced);
    let invalid = Err(FilenameError::InvalidCharacter);
    assert_eq!(ShortFileName::create_from_buffer(b"A.B*."), invalid);
}
