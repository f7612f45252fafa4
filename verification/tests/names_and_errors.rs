use memreader::error::{deliver, MemReaderError};
use memreader::names::{c_string_len, decode_name};

#[test]
fn c_string_ends_at_the_first_nul() {
    assert_eq!(c_string_len(b"abc\0def\0"), 3);
    assert_eq!(c_string_len(b"\0abc"), 0);
    assert_eq!(c_string_len(b"a\0"), 1);
}

#[test]
fn c_string_without_nul_is_the_whole_buffer() {
    assert_eq!(c_string_len(b"abc"), 3);
    assert_eq!(c_string_len(b""), 0);
}

#[test]
fn decode_name_reads_up_to_the_nul() {
    assert_eq!(decode_name(b"/bin/ls\0\0\0").unwrap(), "/bin/ls");
    assert_eq!(decode_name(b"\0/bin/ls").unwrap(), "");
    assert_eq!(decode_name(b"plain").unwrap(), "plain");
}

#[test]
fn decode_name_decodes_utf8() {
    let raw = "/Users/zoë/Übung\0rest".as_bytes();
    assert_eq!(decode_name(raw).unwrap(), "/Users/zoë/Übung");
}

#[test]
fn decode_name_rejects_bytes_that_are_not_utf8() {
    assert!(matches!(decode_name(&[0x66, 0xff, 0x00]), Err(MemReaderError::CString)));
    assert!(matches!(decode_name(&[0xe2, 0x82, 0x00, 0xac]), Err(MemReaderError::CString)));
}

#[test]
fn decode_name_ignores_bad_bytes_after_the_nul() {
    assert_eq!(decode_name(&[0x66, 0x00, 0xff, 0xfe]).unwrap(), "f");
}

#[test]
fn description_is_empty() {
    assert_eq!(MemReaderError::CString.description(), "");
    assert_eq!(MemReaderError::Other(3).description(), "");
    assert_eq!(MemReaderError::FewerBytesRead(1, vec![1]).description(), "");
}

#[test]
fn errors_show_their_contents() {
    assert_eq!(format!("{:?}", MemReaderError::Handle(None)), "Handle(None)");
    assert_eq!(
        format!("{:?}", MemReaderError::UnsuccessfulRead(Some(-2))),
        "UnsuccessfulRead(Some(-2))"
    );
    assert_eq!(
        format!("{:?}", MemReaderError::FewerBytesRead(2, vec![1, 2])),
        "FewerBytesRead(2, [1, 2])"
    );
    assert_eq!(format!("{:?}", MemReaderError::Other(9)), "Other(9)");
    assert_eq!(format!("{:?}", MemReaderError::CString), "CString");
}

#[test]
fn deliver_hands_back_all_the_bytes_asked_for() {
    assert_eq!(deliver(3, 3, vec![1, 2, 3]).unwrap(), vec![1, 2, 3]);
    assert_eq!(deliver(3, 7, vec![1, 2, 3]).unwrap(), vec![1, 2, 3]);
    assert_eq!(deliver(2, 3, vec![1, 2, 3]).unwrap(), vec![1, 2]);
    assert!(deliver(0, 0, Vec::new()).unwrap().is_empty());
}

#[test]
fn deliver_reports_a_short_count_with_the_bytes_that_came() {
    match deliver(4, 1, vec![8, 0, 0, 0]) {
        Err(MemReaderError::FewerBytesRead(count, bytes)) => {
            assert_eq!(count, 1);
            assert_eq!(bytes, vec![8]);
        }
        other => panic!("unexpected result: {:?}", other),
    }
    match deliver(4, 9, vec![8, 9]) {
        Err(MemReaderError::FewerBytesRead(count, bytes)) => {
            assert_eq!(count, 2);
            assert_eq!(bytes, vec![8, 9]);
        }
        other => panic!("unexpected result: {:?}", other),
    }
}
