use syscall_engine::kernel::script::{parse_header, Header};

fn script(interpreter: &str, argument: Option<&str>) -> Header {
    Header::Script {
        interpreter: interpreter.as_bytes().to_vec(),
        argument: argument.map(|a| a.as_bytes().to_vec()),
    }
}

#[test]
fn plain_files_are_no_scripts() {
    assert_eq!(parse_header(&b"\x7fELF\x02\x01\x01".to_vec()), Header::NotScript);
    assert_eq!(parse_header(&b"".to_vec()), Header::NotScript);
    assert_eq!(parse_header(&b"#".to_vec()), Header::NotScript);
    assert_eq!(parse_header(&b" #!/bin/sh\n".to_vec()), Header::NotScript);
    assert_eq!(parse_header(&b"!#/bin/sh\n".to_vec()), Header::NotScript);
}

#[test]
fn interpreter_without_argument() {
    assert_eq!(parse_header(&b"#!/bin/sh\necho hi\n".to_vec()), script("/bin/sh", None));
    assert_eq!(parse_header(&b"#!/bin/sh".to_vec()), script("/bin/sh", None));
    assert_eq!(parse_header(&b"#! \t /bin/sh  \t\n".to_vec()), script("/bin/sh", None));
    assert_eq!(parse_header(&b"#!/bin/sh\0junk -x".to_vec()), script("/bin/sh", None));
}

#[test]
fn interpreter_with_one_argument() {
    assert_eq!(
        parse_header(&b"#!/usr/bin/env python3\n".to_vec()),
        script("/usr/bin/env", Some("python3"))
    );
    assert_eq!(
        parse_header(&b"#! /usr/bin/awk \t -f  x  \nBEGIN".to_vec()),
        script("/usr/bin/awk", Some("-f  x"))
    );
}

#[test]
fn a_line_without_interpreter_is_malformed() {
    assert_eq!(parse_header(&b"#!".to_vec()), Header::Malformed);
    assert_eq!(parse_header(&b"#!\n/bin/sh".to_vec()), Header::Malformed);
    assert_eq!(parse_header(&b"#!  \t \n".to_vec()), Header::Malformed);
}
