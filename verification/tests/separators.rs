use blockgen::misc::{write_comma_fmt, write_comma_io};

fn written(items: &[&str]) -> String {
    let mut out = String::new();
    let mut comma = false;
    for item in items {
        write_comma_fmt(&mut out, &mut comma);
        out.push_str(item);
    }
    out
}

fn written_bytes(items: &[&[u8]]) -> Vec<u8> {
    let mut out = Vec::new();
    let mut comma = false;
    for item in items {
        write_comma_io(&mut out, &mut comma);
        out.extend_from_slice(item);
    }
    out
}

#[test]
fn first_request_writes_nothing() {
    let mut out = String::from("[");
    let mut comma = false;
    write_comma_fmt(&mut out, &mut comma);
    assert_eq!(out, "[");
    assert!(comma);
}

#[test]
fn later_requests_write_a_comma() {
    let mut out = String::from("[1");
    let mut comma = true;
    write_comma_fmt(&mut out, &mut comma);
    assert_eq!(out, "[1,");
    assert!(comma);
    write_comma_fmt(&mut out, &mut comma);
    assert_eq!(out, "[1,,");
    assert!(comma);
}

#[test]
fn first_request_writes_no_byte() {
    let mut out = vec![b'['];
    let mut comma = false;
    write_comma_io(&mut out, &mut comma);
    assert_eq!(out, b"[");
    assert!(comma);
}

#[test]
fn later_requests_write_a_comma_byte() {
    let mut out = vec![b'[', b'1'];
    let mut comma = true;
    write_comma_io(&mut out, &mut comma);
    assert_eq!(out, b"[1,");
    assert!(comma);
}

#[test]
fn no_sibling_no_separator() {
    assert_eq!(written(&[]), "");
    assert_eq!(written_bytes(&[]), b"");
}

#[test]
fn one_sibling_no_separator() {
    assert_eq!(written(&["a"]), "a");
    assert_eq!(written_bytes(&[b"a"]), b"a");
}

#[test]
fn two_siblings_one_separator() {
    assert_eq!(written(&["a", "b"]), "a,b");
    assert_eq!(written_bytes(&[b"a", b"b"]), b"a,b");
}

#[test]
fn three_siblings_two_separators() {
    assert_eq!(written(&["a", "b", "c"]), "a,b,c");
    assert_eq!(written_bytes(&[b"a", b"b", b"c"]), b"a,b,c");
}

#[test]
fn separators_number_one_less_than_siblings() {
    for k in 0..8usize {
        let items: Vec<&str> = std::iter::repeat("x").take(k).collect();
        let out = written(&items);
        assert_eq!(out.matches(',').count(), k.saturating_sub(1));
        assert!(!out.starts_with(','));
        assert!(!out.ends_with(','));
        assert_eq!(out.len(), k + k.saturating_sub(1));
    }
}
