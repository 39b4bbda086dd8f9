use tectonic_wasi::memory_io::{normalized_name, MemoryIo};

#[test]
fn empty_store_has_nothing() {
    let m = MemoryIo::new(true);
    assert!(m.stdout_allowed());
    assert!(!m.has_file("doc.aux"));
    assert_eq!(m.get_file("doc.aux"), None);
    assert!(!MemoryIo::new(false).stdout_allowed());
}

#[test]
fn read_after_write() {
    let mut m = MemoryIo::new(false);
    m.insert_file("doc.aux".to_string(), b"first".to_vec());
    m.insert_file("doc.log".to_string(), b"log".to_vec());
    assert_eq!(m.get_file("doc.aux"), Some(b"first".to_vec()));
    m.insert_file("doc.aux".to_string(), b"2nd".to_vec());
    assert_eq!(m.get_file("doc.aux"), Some(b"2nd".to_vec()));
    assert_eq!(m.get_file("doc.log"), Some(b"log".to_vec()));
    assert!(m.has_file("doc.log"));
}

#[test]
fn remove_forgets_only_that_file() {
    let mut m = MemoryIo::new(false);
    m.insert_file("a.xdv".to_string(), vec![1, 2, 3]);
    m.insert_file("a.pdf".to_string(), vec![4]);
    m.remove_file("a.xdv");
    assert!(!m.has_file("a.xdv"));
    assert_eq!(m.get_file("a.pdf"), Some(vec![4]));
    m.remove_file("missing");
    assert!(m.has_file("a.pdf"));
}

#[test]
fn output_then_input_uses_normalized_names() {
    let mut m = MemoryIo::new(false);
    let name = m.output_open_name("./sub//doc.aux");
    assert_eq!(name, "sub/doc.aux");
    m.insert_file(name, b"\\relax".to_vec());
    let (n, data) = m.input_open_name("sub/./doc.aux").expect("stored file");
    assert_eq!(n, "sub/doc.aux");
    assert_eq!(data, b"\\relax".to_vec());
    assert!(m.input_open_name("doc.aux").is_none());
}

#[test]
fn names_are_normalized() {
    assert_eq!(normalized_name("a/./b//c.tex"), "a/b/c.tex");
    assert_eq!(normalized_name("a/../b.tex"), "b.tex");
    assert_eq!(normalized_name("/../x"), "/../x");
}

#[test]
fn normal_paths_are_kept() {
    assert_eq!(normalized_name("doc.xdv"), "doc.xdv");
    assert_eq!(normalized_name("sub/doc.aux"), "sub/doc.aux");
    assert_eq!(normalized_name("/abs/x.tex"), "/abs/x.tex");
    assert_eq!(normalized_name("a/.../b"), "a/.../b");
    let m = MemoryIo::new(false);
    assert_eq!(m.output_open_name("doc.xdv"), "doc.xdv");
}
