use avmir::args::{Args, MemoryInput};

fn described(text: &str) -> Option<(usize, Option<String>)> {
    match MemoryInput::from_str(text) {
        Ok(MemoryInput::Virtual { size }) => Some((size, None)),
        Ok(MemoryInput::FileMap { size, path }) => Some((size, Some(path))),
        Err(_) => None,
    }
}

#[test]
fn a_size_alone_is_a_buffer_in_memory() {
    assert_eq!(described("1024"), Some((1024, None)));
    assert_eq!(described("0"), Some((0, None)));
    assert_eq!(described("+8"), Some((8, None)));
}

#[test]
fn a_size_and_a_path_is_a_mapped_file() {
    assert_eq!(described("4096:/tmp/unit.bin"), Some((4096, Some("/tmp/unit.bin".to_string()))));
    assert_eq!(described("16:"), Some((16, Some(String::new()))));
    assert_eq!(described("16:a:b"), Some((16, Some("a".to_string()))));
    assert_eq!(described("16:dürr"), Some((16, Some("dürr".to_string()))));
}

#[test]
fn other_text_is_no_memory_unit() {
    for text in ["", "abc", ":path", "-1", "1.5", "12 ", "x:12", "99999999999999999999999", "99999999999999999999999:f"] {
        assert!(MemoryInput::from_str(text).is_err(), "{:?}", text);
    }
}

#[test]
fn arguments_hold_units_libraries_and_files() {
    let args = Args {
        memory: vec![MemoryInput::Virtual { size: 8 }],
        library: vec!["avmir_std".to_string()],
        files: vec!["a.avm".to_string(), "b.avm".to_string()],
    };
    assert_eq!(args.memory.len(), 1);
    assert_eq!(args.library, vec!["avmir_std".to_string()]);
    assert_eq!(args.files.len(), 2);
}
