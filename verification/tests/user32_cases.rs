use nt61::user32::WindowTable;
use nt61::user32::smoke;

#[test]
fn create_destroy_window_case_passes() {
    let mut windows = WindowTable::new();
    assert!(smoke::test_create_destroy_window(&mut windows));
    assert_eq!(windows.handles, vec![0u64]);
}

#[test]
fn class_register_case_passes_with_null_pointers() {
    assert!(smoke::test_class_register());
}
