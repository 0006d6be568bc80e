use multi_mouse_tool::mouse_config::{enhance_pointer_precision_of, with_enhance_pointer_precision};

#[test]
fn precision_switch_is_the_third_parameter() {
    assert!(enhance_pointer_precision_of([6, 10, 1]));
    assert!(enhance_pointer_precision_of([0, 0, 2]));
    assert!(!enhance_pointer_precision_of([6, 10, 0]));
}

#[test]
fn precision_read_after_write() {
    let on = with_enhance_pointer_precision([6, 10, 0], true);
    assert_eq!(on, [6, 10, 1]);
    assert!(enhance_pointer_precision_of(on));
    let off = with_enhance_pointer_precision([6, 10, 5], false);
    assert_eq!(off, [6, 10, 0]);
    assert!(!enhance_pointer_precision_of(off));
}
