use heaparray::cbox::{on_heap, CBox};

#[test]
fn cbox() {
    let v = 10i32;
    let c = on_heap(v);
    assert_eq!(c.extract(), 10);
}

#[test]
fn box_holds_its_value() {
    let mut b = CBox::new(String::from("abc"));
    assert_eq!(b.as_value(), "abc");
    b.as_mut().push('d');
    assert_eq!(b.get_value(), String::from("abcd"));
    assert_eq!(b.extract(), String::from("abcd"));
}

#[test]
fn box_to_and_from_standard_box() {
    let b = CBox::from_box(Box::new(vec![1u8, 2]));
    let std_box: Box<Vec<u8>> = b.to_box();
    assert_eq!(*std_box, vec![1, 2]);
}

#[test]
fn leaked_value_stays() {
    let leaked: &'static mut u64 = CBox::new(41u64).leak();
    *leaked += 1;
    assert_eq!(*leaked, 42);
}

#[test]
fn inner_size_is_the_size_of_the_value() {
    assert_eq!(CBox::<u8>::inner_size(), 1);
    assert_eq!(CBox::<u64>::inner_size(), 8);
    assert_eq!(CBox::<[u16; 5]>::inner_size(), 10);
}
