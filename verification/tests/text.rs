use inference::tensor::copy_dims;
use inference::text::{push_decimal, push_list, push_signed, repeat, same_text};

#[test]
fn decimal_numbers() {
    let written = |n: usize| {
        let mut s = "n=".to_string();
        push_decimal(&mut s, n);
        s
    };
    for n in [0, 7, 10, 909, 1000, usize::MAX] {
        assert_eq!(written(n), format!("n={n}"));
    }
    for n in [0, 5, -5, i32::MAX, i32::MIN] {
        let mut s = String::new();
        push_signed(&mut s, n);
        assert_eq!(s, n.to_string());
    }
}

#[test]
fn lists_of_numbers() {
    let written = |v: Vec<usize>| {
        let mut s = String::new();
        push_list(&mut s, &v);
        s
    };
    assert_eq!(written(vec![]), "[]");
    assert_eq!(written(vec![4]), "[4]");
    assert_eq!(written(vec![4, 0, 12]), "[4, 0, 12]");
    assert_eq!(copy_dims(&vec![4, 0, 12]), vec![4, 0, 12]);
}

#[test]
fn repeated_and_compared_text() {
    assert_eq!(repeat("ab", 3), "ababab");
    assert_eq!(repeat("ab", 0), "");
    assert!(same_text("h\u{e9}", "h\u{e9}"));
    assert!(!same_text("a", "ab"));
    assert!(!same_text("a", "b"));
}
