use webworker::TaskRegistry;

#[test]
fn registry_hands_out_ids_in_order() {
    let mut r: TaskRegistry<&str> = TaskRegistry::new();
    assert_eq!(r.load(), 0);
    assert_eq!(r.begin("a"), 0);
    assert_eq!(r.begin("b"), 1);
    assert_eq!(r.begin("c"), 2);
    assert_eq!(r.load(), 3);
}

#[test]
fn registry_response_reaches_its_task() {
    let mut r: TaskRegistry<String> = TaskRegistry::new();
    let a = r.begin("first".to_string());
    let b = r.begin("second".to_string());
    assert_eq!(r.complete(b), Some("second".to_string()));
    assert_eq!(r.complete(a), Some("first".to_string()));
    assert_eq!(r.load(), 0);
}

#[test]
fn registry_unknown_response_is_ignored() {
    let mut r: TaskRegistry<u8> = TaskRegistry::new();
    let a = r.begin(7);
    assert_eq!(r.complete(a + 5), None);
    assert_eq!(r.load(), 1);
    assert_eq!(r.complete(a), Some(7));
    assert_eq!(r.complete(a), None);
    assert_eq!(r.load(), 0);
}

#[test]
fn registry_ids_keep_counting_after_completion() {
    let mut r: TaskRegistry<()> = TaskRegistry::new();
    let a = r.begin(());
    assert_eq!(r.complete(a), Some(()));
    assert_eq!(r.begin(()), 1);
    assert_eq!(r.load(), 1);
}
