use webworker::WebWorkerFn;

fn echo(b: Box<[u8]>) -> Box<[u8]> {
    b
}

#[test]
fn handles_keep_function_name() {
    assert_eq!(WebWorkerFn::new_unchecked("echo", echo).name, "echo");
    assert_eq!(WebWorkerFn::from_name_unchecked("sort").name, "sort");
}
