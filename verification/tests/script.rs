use webworker::script::{replace_all_exec, WASM_PLACEHOLDER};
use webworker::{worker_script, WORKER_JS};

#[test]
fn worker_script_fills_in_module_path() {
    let js = worker_script("./pkg/demo.js");
    assert_eq!(js, WORKER_JS.replace("{{wasm}}", "./pkg/demo.js"));
    assert!(js.contains("import init, * as funcs from \"./pkg/demo.js\";"));
    assert!(!js.contains(WASM_PLACEHOLDER));
}

#[test]
fn worker_script_template_has_one_placeholder() {
    assert_eq!(WORKER_JS.matches("{{wasm}}").count(), 1);
    assert!(WORKER_JS.contains("self.postMessage('post-init');"));
}

#[test]
fn replace_matches_std_replace() {
    let cases = [
        ("aXbXc", "X", "--"),
        ("aaa", "aa", "b"),
        ("", "x", "y"),
        ("no match", "zz", "!"),
        ("{{wasm}}{{wasm}}", "{{wasm}}", "p"),
        ("ünï{{wasm}}cödé", "{{wasm}}", "ä"),
    ];
    for (s, p, w) in cases {
        assert_eq!(replace_all_exec(s, p, w), s.replace(p, w));
    }
}
