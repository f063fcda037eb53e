//! The script that each worker runs, and its assembly from a template.
use crate::text::{chars_of, push_char};
use vstd::prelude::*;
use vstd::string::StringExecFns;

verus! {

/// The worker script template. The worker imports the module at `{{wasm}}`,
/// initialises it, announces `post-init`, and then answers each request
/// `{ id, func_name, arg }` with `{ id, response }`, where `response` is what
/// the exported function `__webworker_<func_name>` returns for `arg`, or
/// `null` when no such function is exported.
pub const WORKER_JS: &'static str = r#"
import init, * as funcs from "{{wasm}}";
console.debug('Initializing worker');

(async () => {
    await init();
    self.postMessage('post-init');

    self.addEventListener('message', async event => {
        console.debug('Received worker event');
        const { id, func_name, arg } = event.data;

        const webworker_func_name = `__webworker_${func_name}`;
        const fn = funcs[webworker_func_name];
        if (!fn) {
            console.error(`Function '${func_name}' is not exported.`);
            self.postMessage({ id: id, response: null });
            return;
        }

        const worker_result = await fn(arg);

        // Send response back to be handled by callback in main thread.
        console.debug('Send worker result');
        self.postMessage({ id: id, response: worker_result });
    });
})();
"#;

/// The placeholder in the template that stands for the module's path.
pub const WASM_PLACEHOLDER: &'static str = "{{wasm}}";

/// Whether `pat` occurs in `s` at position `i`.
pub open spec fn occurs_at(s: Seq<char>, i: int, pat: Seq<char>) -> bool {
    0 <= i && i + pat.len() <= s.len() && s.subrange(i, i + pat.len()) == pat
}

/// `s` with each occurrence of the non-empty `pat`, found from left to right
/// without overlap, replaced by `with`.
pub open spec fn replace_all(s: Seq<char>, pat: Seq<char>, with: Seq<char>) -> Seq<char>
    decreases s.len(),
{
    if s.len() == 0 || pat.len() == 0 {
        s
    } else if occurs_at(s, 0, pat) {
        with + replace_all(s.skip(pat.len() as int), pat, with)
    } else {
        seq![s[0]] + replace_all(s.skip(1), pat, with)
    }
}

/// An occurrence of the pattern at the start is replaced by the whole
/// replacement text, whatever it is, and the rest is replaced on its own.
pub proof fn law_occurrence_becomes_whole_replacement(pat: Seq<char>, t: Seq<char>, w: Seq<char>)
    requires
        pat.len() > 0,
    ensures
        replace_all(pat + t, pat, w) == w + replace_all(t, pat, w),
{
    let s = pat + t;
    assert(s.subrange(0, pat.len() as int) =~= pat);
    assert(s.skip(pat.len() as int) =~= t);
}

/// Text in which the pattern occurs nowhere comes back unchanged.
pub proof fn law_text_without_pattern_is_unchanged(s: Seq<char>, pat: Seq<char>, w: Seq<char>)
    requires
        pat.len() > 0,
        forall|i: int| 0 <= i < s.len() ==> !#[trigger] occurs_at(s, i, pat),
    ensures
        replace_all(s, pat, w) == s,
    decreases s.len(),
{
    if s.len() > 0 {
        let t = s.skip(1);
        assert forall|i: int| 0 <= i < t.len() implies !#[trigger] occurs_at(t, i, pat) by {
            if occurs_at(t, i, pat) {
                assert(s.subrange(i + 1, i + 1 + pat.len()) =~= t.subrange(i, i + pat.len()));
                assert(occurs_at(s, i + 1, pat));
            }
        }
        assert(!occurs_at(s, 0, pat));
        law_text_without_pattern_is_unchanged(t, pat, w);
        assert(seq![s[0]] + t =~= s);
    }
}

/// Whether `pat` occurs in `s` at position `i`.
fn occurs_at_exec(s: &Vec<char>, i: usize, pat: &Vec<char>) -> (b: bool)
    ensures
        b == occurs_at(s@, i as int, pat@),
{
    let m = pat.len();
    if m > s.len() || i > s.len() - m {
        return false;
    }
    let mut j: usize = 0;
    while j < m
        invariant
            m == pat@.len(),
            i + m <= s.len(),
            j <= m,
            forall|k: int| 0 <= k < j ==> s@[i + k] == pat@[k],
        decreases m - j,
    {
        if s[i + j] != pat[j] {
            assert(s@.subrange(i as int, i + m)[j as int] != pat@[j as int]);
            return false;
        }
        j = j + 1;
    }
    assert(s@.subrange(i as int, i + m) =~= pat@);
    true
}

/// `s` with each occurrence of `pat` replaced by `with`, as `str::replace` does
/// for a non-empty pattern.
pub fn replace_all_exec(s: &str, pat: &str, with: &str) -> (r: String)
    requires
        pat@.len() > 0,
    ensures
        r@ == replace_all(s@, pat@, with@),
{
    let sv = chars_of(s);
    let pv = chars_of(pat);
    let n = sv.len();
    let m = pv.len();
    let mut r = String::new();
    let mut i: usize = 0;
    assert(s@.skip(0) =~= s@);
    assert(r@ + replace_all(s@, pat@, with@) =~= replace_all(s@, pat@, with@));
    while i < n
        invariant
            sv@ == s@,
            pv@ == pat@,
            n == sv@.len(),
            m == pv@.len(),
            m > 0,
            i <= n,
            replace_all(s@, pat@, with@) == r@ + replace_all(s@.skip(i as int), pat@, with@),
        decreases n - i,
    {
        let ghost rest = s@.skip(i as int);
        let ghost before = r@;
        assert(rest.len() > 0);
        if occurs_at_exec(&sv, i, &pv) {
            assert(rest.subrange(0, m as int) =~= sv@.subrange(i as int, i + m));
            assert(occurs_at(rest, 0, pat@));
            r.append(with);
            assert(rest.skip(m as int) =~= s@.skip(i + m));
            i = i + m;
            assert(r@ + replace_all(s@.skip(i as int), pat@, with@) =~= before + (with@
                + replace_all(rest.skip(m as int), pat@, with@)));
        } else {
            assert(!occurs_at(rest, 0, pat@)) by {
                if occurs_at(rest, 0, pat@) {
                    assert(rest.subrange(0, m as int) =~= sv@.subrange(i as int, i + m));
                }
            }
            push_char(&mut r, sv[i]);
            assert(rest.skip(1) =~= s@.skip(i + 1));
            i = i + 1;
            assert(r@ + replace_all(s@.skip(i as int), pat@, with@) =~= before + (seq![rest[0]]
                + replace_all(rest.skip(1), pat@, with@)));
        }
    }
    assert(s@.skip(n as int) =~= Seq::<char>::empty());
    assert(r@ =~= r@ + replace_all(s@.skip(n as int), pat@, with@));
    r
}

/// The script for a worker that loads the module at `wasm_path`: the template
/// with the placeholder replaced by that path.
pub fn worker_script(wasm_path: &str) -> (js: String)
    ensures
        js@ == replace_all(WORKER_JS@, WASM_PLACEHOLDER@, wasm_path@),
{
    proof {
        reveal_strlit("{{wasm}}");
    }
    replace_all_exec(WORKER_JS, WASM_PLACEHOLDER, wasm_path)
}

} // verus!
