//! The credential store's rewrite rule: a flat key-value file is updated by
//! replacing every line that starts with the key, keeping everything else.
//! Reading and writing the file itself is the caller's concern; this module
//! only computes the new lines.

use vstd::prelude::*;
use vstd::string::StringExecFns;

use crate::text::{starts_with_spec, starts_with_str};

verus! {

/// What one line becomes: a line starting with the key is replaced by
/// `key=value`, any other line is kept as it is.
pub open spec fn updated_line_spec(line: Seq<char>, key: Seq<char>, value: Seq<char>) -> Seq<
    char,
> {
    if starts_with_spec(line, key) {
        key + "="@ + value
    } else {
        line
    }
}

/// Rewrites the lines of a key-value file, setting `key` to `value` on
/// every line that starts with the key and keeping all other lines.
pub fn update_env_lines(lines: &Vec<String>, key: &str, value: &str) -> (r: Vec<String>)
    ensures
        r.deep_view().len() == lines.deep_view().len(),
        forall|i: int|
            0 <= i < lines.deep_view().len() ==> #[trigger] r.deep_view()[i] == updated_line_spec(
                lines.deep_view()[i],
                key@,
                value@,
            ),
{
    let n = lines.len();
    let mut r: Vec<String> = Vec::new();
    let mut i: usize = 0;
    while i < n
        invariant
            n == lines@.len(),
            0 <= i <= n,
            r.deep_view().len() == i,
            forall|j: int|
                0 <= j < i ==> #[trigger] r.deep_view()[j] == updated_line_spec(
                    lines.deep_view()[j],
                    key@,
                    value@,
                ),
        decreases n - i,
    {
        let ghost r0 = r.deep_view();
        proof {
            assert(lines.deep_view()[i as int] == lines@[i as int]@);
        }
        let line = &lines[i];
        if starts_with_str(line.as_str(), key) {
            let mut replaced = String::from_str(key);
            replaced.append("=");
            replaced.append(value);
            assert(replaced@ =~= key@ + "="@ + value@);
            let ghost rv = replaced@;
            r.push(replaced);
            proof {
                assert(r.deep_view() =~~= r0.push(rv));
            }
        } else {
            let kept = line.clone();
            let ghost kv = kept@;
            r.push(kept);
            proof {
                assert(r.deep_view() =~~= r0.push(kv));
            }
        }
        i += 1;
    }
    r
}

} // verus!
