//! A compiler and test-runner for a small language describing phonotactic
//! constraints: named character classes, intent-tagged pattern rules, and
//! example words that must or must not satisfy them.

use vstd::prelude::*;
use vstd::string::*;

pub mod draft;
pub mod engine;
pub mod error;
pub mod generate;
pub mod minify;
pub mod outcome;
pub mod parse;
pub mod statements;
pub mod substitute;
pub mod text;

pub use crate::draft::Draft;
pub use crate::outcome::{DisplayLevel, Outcome};

verus! {

/// The last index of `c` in `s`, or -1 if `c` does not occur.
pub open spec fn find_last(s: Seq<char>, c: char) -> int
    decreases s.len(),
{
    if s.len() == 0 {
        -1
    } else if s.last() == c {
        s.len() - 1
    } else {
        find_last(s.drop_last(), c)
    }
}

proof fn lemma_find_last_frame(s: Seq<char>, c: char, j: int)
    requires
        0 <= j <= s.len(),
        forall|k: int| j <= k < s.len() ==> s[k] != c,
    ensures
        find_last(s, c) == find_last(s.take(j), c),
    decreases s.len() - j,
{
    if j == s.len() {
        assert(s.take(j) =~= s);
    } else {
        lemma_find_last_frame(s, c, j + 1);
        assert(s.take(j + 1).drop_last() =~= s.take(j));
        assert(s.take(j + 1).last() == s[j]);
    }
}

/// What `get_min_filename` returns: the name with `.min` added before the last
/// file extension; `min.` before the whole name if there is no extension; and
/// an empty string for an empty name or one ending in `.`.
pub open spec fn min_filename_spec(f: Seq<char>) -> Seq<char> {
    if f.len() == 0 {
        Seq::<char>::empty()
    } else {
        let d = find_last(f, '.');
        if d == -1 {
            "min."@ + f
        } else if d == f.len() - 1 {
            Seq::<char>::empty()
        } else {
            f.take(d) + ".min."@ + f.skip(d + 1)
        }
    }
}

/// Adds '.min' to a filename, before its last extension.
///
/// Returns 'min.' before the entire name if the filename has no extension,
/// and an empty string if `file` is empty or ends with a period.
pub fn get_min_filename(file: &str) -> (r: String)
    ensures
        r@ == min_filename_spec(file@),
{
    let n = file.unicode_len();
    if n == 0 {
        return String::new();
    }
    // Find the last '.' in the name.
    let mut j: usize = n;
    let mut dot: Option<usize> = None;
    while j > 0
        invariant
            0 <= j <= n,
            n == file@.len(),
            dot matches Some(d) ==> j <= d < n && file@[d as int] == '.' && find_last(
                file@,
                '.',
            ) == d,
            j > 0 ==> dot is None,
            dot is None ==> (forall|k: int| j <= k < n ==> file@[k] != '.'),
        decreases j,
    {
        j = j - 1;
        if file.get_char(j) == '.' {
            proof {
                lemma_find_last_frame(file@, '.', j + 1);
                assert(file@.take(j + 1).last() == file@[j as int]);
            }
            dot = Some(j);
            j = 0;
        }
    }
    match dot {
        None => {
            proof {
                lemma_find_last_frame(file@, '.', 0);
            }
            let mut r = String::from_str("min.");
            r.append(file);
            r
        },
        Some(d) => {
            if d == n - 1 {
                String::new()
            } else {
                let mut r = String::new();
                r.append(file.substring_char(0, d));
                r.append(".min.");
                r.append(file.substring_char(d + 1, n));
                proof {
                    assert(file@.subrange(0, d as int) =~= file@.take(d as int));
                    assert(file@.subrange(d + 1, n as int) =~= file@.skip(d + 1));
                }
                r
            }
        },
    }
}

/// What `format_filename` returns: the name, with `phonet` appended when the
/// name ends with a period or a path separator.
pub open spec fn format_filename_spec(n: Seq<char>) -> Seq<char> {
    if n.len() > 0 && (n.last() == '.' || n.last() == '/' || n.last() == '\\') {
        n + "phonet"@
    } else {
        n
    }
}

/// Formats a filename given as shorthand: a trailing period means the
/// 'phonet' extension, a trailing slash means the 'phonet' file in that
/// directory.
pub fn format_filename(name: String) -> (r: String)
    ensures
        r@ == format_filename_spec(name@),
{
    let n = name.as_str().unicode_len();
    if n > 0 {
        let last = name.as_str().get_char(n - 1);
        if last == '.' || last == '/' || last == '\\' {
            return name.concat("phonet");
        }
    }
    name
}

} // verus!
