use vstd::prelude::*;
use vstd::string::StringSliceAdditionalSpecFns;

use crate::reader::DefaultReader;

verus! {

/// A line that holds exactly `---` starts at byte `i`.
pub open spec fn delim_line_at(s: Seq<u8>, i: int) -> bool {
    &&& 0 <= i
    &&& i + 3 <= s.len()
    &&& (i == 0 || s[i - 1] == 10u8)
    &&& s[i] == 45u8 && s[i + 1] == 45u8 && s[i + 2] == 45u8
    &&& (i + 3 == s.len() || s[i + 3] == 10u8)
}

/// The text holds two delimiter lines.
pub open spec fn has_block(s: Seq<u8>) -> bool {
    exists|i: int, j: int| i < j && delim_line_at(s, i) && delim_line_at(s, j)
}

/// The byte range `(a, b)` of the metadata block: it starts right after the
/// `---` of the first delimiter line and ends where the next delimiter line
/// starts.
pub open spec fn is_head_range(s: Seq<u8>, a: int, b: int) -> bool {
    &&& a >= 3
    &&& a <= b
    &&& delim_line_at(s, a - 3)
    &&& delim_line_at(s, b)
    &&& forall|k: int| 0 <= k < b && k != a - 3 ==> !delim_line_at(s, k)
}

fn is_delim_line(b: &[u8], i: usize) -> (r: bool)
    ensures
        r == delim_line_at(b@, i as int),
{
    i < b.len() && b.len() - i >= 3 && (i == 0 || b[i - 1] == 10u8) && b[i] == 45u8 && b[i + 1]
        == 45u8 && b[i + 2] == 45u8 && (b.len() - i == 3 || b[i + 3] == 10u8)
}

impl DefaultReader {
    /// Finds the metadata block of a document: the text between its first
    /// line that holds exactly `---` and the next such line. `None` when
    /// there are not two such lines.
    pub fn fetch_yaml_head(text: &str) -> (r: Option<(usize, usize)>)
        ensures
            r is None <==> !has_block(text.spec_bytes()),
            r matches Some(p) ==> is_head_range(text.spec_bytes(), p.0 as int, p.1 as int),
            text.spec_bytes().len() <= usize::MAX,
    {
        let b = text.as_bytes();
        let ghost s = b@;
        let n = b.len();
        let mut o: usize = 0;
        while o < n && !is_delim_line(b, o)
            invariant
                n == s.len(),
                s == b@,
                o <= n,
                forall|k: int| 0 <= k < o ==> !delim_line_at(s, k),
            decreases n - o,
        {
            o = o + 1;
        }
        if o >= n {
            assert forall|i: int, j: int| !(i < j && delim_line_at(s, i) && delim_line_at(s, j)) by {
                if delim_line_at(s, i) {
                    assert(i < n);
                }
            }
            return None;
        }
        let mut c: usize = o + 1;
        while c < n && !is_delim_line(b, c)
            invariant
                n == s.len(),
                s == b@,
                o < c <= n,
                delim_line_at(s, o as int),
                forall|k: int| 0 <= k < c && k != o ==> !delim_line_at(s, k),
            decreases n - c,
        {
            c = c + 1;
        }
        if c >= n {
            assert forall|i: int, j: int| !(i < j && delim_line_at(s, i) && delim_line_at(s, j)) by {
                if delim_line_at(s, j) {
                    assert(j < n);
                }
            }
            return None;
        }
        proof {
            assert(delim_line_at(s, c as int));
            assert(c >= o + 4) by {
                if c < o + 4 {
                    assert(s[c - 1] == 10u8);
                }
            }
        }
        Some((o + 3, c))
    }
}

} // verus!
