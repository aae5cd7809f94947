//! Syntax highlighting for fenced code blocks.
//!
//! No highlighting grammar is registered in this build, so both entry
//! points take the documented fallback: the code is emitted as escaped
//! raw text, and never fails a render.  The transform pipeline marks
//! every code block with one fixed CSS class, so a client-side
//! highlighter can still pick the blocks up.

use vstd::prelude::*;

use crate::text::{chars_to_string, to_chars};

verus! {

/// The HTML escape of one character: the five characters with meaning
/// in markup become entities, everything else stands for itself.
pub open spec fn escape_char(c: char) -> Seq<char> {
    if c == '&' {
        "&amp;"@
    } else if c == '<' {
        "&lt;"@
    } else if c == '>' {
        "&gt;"@
    } else if c == '"' {
        "&quot;"@
    } else if c == '\'' {
        "&#x27;"@
    } else {
        seq![c]
    }
}

/// The HTML escape of a text.
pub open spec fn spec_html_escape(s: Seq<char>) -> Seq<char>
    decreases s.len(),
{
    if s.len() == 0 {
        Seq::empty()
    } else {
        spec_html_escape(s.drop_last()) + escape_char(s.last())
    }
}

/// Escape `s` so it can stand as text inside an HTML document.
pub fn html_escape(s: &str) -> (r: String)
    ensures
        r@ == spec_html_escape(s@),
{
    let cs = to_chars(s);
    let n = cs.len();
    let mut out: Vec<char> = Vec::new();
    let mut i: usize = 0;
    while i < n
        invariant
            0 <= i <= n,
            n == cs@.len(),
            cs@ == s@,
            out@ == spec_html_escape(s@.take(i as int)),
        decreases n - i,
    {
        let c = cs[i];
        proof {
            assert(s@.take(i + 1).drop_last() =~= s@.take(i as int));
            assert(s@.take(i + 1).last() == s@[i as int]);
        }
        if c == '&' {
            let mut piece = to_chars("&amp;");
            out.append(&mut piece);
            proof {
                assert(out@ =~= spec_html_escape(s@.take(i as int)) + escape_char(c));
            }
        } else if c == '<' {
            let mut piece = to_chars("&lt;");
            out.append(&mut piece);
            proof {
                assert(out@ =~= spec_html_escape(s@.take(i as int)) + escape_char(c));
            }
        } else if c == '>' {
            let mut piece = to_chars("&gt;");
            out.append(&mut piece);
            proof {
                assert(out@ =~= spec_html_escape(s@.take(i as int)) + escape_char(c));
            }
        } else if c == '"' {
            let mut piece = to_chars("&quot;");
            out.append(&mut piece);
            proof {
                assert(out@ =~= spec_html_escape(s@.take(i as int)) + escape_char(c));
            }
        } else if c == '\'' {
            let mut piece = to_chars("&#x27;");
            out.append(&mut piece);
            proof {
                assert(out@ =~= spec_html_escape(s@.take(i as int)) + escape_char(c));
            }
        } else {
            out.push(c);
            proof {
                assert(out@ =~= spec_html_escape(s@.take(i as int)) + escape_char(c));
            }
        }
        i += 1;
    }
    proof {
        assert(s@.take(n as int) =~= s@);
    }
    chars_to_string(&out)
}

/// Highlight `code` as language `lang`.  The language is looked up
/// among the registered grammars; none is registered here, so the call
/// always takes the fallback and returns the escaped raw text.
#[allow(unused_variables)]
pub fn highlight(lang: &str, code: &str) -> (r: String)
    ensures
        r@ == spec_html_escape(code@),
{
    html_escape(code)
}

/// Highlight `code` with language auto-detection.  With no grammar to
/// detect against, detection fails and the escaped raw text is
/// returned.
pub fn highlight_auto(code: &str) -> (r: String)
    ensures
        r@ == spec_html_escape(code@),
{
    html_escape(code)
}

} // verus!
