//! The AI rewrite endpoint's pure computations: assembling the prompt and
//! cleaning the model's answer.

use vstd::prelude::*;
use crate::codec::{chars_of_str, string_from_chars};
use crate::lc::is_space_char;

verus! {

/// `s` with every occurrence of `pat` removed, scanning left to right.
pub open spec fn strip_all(s: Seq<char>, pat: Seq<char>) -> Seq<char>
    decreases s.len(),
{
    if pat.len() == 0 || s.len() == 0 {
        s
    } else if s.len() >= pat.len() && s.take(pat.len() as int) == pat {
        strip_all(s.skip(pat.len() as int), pat)
    } else {
        seq![s[0]] + strip_all(s.drop_first(), pat)
    }
}

/// `s` without leading whitespace.
pub open spec fn trim_start(s: Seq<char>) -> Seq<char>
    decreases s.len(),
{
    if s.len() > 0 && is_space_char(s[0]) {
        trim_start(s.drop_first())
    } else {
        s
    }
}

/// `s` without trailing whitespace.
pub open spec fn trim_end(s: Seq<char>) -> Seq<char>
    decreases s.len(),
{
    if s.len() > 0 && is_space_char(s.last()) {
        trim_end(s.drop_last())
    } else {
        s
    }
}

/// `s` without leading and trailing whitespace.
pub open spec fn trimmed(s: Seq<char>) -> Seq<char> {
    trim_end(trim_start(s))
}

/// Whether `pat` occurs in `s` at position `i`.
fn matches_at(s: &Vec<char>, pat: &Vec<char>, i: usize) -> (b: bool)
    requires
        i <= s@.len(),
    ensures
        b == (i + pat@.len() <= s@.len()
            && s@.skip(i as int).take(pat@.len() as int) == pat@),
{
    if pat.len() > s.len() - i {
        proof {
            assert(i + pat@.len() > s@.len());
        }
        return false;
    }
    let n = s.len();
    let mut k: usize = 0;
    while k < pat.len()
        invariant
            k <= pat@.len(),
            n == s@.len(),
            i + pat@.len() <= n,
            forall|j: int| 0 <= j < k ==> s@[i + j] == #[trigger] pat@[j],
        decreases pat@.len() - k,
    {
        if s[i + k] != pat[k] {
            proof {
                assert(s@.skip(i as int).take(pat@.len() as int)[k as int]
                    == s@[i + k as int]);
            }
            return false;
        }
        k += 1;
    }
    proof {
        assert(s@.skip(i as int).take(pat@.len() as int) =~= pat@);
    }
    true
}

/// Removes every occurrence of `pat`, scanning left to right.
fn strip_all_exec(s: &Vec<char>, pat: &Vec<char>) -> (r: Vec<char>)
    requires
        pat@.len() >= 1,
    ensures
        r@ == strip_all(s@, pat@),
{
    let mut out: Vec<char> = Vec::new();
    let mut i: usize = 0;
    proof {
        assert(s@.skip(0) =~= s@);
    }
    while i < s.len()
        invariant
            i <= s@.len(),
            pat@.len() >= 1,
            out@ + strip_all(s@.skip(i as int), pat@) == strip_all(s@, pat@),
        decreases s@.len() - i,
    {
        let ghost i0 = i as int;
        let ghost u = s@.skip(i0);
        if matches_at(s, pat, i) {
            proof {
                assert(u.len() >= pat@.len());
                assert(u.take(pat@.len() as int) == pat@);
                assert(strip_all(u, pat@) == strip_all(u.skip(pat@.len() as int), pat@));
                assert(u.skip(pat@.len() as int) =~= s@.skip(i0 + pat@.len()));
            }
            i += pat.len();
        } else {
            proof {
                assert(u.len() > 0);
                assert(!(u.len() >= pat@.len() && u.take(pat@.len() as int) == pat@)) by {
                    if u.len() >= pat@.len() {
                        assert(u.take(pat@.len() as int) =~= s@.skip(i0).take(
                            pat@.len() as int));
                    }
                }
                assert(strip_all(u, pat@) == seq![u[0]] + strip_all(u.drop_first(), pat@));
                assert(u.drop_first() =~= s@.skip(i0 + 1));
                assert(u[0] == s@[i0]);
                assert((out@ + seq![s@[i0]]) + strip_all(s@.skip(i0 + 1), pat@)
                    =~= out@ + strip_all(s@.skip(i0), pat@));
            }
            out.push(s[i]);
            i += 1;
        }
    }
    proof {
        assert(s@.skip(s@.len() as int) =~= Seq::<char>::empty());
        assert(strip_all(Seq::<char>::empty(), pat@) == Seq::<char>::empty());
        assert(out@ + Seq::<char>::empty() =~= out@);
    }
    out
}

/// The executable whitespace test, shared with the username policy.
fn is_space_exec(c: char) -> (r: bool)
    ensures
        r == is_space_char(c),
{
    c == '\u{0009}' || c == '\u{000A}' || c == '\u{000B}' || c == '\u{000C}'
        || c == '\u{000D}' || c == '\u{0020}' || c == '\u{0085}' || c == '\u{00A0}'
        || c == '\u{1680}' || c == '\u{2000}' || c == '\u{2001}' || c == '\u{2002}'
        || c == '\u{2003}' || c == '\u{2004}' || c == '\u{2005}' || c == '\u{2006}'
        || c == '\u{2007}' || c == '\u{2008}' || c == '\u{2009}' || c == '\u{200A}'
        || c == '\u{2028}' || c == '\u{2029}' || c == '\u{202F}' || c == '\u{205F}'
        || c == '\u{3000}'
}

/// Drops leading and trailing whitespace.
fn trim_exec(s: &Vec<char>) -> (r: Vec<char>)
    ensures
        r@ == trimmed(s@),
{
    let n = s.len();
    proof {
        assert(s@.skip(0) =~= s@);
    }
    let mut lo: usize = 0;
    while lo < n && is_space_exec(s[lo])
        invariant
            lo <= n,
            n == s@.len(),
            trim_start(s@) == trim_start(s@.skip(lo as int)),
        decreases n - lo,
    {
        proof {
            assert(s@.skip(lo as int).len() > 0);
            assert(s@.skip(lo as int)[0] == s@[lo as int]);
            assert(s@.skip(lo as int).drop_first() =~= s@.skip(lo as int + 1));
        }
        lo += 1;
    }
    proof {
        if lo < n {
            assert(s@.skip(lo as int)[0] == s@[lo as int]);
        }
        assert(trim_start(s@) == s@.skip(lo as int)) by {
            if lo == n {
                assert(s@.skip(lo as int).len() == 0);
            }
        }
    }
    let ghost t = s@.skip(lo as int);
    let mut hi: usize = n;
    while hi > lo && is_space_exec(s[hi - 1])
        invariant
            lo <= hi <= n,
            n == s@.len(),
            t == s@.skip(lo as int),
            trim_end(t) == trim_end(s@.subrange(lo as int, hi as int)),
        decreases hi,
    {
        proof {
            let cur = s@.subrange(lo as int, hi as int);
            assert(cur.len() > 0);
            assert(cur.last() == s@[hi - 1]);
            assert(cur.drop_last() =~= s@.subrange(lo as int, hi as int - 1));
        }
        hi -= 1;
    }
    proof {
        assert(t =~= s@.subrange(lo as int, n as int));
        let cur = s@.subrange(lo as int, hi as int);
        if hi > lo {
            assert(cur.last() == s@[hi - 1]);
        }
        assert(trim_end(cur) == cur) by {
            if hi == lo {
                assert(cur.len() == 0);
            }
        }
    }
    crate::codec::copy_range(s, lo, hi)
}

/// Cleans the model's answer: removes stray code fences — any
/// ```` ```typst ```` opener and any bare ```` ``` ```` — and trims the
/// surrounding whitespace, as the endpoint promises raw code.
pub fn sanitize_code(s: &str) -> (r: String)
    ensures
        r@ == trimmed(strip_all(strip_all(s@, "```typst"@), "```"@)),
{
    proof {
        reveal_strlit("```typst");
        reveal_strlit("```");
    }
    let cs = chars_of_str(s);
    let pat1 = chars_of_str("```typst");
    let pat2 = chars_of_str("```");
    let step1 = strip_all_exec(&cs, &pat1);
    let step2 = strip_all_exec(&step1, &pat2);
    let out = trim_exec(&step2);
    string_from_chars(out)
}

/// Assembles the rewrite prompt around the job description and the current
/// code.
pub fn rewrite_prompt(job_description: &str, code: &str) -> (r: String)
    ensures
        r@ == "You are an expert Resume Optimizer utilizing Typst.\nYour task is to tailor the user's resume for a specific Job Description (JD).\n\nRULES:\n1. Keep the exact same Typst structure, imports, and function calls.\n2. ONLY modify the content strings (bullet points, summary, skills) to match the keywords in the JD.\n3. Do NOT remove any sections unless they are completely irrelevant.\n4. Do NOT add markdown formatting (like ```typst). Return ONLY the raw Typst code.\n5. Maintain a professional tone.\n\nJOB DESCRIPTION:\n"@
            + job_description@ + "\n\nCURRENT TYPST CODE:\n"@ + code@,
{
    let mut r = "You are an expert Resume Optimizer utilizing Typst.\nYour task is to tailor the user's resume for a specific Job Description (JD).\n\nRULES:\n1. Keep the exact same Typst structure, imports, and function calls.\n2. ONLY modify the content strings (bullet points, summary, skills) to match the keywords in the JD.\n3. Do NOT remove any sections unless they are completely irrelevant.\n4. Do NOT add markdown formatting (like ```typst). Return ONLY the raw Typst code.\n5. Maintain a professional tone.\n\nJOB DESCRIPTION:\n".to_owned();
    r.append(job_description);
    r.append("\n\nCURRENT TYPST CODE:\n");
    r.append(code);
    proof {
        assert(r@ =~= "You are an expert Resume Optimizer utilizing Typst.\nYour task is to tailor the user's resume for a specific Job Description (JD).\n\nRULES:\n1. Keep the exact same Typst structure, imports, and function calls.\n2. ONLY modify the content strings (bullet points, summary, skills) to match the keywords in the JD.\n3. Do NOT remove any sections unless they are completely irrelevant.\n4. Do NOT add markdown formatting (like ```typst). Return ONLY the raw Typst code.\n5. Maintain a professional tone.\n\nJOB DESCRIPTION:\n"@
            + job_description@ + "\n\nCURRENT TYPST CODE:\n"@ + code@);
    }
    r
}

} // verus!
