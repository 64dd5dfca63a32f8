//! The LeetCode profile computation: folding the per-difficulty counts the
//! upstream GraphQL answer carries into the profile shape this API serves,
//! and the input policy of the submissions relay.

use vstd::prelude::*;

verus! {

/// Solved/total for one difficulty bucket.
#[derive(PartialEq, Eq, Structural, Clone, Copy, Debug)]
pub struct Slot {
    pub complete: i32,
    pub total: i32,
}

impl Default for Slot {
    /// Both counters start at zero.
    fn default() -> (r: Slot)
        ensures
            r.complete == 0 && r.total == 0,
    {
        Slot { complete: 0, total: 0 }
    }
}

/// The profile served: one bucket per difficulty and one for everything.
#[derive(PartialEq, Eq, Structural, Clone, Copy, Debug)]
pub struct LeetCodeProfile {
    pub easy: Slot,
    pub medium: Slot,
    pub hard: Slot,
    pub total: Slot,
}

impl Default for LeetCodeProfile {
    /// All counters start at zero.
    fn default() -> (r: LeetCodeProfile)
        ensures
            r.easy == (Slot { complete: 0, total: 0 }),
            r.medium == (Slot { complete: 0, total: 0 }),
            r.hard == (Slot { complete: 0, total: 0 }),
            r.total == (Slot { complete: 0, total: 0 }),
    {
        LeetCodeProfile {
            easy: Slot { complete: 0, total: 0 },
            medium: Slot { complete: 0, total: 0 },
            hard: Slot { complete: 0, total: 0 },
            total: Slot { complete: 0, total: 0 },
        }
    }
}

/// The views of labelled counts.
pub open spec fn rows_view(rows: Seq<(String, i32)>) -> Seq<(Seq<char>, i32)> {
    rows.map_values(|p: (String, i32)| (p.0@, p.1))
}

/// The count the last row labelled `name` carries, or zero where none is:
/// a later row overwrites an earlier one, as a fold over the rows does.
pub open spec fn count_for(rows: Seq<(Seq<char>, i32)>, name: Seq<char>) -> int
    decreases rows.len(),
{
    if rows.len() == 0 {
        0
    } else if rows.last().0 == name {
        rows.last().1 as int
    } else {
        count_for(rows.drop_last(), name)
    }
}

/// Folds the labelled question counts and accepted-submission counts into
/// the profile: rows labelled `All`, `Easy`, `Medium` and `Hard` land in
/// their buckets, any other label is ignored, and the last row for a label
/// wins.
pub fn profile_from_counts(questions: &Vec<(String, i32)>, solved: &Vec<(String, i32)>) -> (p:
    LeetCodeProfile)
    ensures
        p.total.total as int == count_for(rows_view(questions@), "All"@),
        p.easy.total as int == count_for(rows_view(questions@), "Easy"@),
        p.medium.total as int == count_for(rows_view(questions@), "Medium"@),
        p.hard.total as int == count_for(rows_view(questions@), "Hard"@),
        p.total.complete as int == count_for(rows_view(solved@), "All"@),
        p.easy.complete as int == count_for(rows_view(solved@), "Easy"@),
        p.medium.complete as int == count_for(rows_view(solved@), "Medium"@),
        p.hard.complete as int == count_for(rows_view(solved@), "Hard"@),
{
    let all_s = String::from_str("All");
    let easy_s = String::from_str("Easy");
    let medium_s = String::from_str("Medium");
    let hard_s = String::from_str("Hard");
    let mut p = LeetCodeProfile::default();
    let mut i: usize = 0;
    while i < questions.len()
        invariant
            i <= questions@.len(),
            all_s@ == "All"@,
            easy_s@ == "Easy"@,
            medium_s@ == "Medium"@,
            hard_s@ == "Hard"@,
            p.total.total as int == count_for(rows_view(questions@.take(i as int)), "All"@),
            p.easy.total as int == count_for(rows_view(questions@.take(i as int)), "Easy"@),
            p.medium.total as int == count_for(rows_view(questions@.take(i as int)),
                "Medium"@),
            p.hard.total as int == count_for(rows_view(questions@.take(i as int)), "Hard"@),
            p.total.complete == 0 && p.easy.complete == 0 && p.medium.complete == 0
                && p.hard.complete == 0,
        decreases questions@.len() - i,
    {
        proof {
            reveal_strlit("All");
            reveal_strlit("Easy");
            reveal_strlit("Medium");
            reveal_strlit("Hard");
            assert("All"@ != "Easy"@ && "All"@ != "Medium"@ && "All"@ != "Hard"@
                && "Easy"@ != "Medium"@ && "Medium"@ != "Hard"@) by {
                assert("All"@.len() == 3 && "Easy"@.len() == 4 && "Medium"@.len() == 6
                    && "Hard"@.len() == 4);
            }
            assert("Easy"@ != "Hard"@) by {
                assert("Easy"@[0] != "Hard"@[0]);
            }
            let rows = rows_view(questions@.take(i as int + 1));
            assert(rows.drop_last() =~= rows_view(questions@.take(i as int)));
            assert(rows.last().0 == questions@[i as int].0@);
            assert(rows.last().1 == questions@[i as int].1);
        }
        let row = &questions[i];
        if row.0 == all_s {
            p.total.total = row.1;
        } else if row.0 == easy_s {
            p.easy.total = row.1;
        } else if row.0 == medium_s {
            p.medium.total = row.1;
        } else if row.0 == hard_s {
            p.hard.total = row.1;
        }
        i += 1;
    }
    proof {
        assert(questions@.take(questions@.len() as int) =~= questions@);
    }
    let mut i: usize = 0;
    while i < solved.len()
        invariant
            i <= solved@.len(),
            all_s@ == "All"@,
            easy_s@ == "Easy"@,
            medium_s@ == "Medium"@,
            hard_s@ == "Hard"@,
            p.total.total as int == count_for(rows_view(questions@), "All"@),
            p.easy.total as int == count_for(rows_view(questions@), "Easy"@),
            p.medium.total as int == count_for(rows_view(questions@), "Medium"@),
            p.hard.total as int == count_for(rows_view(questions@), "Hard"@),
            p.total.complete as int == count_for(rows_view(solved@.take(i as int)), "All"@),
            p.easy.complete as int == count_for(rows_view(solved@.take(i as int)), "Easy"@),
            p.medium.complete as int == count_for(rows_view(solved@.take(i as int)),
                "Medium"@),
            p.hard.complete as int == count_for(rows_view(solved@.take(i as int)), "Hard"@),
        decreases solved@.len() - i,
    {
        proof {
            reveal_strlit("All");
            reveal_strlit("Easy");
            reveal_strlit("Medium");
            reveal_strlit("Hard");
            assert("All"@ != "Easy"@ && "All"@ != "Medium"@ && "All"@ != "Hard"@
                && "Easy"@ != "Medium"@ && "Medium"@ != "Hard"@) by {
                assert("All"@.len() == 3 && "Easy"@.len() == 4 && "Medium"@.len() == 6
                    && "Hard"@.len() == 4);
            }
            assert("Easy"@ != "Hard"@) by {
                assert("Easy"@[0] != "Hard"@[0]);
            }
            let rows = rows_view(solved@.take(i as int + 1));
            assert(rows.drop_last() =~= rows_view(solved@.take(i as int)));
            assert(rows.last().0 == solved@[i as int].0@);
            assert(rows.last().1 == solved@[i as int].1);
        }
        let row = &solved[i];
        if row.0 == all_s {
            p.total.complete = row.1;
        } else if row.0 == easy_s {
            p.easy.complete = row.1;
        } else if row.0 == medium_s {
            p.medium.complete = row.1;
        } else if row.0 == hard_s {
            p.hard.complete = row.1;
        }
        i += 1;
    }
    proof {
        assert(solved@.take(solved@.len() as int) =~= solved@);
    }
    p
}

/// Clamps the requested submission count into `0..=20`, with absence as
/// zero.
pub open spec fn clamped_limit(count: Option<i32>) -> int {
    match count {
        None => 0,
        Some(c) => if c < 0 {
            0
        } else if c > 20 {
            20
        } else {
            c as int
        },
    }
}

/// The executable clamp behind `clamped_limit`.
pub fn clamp_submissions_limit(count: Option<i32>) -> (r: i32)
    ensures
        r as int == clamped_limit(count),
{
    let mut limit = match count {
        Some(c) => c,
        None => 0,
    };
    if limit < 0 {
        limit = 0;
    }
    if limit > 20 {
        limit = 20;
    }
    limit
}

/// The characters `str::trim` removes.
pub open spec fn is_space_char(c: char) -> bool {
    c == '\u{0009}' || c == '\u{000A}' || c == '\u{000B}' || c == '\u{000C}'
        || c == '\u{000D}' || c == '\u{0020}' || c == '\u{0085}' || c == '\u{00A0}'
        || c == '\u{1680}' || c == '\u{2000}' || c == '\u{2001}' || c == '\u{2002}'
        || c == '\u{2003}' || c == '\u{2004}' || c == '\u{2005}' || c == '\u{2006}'
        || c == '\u{2007}' || c == '\u{2008}' || c == '\u{2009}' || c == '\u{200A}'
        || c == '\u{2028}' || c == '\u{2029}' || c == '\u{202F}' || c == '\u{205F}'
        || c == '\u{3000}'
}

/// A string is blank when every character is whitespace (so trimming it
/// leaves nothing).
pub open spec fn is_blank(s: Seq<char>) -> bool {
    forall|i: int| 0 <= i < s.len() ==> is_space_char(#[trigger] s[i])
}

/// The executable whitespace test for one character.
fn is_space_exec(c: char) -> (r: bool)
    ensures
        r == is_space_char(c),
{
    c == '\u{0009}' || c == '\u{000A}' || c == '\u{000B}' || c == '\u{000C}'
        || c == '\u{000D}' || c == '\u{0020}' || c == '\u{0085}' || c == '\u{00A0}'
        || c == '\u{1680}' || c == '\u{2000}' || c == '\u{2001}' || c == '\u{2002}'
        || c == '\u{2003}' || c == '\u{2004}' || c == '\u{2005}' || c == '\u{2006}'
        || c == '\u{2007}' || c == '\u{2008}' || c == '\u{2009}' || c == '\u{200A}'
        || c == '\u{2028}' || c == '\u{2029}' || c == '\u{202F}' || c == '\u{205F}'
        || c == '\u{3000}'
}

/// Whether a username is usable: not blank.  A blank username is rejected
/// before any upstream call.
pub fn username_is_valid(username: &str) -> (r: bool)
    ensures
        r == !is_blank(username@),
{
    let n = username.unicode_len();
    let mut i: usize = 0;
    while i < n
        invariant
            i <= n,
            n == username@.len(),
            forall|k: int| 0 <= k < i ==> is_space_char(#[trigger] username@[k]),
        decreases n - i,
    {
        if !is_space_exec(username.get_char(i)) {
            return true;
        }
        i += 1;
    }
    false
}

} // verus!
