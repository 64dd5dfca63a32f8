//! The `Story` record and its mathematical model.

use vstd::prelude::*;

verus! {

/// One Hacker News item as surfaced by this API.
///
/// `id` and `time` are always present upstream; every other field may be
/// absent.  An absent `score` counts as zero for ranking purposes.
#[derive(Debug)]
pub struct Story {
    pub by: Option<String>,
    pub id: i32,
    pub score: Option<i32>,
    pub time: i64,
    pub title: Option<String>,
    pub story_type: Option<String>,
    pub url: Option<String>,
}

/// The mathematical content of a `Story`: the same fields over `Seq<char>`
/// and `int`, so that contracts can speak of story content independently of
/// the executable representation.
pub struct StoryModel {
    pub by: Option<Seq<char>>,
    pub id: int,
    pub score: Option<int>,
    pub time: int,
    pub title: Option<Seq<char>>,
    pub story_type: Option<Seq<char>>,
    pub url: Option<Seq<char>>,
}

pub open spec fn opt_str_view(o: Option<String>) -> Option<Seq<char>> {
    match o {
        Some(s) => Some(s@),
        None => None,
    }
}

pub open spec fn opt_int_view(o: Option<i32>) -> Option<int> {
    match o {
        Some(x) => Some(x as int),
        None => None,
    }
}

impl View for Story {
    type V = StoryModel;

    open spec fn view(&self) -> StoryModel {
        StoryModel {
            by: opt_str_view(self.by),
            id: self.id as int,
            score: opt_int_view(self.score),
            time: self.time as int,
            title: opt_str_view(self.title),
            story_type: opt_str_view(self.story_type),
            url: opt_str_view(self.url),
        }
    }
}

/// The ranking key: the score, with absence counting as zero.
pub open spec fn eff_score(m: StoryModel) -> int {
    match m.score {
        Some(x) => x,
        None => 0,
    }
}

/// Non-increasing effective score over a whole sequence.
pub open spec fn sorted_by_score_desc(s: Seq<StoryModel>) -> bool {
    forall|i: int, j: int| 0 <= i < j < s.len() ==> eff_score(s[i]) >= eff_score(s[j])
}

/// The models of a vector of stories.
pub open spec fn models_of(v: Seq<Story>) -> Seq<StoryModel> {
    v.map_values(|s: Story| s@)
}

/// A copy of an optional string with the same content.
pub fn clone_opt_string(o: &Option<String>) -> (r: Option<String>)
    ensures
        opt_str_view(r) == opt_str_view(*o),
{
    match o {
        None => None,
        Some(s) => Some(s.clone()),
    }
}

impl Story {
    /// The effective score, as executable code: absent scores rank as zero.
    pub fn score_or_zero(&self) -> (r: i32)
        ensures
            r as int == eff_score(self@),
    {
        match self.score {
            Some(x) => x,
            None => 0,
        }
    }

    /// A copy with the same model.
    pub fn duplicate(&self) -> (r: Story)
        ensures
            r@ == self@,
    {
        Story {
            by: clone_opt_string(&self.by),
            id: self.id,
            score: self.score,
            time: self.time,
            title: clone_opt_string(&self.title),
            story_type: clone_opt_string(&self.story_type),
            url: clone_opt_string(&self.url),
        }
    }
}

} // verus!
