//! Classification of a discovery query into an intent.
use vstd::prelude::*;

use crate::strs::{chars_of, contains_chars, contains_seq, has_prefix, lowercase, starts_with, to_lowercase};

verus! {

broadcast use vstd::string::group_string_axioms;

/// What a discovery query asks for.
#[derive(Debug, Clone, Copy, PartialEq, Eq, Default, Structural)]
pub enum QueryIntent {
    #[default]
    FindPapers,
    LiteratureReview,
    SotaLookup,
    ReadingList,
    CodeSearch,
}

impl QueryIntent {
    pub open spec fn spec_label(self) -> Seq<char> {
        match self {
            QueryIntent::FindPapers => "papers"@,
            QueryIntent::LiteratureReview => "lit review"@,
            QueryIntent::SotaLookup => "sota"@,
            QueryIntent::ReadingList => "reading list"@,
            QueryIntent::CodeSearch => "code"@,
        }
    }

    pub fn label(self) -> (r: &'static str)
        ensures
            r@ == self.spec_label(),
    {
        match self {
            QueryIntent::FindPapers => "papers",
            QueryIntent::LiteratureReview => "lit review",
            QueryIntent::SotaLookup => "sota",
            QueryIntent::ReadingList => "reading list",
            QueryIntent::CodeSearch => "code",
        }
    }
}

pub open spec fn mentions_sota(t: Seq<char>) -> bool {
    ||| contains_seq(t, "benchmark"@)
    ||| contains_seq(t, "state of the art"@)
    ||| contains_seq(t, "sota"@)
    ||| contains_seq(t, "best model"@)
    ||| contains_seq(t, "leaderboard"@)
    ||| contains_seq(t, "beats "@)
    ||| contains_seq(t, "performance on"@)
    ||| contains_seq(t, "score on"@)
}

pub open spec fn mentions_review(t: Seq<char>) -> bool {
    ||| contains_seq(t, "survey"@)
    ||| contains_seq(t, "overview of"@)
    ||| contains_seq(t, "review of"@)
    ||| contains_seq(t, "state of"@)
    ||| contains_seq(t, "landscape"@)
    ||| contains_seq(t, "comprehensive"@)
    ||| contains_seq(t, "what is known"@)
}

pub open spec fn mentions_learning(t: Seq<char>) -> bool {
    ||| contains_seq(t, "how to learn"@)
    ||| starts_with(t, "learn "@)
    ||| contains_seq(t, "getting started"@)
    ||| contains_seq(t, "beginner"@)
    ||| contains_seq(t, "roadmap"@)
    ||| contains_seq(t, "curriculum"@)
    ||| contains_seq(t, "reading list"@)
    ||| contains_seq(t, "from scratch"@)
}

pub open spec fn mentions_code(t: Seq<char>) -> bool {
    ||| contains_seq(t, "implementation"@)
    ||| contains_seq(t, "code for"@)
    ||| contains_seq(t, "github"@)
    ||| contains_seq(t, " library"@)
    ||| contains_seq(t, "pytorch"@)
    ||| contains_seq(t, "tensorflow"@)
    ||| contains_seq(t, "how to implement"@)
}

/// The intent of a lower-cased query: the first group of cue phrases that
/// it mentions decides, in the order SOTA, review, learning, code.
pub open spec fn intent_of(t: Seq<char>) -> QueryIntent {
    if mentions_sota(t) {
        QueryIntent::SotaLookup
    } else if mentions_review(t) {
        QueryIntent::LiteratureReview
    } else if mentions_learning(t) {
        QueryIntent::ReadingList
    } else if mentions_code(t) {
        QueryIntent::CodeSearch
    } else {
        QueryIntent::FindPapers
    }
}

fn has(t: &Vec<char>, p: &str) -> (r: bool)
    ensures
        r == contains_seq(t@, p@),
{
    let pv = chars_of(p);
    contains_chars(t, &pv)
}

/// Classify a discovery topic (case-insensitively) into an intent.
pub fn classify(topic: &str) -> (r: QueryIntent)
    ensures
        r == intent_of(lowercase(topic@)),
{
    let lower = to_lowercase(topic);
    let t = chars_of(lower.as_str());
    if has(&t, "benchmark") || has(&t, "state of the art") || has(&t, "sota") || has(&t, "best model")
        || has(&t, "leaderboard") || has(&t, "beats ") || has(&t, "performance on") || has(
        &t,
        "score on",
    ) {
        return QueryIntent::SotaLookup;
    }
    if has(&t, "survey") || has(&t, "overview of") || has(&t, "review of") || has(&t, "state of")
        || has(&t, "landscape") || has(&t, "comprehensive") || has(&t, "what is known") {
        return QueryIntent::LiteratureReview;
    }
    let learn = chars_of("learn ");
    if has(&t, "how to learn") || has_prefix(&t, &learn) || has(&t, "getting started") || has(
        &t,
        "beginner",
    ) || has(&t, "roadmap") || has(&t, "curriculum") || has(&t, "reading list") || has(
        &t,
        "from scratch",
    ) {
        return QueryIntent::ReadingList;
    }
    if has(&t, "implementation") || has(&t, "code for") || has(&t, "github") || has(&t, " library")
        || has(&t, "pytorch") || has(&t, "tensorflow") || has(&t, "how to implement") {
        return QueryIntent::CodeSearch;
    }
    QueryIntent::FindPapers
}

/// On ASCII text the intent does not depend on letter case: upper-casing
/// or lower-casing the topic first gives the same intent.
pub proof fn law_classify_ignores_case(topic: Seq<char>)
    requires
        crate::strs::is_ascii(topic),
    ensures
        intent_of(crate::strs::lowercase(topic.map_values(|c: char| crate::strs::ascii_upper(c))))
            == intent_of(crate::strs::lowercase(topic)),
        intent_of(crate::strs::lowercase(topic.map_values(|c: char| crate::strs::ascii_lower(c))))
            == intent_of(crate::strs::lowercase(topic)),
{
    crate::strs::lemma_lowercase_after_case_change(topic);
}

} // verus!
