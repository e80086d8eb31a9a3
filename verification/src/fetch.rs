//! What the background fetch reports, and the loading progress it moves.
use vstd::prelude::*;

use crate::models::{views, FeedItem};
use crate::strs::str_eq;

verus! {

broadcast use vstd::string::group_string_axioms;

/// A report from the background fetch.
pub enum FetchMessage {
    /// Items from one source.
    Items(Vec<FeedItem>),
    /// A source finished.
    SourceComplete(String),
    /// A source failed: its name and the error.
    SourceError(String, String),
    /// Every source finished.
    AllComplete,
}

/// Which sources are still loading, which finished, and the last error.
pub struct LoadProgress {
    pub loading_sources: Vec<String>,
    pub loaded_sources: Vec<String>,
    pub status_message: Option<String>,
    pub is_loading: bool,
    pub is_refreshing: bool,
}

/// The names of `names` other than `name`, in order.
pub open spec fn without_name(names: Seq<Seq<char>>, name: Seq<char>) -> Seq<Seq<char>>
    decreases names.len(),
{
    if names.len() == 0 {
        names
    } else {
        let rest = without_name(names.drop_last(), name);
        if names.last() != name {
            rest.push(names.last())
        } else {
            rest
        }
    }
}

/// `names` without the entries equal to `name` (`Vec::retain`).
fn retain_other(names: &mut Vec<String>, name: &str)
    ensures
        views(final(names)@) == without_name(views(old(names)@), name@),
{
    let ghost orig = views(names@);
    let mut kept: Vec<String> = Vec::new();
    let mut i: usize = 0;
    while i < names.len()
        invariant
            orig == views(names@),
            0 <= i <= names@.len(),
            views(kept@) == without_name(orig.take(i as int), name@),
        decreases names.len() - i,
    {
        assert(orig.take(i + 1).drop_last() =~= orig.take(i as int));
        if !str_eq(names[i].as_str(), name) {
            kept.push(names[i].clone());
            assert(views(kept@) =~= without_name(orig.take(i as int), name@).push(names@[i as int]@));
        }
        i += 1;
    }
    assert(orig.take(names@.len() as int) =~= orig);
    *names = kept;
}

impl LoadProgress {
    /// Record a report that carries no items: a finished source moves from
    /// loading to loaded, a failed one leaves loading and its error becomes
    /// the status, and the last report ends loading. Item batches are merged
    /// by the caller and change nothing here.
    pub fn apply(&mut self, msg: &FetchMessage)
        ensures
            match msg {
                FetchMessage::Items(_) => *final(self) == *old(self),
                FetchMessage::SourceComplete(name) => {
                    &&& views(final(self).loading_sources@) == without_name(views(old(self).loading_sources@), name@)
                    &&& views(final(self).loaded_sources@) == views(old(self).loaded_sources@).push(name@)
                    &&& final(self).status_message == old(self).status_message
                    &&& final(self).is_loading == old(self).is_loading
                    &&& final(self).is_refreshing == old(self).is_refreshing
                },
                FetchMessage::SourceError(name, err) => {
                    &&& views(final(self).loading_sources@) == without_name(views(old(self).loading_sources@), name@)
                    &&& final(self).loaded_sources@ == old(self).loaded_sources@
                    &&& final(self).status_message matches Some(m) && m@ == err@
                    &&& final(self).is_loading == old(self).is_loading
                    &&& final(self).is_refreshing == old(self).is_refreshing
                },
                FetchMessage::AllComplete => {
                    &&& final(self).loading_sources@ == old(self).loading_sources@
                    &&& final(self).loaded_sources@ == old(self).loaded_sources@
                    &&& final(self).status_message == old(self).status_message
                    &&& !final(self).is_loading
                    &&& !final(self).is_refreshing
                },
            },
    {
        match msg {
            FetchMessage::Items(_) => {},
            FetchMessage::SourceComplete(name) => {
                retain_other(&mut self.loading_sources, name.as_str());
                let ghost before = self.loaded_sources@;
                self.loaded_sources.push(name.clone());
                assert(views(self.loaded_sources@) =~= views(before).push(name@));
            },
            FetchMessage::SourceError(name, err) => {
                self.status_message = Some(err.clone());
                retain_other(&mut self.loading_sources, name.as_str());
            },
            FetchMessage::AllComplete => {
                self.is_loading = false;
                self.is_refreshing = false;
            },
        }
    }
}

} // verus!
