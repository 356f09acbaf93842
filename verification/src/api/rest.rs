//! The addresses that requests go to, and collections that an upstream
//! service hands out page by page.

use reqwest::Url;
use vstd::prelude::*;
use crate::error::ChangelogError;

verus! {

/// The address that `url` stands for when it is read relative to the address
/// `base_url`; none where `base_url` is no address, or where the two give none.
pub uninterp spec fn joined_url(base_url: Seq<char>, url: Seq<char>) -> Option<Seq<char>>;

/// `Url::parse` on `base_url`, and `Url::join` of `url` onto what it gave: the
/// text of the address that came of it, which depends on the two texts alone.
/// `None` where either of the two calls failed.
#[verifier::external_body]
fn join(base_url: &str, url: &str) -> (joined: Option<String>)
    ensures
        match joined {
            Some(address) => joined_url(base_url@, url@) == Some(address@),
            None => joined_url(base_url@, url@) is None,
        },
{
    match Url::parse(base_url) {
        Ok(base) => match base.join(url) {
            Ok(address) => Some(address.into()),
            Err(_) => None,
        },
        Err(_) => None,
    }
}

/// The address that a request goes to, given what joining its path onto the
/// base address gave: that address, or the error that names the request for
/// which there is none.
pub fn address_or_error(joined: Option<String>, base_url: &str, url: &str, method: &str) -> (outcome:
    Result<String, ChangelogError>)
    ensures
        match joined {
            Some(address) => outcome == Ok::<String, ChangelogError>(address),
            None => {
                &&& outcome matches Err(ChangelogError::InvalidUrl { method: asked, base_url: base, url: path })
                &&& asked@ == method@
                &&& base@ == base_url@
                &&& path@ == url@
            },
        },
{
    match joined {
        Some(address) => Ok(address),
        None => Err(
            ChangelogError::InvalidUrl {
                method: method.to_owned(),
                base_url: base_url.to_owned(),
                url: url.to_owned(),
            },
        ),
    }
}

/// The address that a request to the path `url` of the service at `base_url`
/// goes to. A path that begins with a slash counts from the root of the
/// service, any other from the place that `base_url` names.
pub fn build_url(base_url: &str, url: &str, method: &str) -> (outcome: Result<String, ChangelogError>)
    ensures
        match joined_url(base_url@, url@) {
            Some(address) => outcome matches Ok(built) && built@ == address,
            None => {
                &&& outcome matches Err(ChangelogError::InvalidUrl { method: asked, base_url: base, url: path })
                &&& asked@ == method@
                &&& base@ == base_url@
                &&& path@ == url@
            },
        },
{
    address_or_error(join(base_url, url), base_url, url, method)
}

/// What one request for a page came to: a page, with the items on it and the
/// source's word on whether it is the last one, or a failure.
pub ghost enum Fetched<T> {
    Page { items: Seq<T>, last: bool },
    Failure { error: ChangelogError },
}

/// The items of the pages that the requests from the one at `from` on brought,
/// one page after the other.
pub open spec fn items_from<T>(fetched: Seq<Fetched<T>>, from: int) -> Seq<T>
    decreases fetched.len(),
{
    if fetched.len() <= from || fetched.len() == 0 {
        Seq::empty()
    } else {
        match fetched.last() {
            Fetched::Page { items, .. } => items_from(fetched.drop_last(), from) + items,
            Fetched::Failure { .. } => items_from(fetched.drop_last(), from),
        }
    }
}

/// Of the requests from the one at `from` on, each but the final one brought a
/// page that was not the last.
pub open spec fn went_on_until_end<T>(fetched: Seq<Fetched<T>>, from: int) -> bool {
    forall|i: int|
        from <= i < fetched.len() - 1 ==> ((#[trigger] fetched[i]) matches Fetched::Page { last, .. }
            && !last)
}

/// Whether `outcome` is what a walk returns that made the requests from the
/// one at `from` on: the items of all their pages where the final request
/// brought the last page, the error of the final request where that one failed,
/// and no items where it made no request.
pub open spec fn walked<T>(
    fetched: Seq<Fetched<T>>,
    from: int,
    outcome: Result<Vec<T>, ChangelogError>,
) -> bool {
    if fetched.len() <= from || fetched.len() == 0 {
        outcome matches Ok(items) && items@ == Seq::<T>::empty()
    } else {
        match fetched.last() {
            Fetched::Page { last, .. } => last && (outcome matches Ok(items) && items@ == items_from(
                fetched,
                from,
            )),
            Fetched::Failure { error } => outcome == Err::<Vec<T>, ChangelogError>(error),
        }
    }
}

/// A walk that returns items has made requests up to the first page that the
/// source declared the last, and no further: each request brought a page, only
/// the final page is the last, and the items are those of all the pages, in
/// the order of the pages.
pub proof fn lemma_walk_ends_with_the_last_page<T>(
    fetched: Seq<Fetched<T>>,
    from: int,
    outcome: Result<Vec<T>, ChangelogError>,
)
    requires
        0 <= from < fetched.len(),
        went_on_until_end(fetched, from),
        walked(fetched, from, outcome),
        outcome is Ok,
    ensures
        forall|i: int| from <= i < fetched.len() ==> (#[trigger] fetched[i]) is Page,
        forall|i: int| from <= i < fetched.len() ==> ((#[trigger] fetched[i])->last <==> i == fetched.len() - 1),
        outcome->Ok_0@ == items_from(fetched, from),
{
}

/// A walk of which a request failed returns the error of that request and
/// nothing else, and has made no request after it.
pub proof fn lemma_walk_fails_with_the_first_failure<T>(
    fetched: Seq<Fetched<T>>,
    from: int,
    outcome: Result<Vec<T>, ChangelogError>,
    failed: int,
)
    requires
        0 <= from <= failed < fetched.len(),
        fetched[failed] is Failure,
        went_on_until_end(fetched, from),
        walked(fetched, from, outcome),
    ensures
        failed == fetched.len() - 1,
        outcome == Err::<Vec<T>, ChangelogError>(fetched[failed]->error),
{
}

/// A cursor over one collection that the source serves in pages.
///
/// `fetched` is the record of the requests made so far. `budget` is a bound on
/// the number of pages that can still come: it is what makes `all` end.
pub trait Paginated<T> {
    /// The requests made so far and what each came to, oldest first.
    spec fn fetched(&self) -> Seq<Fetched<T>>;

    /// Whether the source has declared a page the last one.
    spec fn exhausted(&self) -> bool;

    /// A bound on the number of pages that can still be fetched.
    spec fn budget(&self) -> nat;

    /// Fetches the next page. An exhausted cursor makes no request and fails
    /// with `ExhaustedCursor`. Any other call makes one request, and a failure
    /// leaves the cursor where it was.
    fn next(&mut self) -> (page: Result<Vec<T>, ChangelogError>)
        ensures
            old(self).exhausted() ==> {
                &&& page == Err::<Vec<T>, ChangelogError>(ChangelogError::ExhaustedCursor)
                &&& final(self).fetched() == old(self).fetched()
                &&& final(self).exhausted()
            },
            !old(self).exhausted() ==> match page {
                Ok(items) => {
                    &&& final(self).fetched() == old(self).fetched().push(
                        Fetched::Page { items: items@, last: final(self).exhausted() },
                    )
                    &&& final(self).budget() < old(self).budget()
                },
                Err(error) => {
                    &&& final(self).fetched() == old(self).fetched().push(
                        Fetched::Failure { error },
                    )
                    &&& !final(self).exhausted()
                },
            },
    ;

    /// Whether the last page has been served.
    fn is_last(&self) -> (last: bool)
        ensures
            last == self.exhausted(),
    ;

    /// Fetches page after page until the source declares one the last, and
    /// returns the items of all of them in the order they came. The first
    /// request that fails ends the walk, and its error is all that is returned.
    /// An exhausted cursor makes no request and returns no items.
    fn all(&mut self) -> (outcome: Result<Vec<T>, ChangelogError>)
        ensures
            old(self).fetched().is_prefix_of(final(self).fetched()),
            old(self).exhausted() ==> final(self).fetched() == old(self).fetched(),
            !old(self).exhausted() ==> final(self).fetched().len() > old(self).fetched().len(),
            went_on_until_end(final(self).fetched(), old(self).fetched().len() as int),
            walked(final(self).fetched(), old(self).fetched().len() as int, outcome),
            outcome is Ok <==> final(self).exhausted(),
    {
        let mut all_results: Vec<T> = Vec::new();
        let ghost start = self.fetched().len() as int;
        while !self.is_last()
            invariant
                start == old(self).fetched().len(),
                old(self).fetched().is_prefix_of(self.fetched()),
                self.fetched().len() == start ==> self.exhausted() == old(self).exhausted(),
                old(self).exhausted() ==> self.fetched() == old(self).fetched(),
                forall|i: int|
                    start <= i < self.fetched().len() ==> (#[trigger] self.fetched()[i]) matches Fetched::Page {
                        ..
                    },
                forall|i: int|
                    start <= i < self.fetched().len() - 1 ==> !(#[trigger] self.fetched()[i])->last,
                self.fetched().len() > start ==> self.fetched().last()->last == self.exhausted(),
                all_results@ == items_from(self.fetched(), start),
            decreases self.budget(),
        {
            let ghost before = self.fetched();
            match self.next() {
                Ok(mut items) => {
                    proof {
                        assert(self.fetched().drop_last() =~= before);
                    }
                    all_results.append(&mut items);
                },
                Err(error) => {
                    return Err(error);
                },
            }
        }
        Ok(all_results)
    }
}

} // verus!
