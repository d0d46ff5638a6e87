//! Paged object listings.

use crate::status;
use crate::text;
use crate::transport::{ListedObject, TransportCode, TransportError};
use vstd::prelude::*;

verus! {

/// Pages that one listing may have.
pub const MAX_LIST_PAGES: usize = 10_000;

/// Objects that one page may have.
pub const LIST_PAGE_SIZE: i32 = 1000;

/// A listing that is being read page by page.
pub struct Listing {
    /// Replica zone of the bucket.
    pub zone: usize,
    /// Tokens of the pages after the first, in the order they came.
    pub tokens: Vec<String>,
    /// Objects of the pages read so far.
    pub listed: Vec<ListedObject>,
}

/// How a listing goes on.
pub enum ListStep {
    /// The last page was read: these are all objects.
    Done(Vec<ListedObject>),
    /// Read the page of the last token.
    More(Listing),
    /// The service does not come to an end.
    Failed(TransportError),
}

/// The token's text.
pub open spec fn token_texts(tokens: Seq<String>) -> Seq<Seq<char>> {
    tokens.map_values(|token: String| token@)
}

impl Listing {
    /// No token came twice, and the bound is not reached.
    pub open spec fn wf(self) -> bool {
        &&& self.tokens@.len() < MAX_LIST_PAGES
        &&& token_texts(self.tokens@).no_duplicates()
    }

    /// A listing of which nothing was read.
    pub fn new(zone: usize) -> (listing: Self)
        ensures
            listing.wf(),
            listing.zone == zone,
            listing.tokens@ == Seq::<String>::empty(),
            listing.listed@ == Seq::<ListedObject>::empty(),
    {
        Listing { zone, tokens: Vec::new(), listed: Vec::new() }
    }

    fn has_token(&self, token: &String) -> (found: bool)
        ensures
            found == token_texts(self.tokens@).contains(token@),
    {
        let mut i: usize = 0;
        while i < self.tokens.len()
            invariant
                i <= self.tokens@.len(),
                forall|j: int| 0 <= j < i ==> (#[trigger] self.tokens@[j])@ != token@,
            decreases self.tokens@.len() - i,
        {
            if self.tokens[i] == *token {
                assert(token_texts(self.tokens@)[i as int] == token@);
                return true;
            }
            i = i + 1;
        }
        assert(!token_texts(self.tokens@).contains(token@)) by {
            if token_texts(self.tokens@).contains(token@) {
                let j = choose|j: int|
                    0 <= j < token_texts(self.tokens@).len() && token_texts(self.tokens@)[j]
                        == token@;
                assert(self.tokens@[j]@ == token@);
            }
        }
        false
    }

    /// Takes one page in. An empty token ends the listing; a token that came
    /// before, or one page more than there may be, fails it.
    pub fn page(self, objects: Vec<ListedObject>, next: String) -> (step: ListStep)
        requires
            self.wf(),
        ensures
            if next@.len() == 0 {
                step matches ListStep::Done(all) && all@ == self.listed@ + objects@
            } else if token_texts(self.tokens@).contains(next@) {
                step matches ListStep::Failed(error) && status::failed(
                    error,
                    self.zone,
                    TransportCode::Internal,
                    "ListObjects repeated a page token"@,
                )
            } else if self.tokens@.len() + 1 == MAX_LIST_PAGES {
                step matches ListStep::Failed(error) && status::failed(
                    error,
                    self.zone,
                    TransportCode::Internal,
                    "ListObjects exceeded the pagination bound"@,
                )
            } else {
                step matches ListStep::More(listing) && listing.wf() && listing.zone == self.zone
                    && listing.tokens@ == self.tokens@.push(next) && listing.listed@
                    == self.listed@ + objects@
            },
    {
        let mut listing = self;
        let mut objects = objects;
        listing.listed.append(&mut objects);
        if next.as_str().unicode_len() == 0 {
            return ListStep::Done(listing.listed);
        }
        if listing.has_token(&next) {
            return ListStep::Failed(
                status::failure(
                    listing.zone,
                    TransportCode::Internal,
                    "ListObjects repeated a page token",
                ),
            );
        }
        if listing.tokens.len() + 1 == MAX_LIST_PAGES {
            return ListStep::Failed(
                status::failure(
                    listing.zone,
                    TransportCode::Internal,
                    "ListObjects exceeded the pagination bound",
                ),
            );
        }
        proof {
            assert(token_texts(self.tokens@.push(next)) =~= token_texts(self.tokens@).push(
                next@,
            ));
        }
        listing.tokens.push(next);
        ListStep::More(listing)
    }
}

/// The last part of a bucket's resource name.
pub fn bucket_name(bucket: &str) -> (name: String)
    ensures
        name@ == text::after_last_slash(bucket@),
{
    text::last_segment(bucket)
}

/// A listing ends: after each page the number of pages that can still follow
/// is smaller, and a page token never leads back to a page already read.
pub proof fn law_listing_ends(before: Listing, after: Listing, next: String)
    requires
        before.wf(),
        after.wf(),
        after.tokens@ == before.tokens@.push(next),
    ensures
        MAX_LIST_PAGES - after.tokens@.len() < MAX_LIST_PAGES - before.tokens@.len(),
        MAX_LIST_PAGES - after.tokens@.len() > 0,
        !token_texts(before.tokens@).contains(next@),
{
    if token_texts(before.tokens@).contains(next@) {
        let i = choose|i: int|
            0 <= i < token_texts(before.tokens@).len() && token_texts(before.tokens@)[i] == next@;
        let texts = token_texts(after.tokens@);
        assert(texts[i] == next@);
        assert(texts[before.tokens@.len() as int] == next@);
        assert(false);
    }
}

/// A page adds its objects behind those of the pages before it. An empty token
/// ends the listing with all of them; a token that came before fails it, and so
/// does the ten-thousandth page; any other token is remembered and read next.
pub proof fn law_pages_are_collected_in_order(
    zone: usize,
    fresh: Listing,
    listing: Listing,
    objects: Vec<ListedObject>,
    next: String,
    step: ListStep,
)
    requires
        listing.wf(),
        call_ensures(Listing::new, (zone,), fresh),
        call_ensures(Listing::page, (listing, objects, next), step),
    ensures
        fresh.zone == zone && fresh.tokens@.len() == 0 && fresh.listed@.len() == 0,
        ({
            let repeated = exists|i: int|
                0 <= i < listing.tokens@.len() && (#[trigger] listing.tokens@[i])@ == next@;
            &&& step is Done <==> next@.len() == 0
            &&& step is Done ==> step->Done_0@ == listing.listed@ + objects@
            &&& step is Failed <==> next@.len() > 0 && (repeated || listing.tokens@.len() == 9999)
            &&& step is Failed ==> step->Failed_0.code is Internal && step->Failed_0.zone
                == listing.zone
            &&& step is More ==> {
                &&& step->More_0.zone == listing.zone
                &&& step->More_0.listed@ == listing.listed@ + objects@
                &&& step->More_0.tokens@.len() == listing.tokens@.len() + 1
                &&& step->More_0.tokens@.last() == next
                &&& step->More_0.tokens@.drop_last() == listing.tokens@
            }
        }),
{
    let texts = token_texts(listing.tokens@);
    if texts.contains(next@) {
        let i = choose|i: int| 0 <= i < texts.len() && texts[i] == next@;
        assert(listing.tokens@[i]@ == next@);
    }
    if exists|i: int| 0 <= i < listing.tokens@.len() && (#[trigger] listing.tokens@[i])@ == next@ {
        let i = choose|i: int|
            0 <= i < listing.tokens@.len() && (#[trigger] listing.tokens@[i])@ == next@;
        assert(texts[i] == next@);
    }
}

/// A bucket's name is what follows the last slash of its resource name.
pub proof fn law_bucket_name_follows_the_last_slash(
    bucket: &str,
    name: String,
    parent: Seq<char>,
    own: Seq<char>,
)
    requires
        call_ensures(bucket_name, (bucket,), name),
        forall|i: int| 0 <= i < own.len() ==> #[trigger] own[i] != '/',
    ensures
        bucket@ == own ==> name@ == own,
        bucket@ == parent + seq!['/'] + own ==> name@ == own,
{
    text::lemma_after_last_slash(parent, own);
}

} // verus!
