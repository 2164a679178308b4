//! Request identifiers: a request that arrives without one is given a new,
//! time-ordered identifier.
use vstd::prelude::*;

use crate::auth::RequestContext;
use crate::text::is_visible_ascii;

verus! {

/// The header that carries a request's identifier.
pub const REQUEST_ID_HEADER: &'static str = "X-Request-ID";

/// The hyphenated text form of a UUID: 36 characters, hyphens at positions
/// 8, 13, 18 and 23, lowercase hexadecimal digits elsewhere.
pub open spec fn is_hyphenated_uuid(s: Seq<char>) -> bool {
    &&& s.len() == 36
    &&& forall|i: int|
        0 <= i < 36 ==> if i == 8 || i == 13 || i == 18 || i == 23 {
            #[trigger] s[i] == '-'
        } else {
            ('0' <= s[i] && s[i] <= '9') || ('a' <= s[i] && s[i] <= 'f')
        }
}

/// Whether `a` comes before `b` in character order: at the first place
/// where they differ `a` has the smaller character, or `a` is a proper
/// prefix of `b`.
pub open spec fn text_before(a: Seq<char>, b: Seq<char>) -> bool {
    exists|i: int|
        0 <= i <= a.len() && i <= b.len() && a.subrange(0, i) == b.subrange(0, i) && ((i
            < a.len() && i < b.len() && (a[i] as u32) < (b[i] as u32)) || (i == a.len() && i
            < b.len()))
}

/// Where new request identifiers come from. Its ghost record holds every
/// identifier it has handed out and the latest of them.
pub struct RequestIdSource {
    issued: Ghost<Set<Seq<char>>>,
    last: Ghost<Option<Seq<char>>>,
}

impl RequestIdSource {
    /// The identifiers handed out so far.
    pub closed spec fn issued(&self) -> Set<Seq<char>> {
        self.issued@
    }

    /// The identifier handed out last, if any.
    pub closed spec fn last(&self) -> Option<Seq<char>> {
        self.last@
    }

    pub fn new() -> (r: Self)
        ensures
            r.issued() == Set::<Seq<char>>::empty(),
            r.last() is None,
    {
        RequestIdSource { issued: Ghost(Set::empty()), last: Ghost(None) }
    }

    /// Relies on `uuid::Uuid::now_v7`: a new version 7 identifier; those
    /// made in one process are ordered by their creation (the crate keeps
    /// one shared, monotonic counter), so each is new and comes after the
    /// one before. Its `Display` impl writes the hyphenated lowercase form,
    /// in which the version digit stands at position 14 and the character
    /// order is the order of the bytes.
    #[verifier::external_body]
    fn next_id(&mut self) -> (r: String)
        ensures
            is_hyphenated_uuid(r@),
            r@[14] == '7',
            !old(self).issued().contains(r@),
            final(self).issued() == old(self).issued().insert(r@),
            final(self).last() == Some(r@),
            old(self).last() matches Some(p) ==> text_before(p, r@),
    {
        uuid::Uuid::now_v7().to_string()
    }
}

/// Identifiers that a source hands out one after another differ: each is
/// new to the record of those handed out before it.
pub proof fn lemma_issued_ids_distinct(
    before: Set<Seq<char>>,
    first: Seq<char>,
    between: Set<Seq<char>>,
    second: Seq<char>,
)
    requires
        !before.contains(first),
        between == before.insert(first),
        !between.contains(second),
    ensures
        first != second,
{
    assert(between.contains(first));
}

/// Records the request's identifier: the one it arrived with, else
/// `fresh`, which is returned so that it can be set as the request's header.
pub fn assign_request_id(ctx: &mut RequestContext, existing: Option<String>, fresh: String) -> (r:
    Option<String>)
    ensures
        final(ctx).principal == old(ctx).principal,
        match existing {
            Some(id) => r is None && final(ctx).request_id == Some(id),
            None => r == Some(fresh) && final(ctx).request_id == Some(fresh),
        },
{
    match existing {
        Some(id) => {
            ctx.request_id = Some(id);
            None
        },
        None => {
            ctx.request_id = Some(fresh.clone());
            Some(fresh)
        },
    }
}

/// Gives the request its identifier: the one it arrived with, else a new
/// version 7 UUID from `ids`, which is returned so that it can be set as
/// the request's header. A new identifier differs from every one that `ids`
/// handed out before, and comes after the latest of them.
pub fn set_request_id(
    ctx: &mut RequestContext,
    existing: Option<String>,
    ids: &mut RequestIdSource,
) -> (generated: Option<String>)
    ensures
        final(ctx).principal == old(ctx).principal,
        match existing {
            Some(id) => generated is None && final(ctx).request_id == Some(id) && *final(ids)
                == *old(ids),
            None => generated matches Some(g) && final(ctx).request_id == Some(g)
                && is_hyphenated_uuid(g@) && g@[14] == '7' && is_visible_ascii(g@)
                && !old(ids).issued().contains(g@) && final(ids).issued() == old(
                ids,
            ).issued().insert(g@) && final(ids).last() == Some(g@) && (old(ids).last() matches Some(
                p,
            ) ==> text_before(p, g@)),
        },
{
    match existing {
        Some(id) => {
            ctx.request_id = Some(id);
            None
        },
        None => {
            let id = ids.next_id();
            assert(is_visible_ascii(id@)) by {
                assert forall|i: int| 0 <= i < id@.len() implies ' ' <= #[trigger] id@[i] && id@[i] <= '~' by {
                    if i == 8 || i == 13 || i == 18 || i == 23 {
                    }
                }
            }
            assign_request_id(ctx, None, id)
        },
    }
}

} // verus!
