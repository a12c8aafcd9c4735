use crate::address::{offer_address_of, Address};
use crate::error::EscrowError;
use crate::instructions::{make_outcome, new_offer, refund_outcome, take_outcome, MakeOffer};
use crate::ledger::{max_amount, Ledger};
use crate::state::Offer;
use vstd::prelude::*;

verus! {

/// A valid offer whose address can be derived, at a free id, by a maker who
/// holds enough of the offered token, is made: the maker is debited by
/// exactly the offered amount, and the offer filed under `id` holds the
/// supplied fields and the offered amount.
pub proof fn lemma_make_offer_succeeds(
    pre: Ledger,
    post: Ledger,
    context: MakeOffer,
    id: u64,
    offered: u64,
    wanted: u64,
    r: Result<Offer, EscrowError>,
)
    requires
        pre.wf(),
        make_outcome(pre, post, context, id, offered, wanted, offer_address_of(id, pre.program_id()), r),
        offered > 0,
        wanted > 0,
        context.token_mint_a != context.token_mint_b,
        offer_address_of(id, pre.program_id()) is Some,
        !pre.offers().contains_key(id),
        pre.balance(context.maker, context.token_mint_a) >= offered,
    ensures
        r is Ok,
        post.balance(context.maker, context.token_mint_a) == pre.balance(
            context.maker,
            context.token_mint_a,
        ) - offered,
        post.offers().contains_key(id),
        post.offers()[id].offer == r->Ok_0,
        post.offers()[id].offer.id == id,
        post.offers()[id].offer.maker == context.maker,
        post.offers()[id].offer.token_mint_a == context.token_mint_a,
        post.offers()[id].offer.token_mint_b == context.token_mint_b,
        post.offers()[id].offer.token_b_wanted_amount == wanted,
        post.offers()[id].held == offered,
{
    assert(post.balance(context.maker, context.token_mint_a) == pre.balance(
        context.maker,
        context.token_mint_a,
    ) - offered);
}

/// An offer of nothing is refused as an invalid amount and leaves every
/// balance as it was.
pub proof fn lemma_make_offer_zero_amount(
    pre: Ledger,
    post: Ledger,
    context: MakeOffer,
    id: u64,
    wanted: u64,
    derived: Option<(Seq<u8>, u8)>,
    r: Result<Offer, EscrowError>,
)
    requires
        make_outcome(pre, post, context, id, 0, wanted, derived, r),
    ensures
        r == Err::<Offer, EscrowError>(EscrowError::InvalidAmount),
        post == pre,
        forall|o: Address, m: Address| #[trigger] post.balance(o, m) == pre.balance(o, m),
{
}

/// An offer of positive amounts that trades a mint for itself is refused as
/// an invalid pair, and changes nothing.
pub proof fn lemma_make_offer_same_mint(
    pre: Ledger,
    post: Ledger,
    context: MakeOffer,
    id: u64,
    offered: u64,
    wanted: u64,
    derived: Option<(Seq<u8>, u8)>,
    r: Result<Offer, EscrowError>,
)
    requires
        make_outcome(pre, post, context, id, offered, wanted, derived, r),
        offered > 0,
        wanted > 0,
        context.token_mint_a == context.token_mint_b,
    ensures
        r == Err::<Offer, EscrowError>(EscrowError::InvalidAssetPair),
        post == pre,
{
}

/// After an offer is made, a taker other than the maker who holds the wanted
/// amount, and whose balances can take the credits, fulfils it: the taker pays
/// the wanted amount, the maker receives it, the taker receives the whole
/// offered amount, and the offer is gone.
pub proof fn lemma_make_then_take(
    pre: Ledger,
    mid: Ledger,
    post: Ledger,
    context: MakeOffer,
    id: u64,
    offered: u64,
    wanted: u64,
    made: Result<Offer, EscrowError>,
    taker: Address,
    taken: Result<(), EscrowError>,
)
    requires
        pre.wf(),
        make_outcome(pre, mid, context, id, offered, wanted, offer_address_of(id, pre.program_id()), made),
        made is Ok,
        take_outcome(mid, post, taker, id, taken),
        taker != context.maker,
        mid.balance(taker, context.token_mint_b) >= wanted,
        mid.balance(context.maker, context.token_mint_b) + wanted <= max_amount(),
        mid.balance(taker, context.token_mint_a) + offered <= max_amount(),
    ensures
        taken is Ok,
        post.balance(taker, context.token_mint_b) == mid.balance(taker, context.token_mint_b)
            - wanted,
        post.balance(context.maker, context.token_mint_b) == mid.balance(
            context.maker,
            context.token_mint_b,
        ) + wanted,
        post.balance(taker, context.token_mint_a) == mid.balance(taker, context.token_mint_a)
            + offered,
        !post.offers().contains_key(id),
{
    assert(mid.offers().contains_key(id));
    assert(post.balance(taker, context.token_mint_b) == mid.balance(
        taker,
        context.token_mint_b,
    ) - wanted);
    assert(post.balance(context.maker, context.token_mint_b) == mid.balance(
        context.maker,
        context.token_mint_b,
    ) + wanted);
    assert(post.balance(taker, context.token_mint_a) == mid.balance(
        taker,
        context.token_mint_a,
    ) + offered);
}

/// After an offer is made, its maker cancels it: the whole offered amount
/// goes back, so the maker holds what they held before the offer, and the
/// offer is gone.
pub proof fn lemma_make_then_refund(
    pre: Ledger,
    mid: Ledger,
    post: Ledger,
    context: MakeOffer,
    id: u64,
    offered: u64,
    wanted: u64,
    made: Result<Offer, EscrowError>,
    refunded: Result<(), EscrowError>,
)
    requires
        pre.wf(),
        make_outcome(pre, mid, context, id, offered, wanted, offer_address_of(id, pre.program_id()), made),
        made is Ok,
        refund_outcome(mid, post, context.maker, id, refunded),
    ensures
        refunded is Ok,
        post.balance(context.maker, context.token_mint_a) == mid.balance(
            context.maker,
            context.token_mint_a,
        ) + offered,
        post.balance(context.maker, context.token_mint_a) == pre.balance(
            context.maker,
            context.token_mint_a,
        ),
        !post.offers().contains_key(id),
{
    assert(mid.offers().contains_key(id));
    pre.lemma_balance_bounded(context.maker, context.token_mint_a);
    assert(mid.balance(context.maker, context.token_mint_a) == pre.balance(
        context.maker,
        context.token_mint_a,
    ) - offered);
    assert(post.balance(context.maker, context.token_mint_a) == mid.balance(
        context.maker,
        context.token_mint_a,
    ) + offered);
}

/// A cancellation by anyone but the offer's maker is refused as
/// unauthorized, and the offer and its holding stay as they were.
pub proof fn lemma_refund_by_stranger(
    pre: Ledger,
    post: Ledger,
    caller: Address,
    id: u64,
    r: Result<(), EscrowError>,
)
    requires
        pre.offers().contains_key(id),
        caller != pre.offers()[id].offer.maker,
        refund_outcome(pre, post, caller, id, r),
    ensures
        r == Err::<(), EscrowError>(EscrowError::Unauthorized),
        post == pre,
        post.offers()[id] == pre.offers()[id],
{
}

/// Once a take of an open offer succeeds, a cancellation of it finds no
/// offer and changes nothing: the holding left exactly once, to the taker.
pub proof fn lemma_take_then_refund(
    pre: Ledger,
    mid: Ledger,
    post: Ledger,
    taker: Address,
    caller: Address,
    id: u64,
    taken: Result<(), EscrowError>,
    refunded: Result<(), EscrowError>,
)
    requires
        pre.wf(),
        pre.offers().contains_key(id),
        take_outcome(pre, mid, taker, id, taken),
        taken is Ok,
        refund_outcome(mid, post, caller, id, refunded),
    ensures
        refunded == Err::<(), EscrowError>(EscrowError::OfferNotFound),
        post == mid,
        !post.offers().contains_key(id),
        ({
            let rec = pre.offers()[id];
            let a = rec.offer.token_mint_a;
            &&& post.balance(taker, a) == pre.balance(taker, a) + rec.held
            &&& taker != rec.offer.maker ==> post.balance(rec.offer.maker, a) == pre.balance(
                rec.offer.maker,
                a,
            )
        }),
{
    pre.lemma_records_ok();
    let rec = pre.offers()[id];
    let a = rec.offer.token_mint_a;
    assert(mid.balance(taker, a) == pre.balance(taker, a) + rec.held);
    assert(mid.balance(rec.offer.maker, a) == pre.balance(rec.offer.maker, a) || taker
        == rec.offer.maker);
}

/// Once the maker's cancellation of an open offer succeeds, a take of it
/// finds no offer and changes nothing: the holding left exactly once, back to
/// the maker.
pub proof fn lemma_refund_then_take(
    pre: Ledger,
    mid: Ledger,
    post: Ledger,
    maker: Address,
    taker: Address,
    id: u64,
    refunded: Result<(), EscrowError>,
    taken: Result<(), EscrowError>,
)
    requires
        pre.offers().contains_key(id),
        refund_outcome(pre, mid, maker, id, refunded),
        refunded is Ok,
        take_outcome(mid, post, taker, id, taken),
    ensures
        taken == Err::<(), EscrowError>(EscrowError::OfferNotFound),
        post == mid,
        !post.offers().contains_key(id),
        ({
            let rec = pre.offers()[id];
            post.balance(maker, rec.offer.token_mint_a) == pre.balance(
                maker,
                rec.offer.token_mint_a,
            ) + rec.held
        }),
{
    let rec = pre.offers()[id];
    assert(mid.balance(maker, rec.offer.token_mint_a) == pre.balance(
        maker,
        rec.offer.token_mint_a,
    ) + rec.held);
}

/// Neither a take nor a cancellation finds an id under which no offer is
/// open, and neither changes anything.
pub proof fn lemma_missing_offer(
    pre: Ledger,
    post_take: Ledger,
    post_refund: Ledger,
    caller: Address,
    id: u64,
    taken: Result<(), EscrowError>,
    refunded: Result<(), EscrowError>,
)
    requires
        !pre.offers().contains_key(id),
        take_outcome(pre, post_take, caller, id, taken),
        refund_outcome(pre, post_refund, caller, id, refunded),
    ensures
        taken == Err::<(), EscrowError>(EscrowError::OfferNotFound),
        refunded == Err::<(), EscrowError>(EscrowError::OfferNotFound),
        post_take == pre,
        post_refund == pre,
{
}

} // verus!
