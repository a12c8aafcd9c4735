use crate::address::{derived_view, find_offer_address, offer_address_of, Address};
use crate::error::EscrowError;
use crate::ledger::{max_amount, Ledger};
use crate::state::{Offer, OfferRecord};
use vstd::prelude::*;

verus! {

/// The accounts of a new offer: the maker, who signs and funds it, the mint
/// of the offered token and the mint of the wanted token.
#[derive(Clone, Copy, Debug, PartialEq, Eq)]
pub struct MakeOffer {
    pub maker: Address,
    pub token_mint_a: Address,
    pub token_mint_b: Address,
}

/// The escrow's instructions, one variant each.
#[derive(Clone, Copy, Debug, PartialEq, Eq)]
pub enum Instruction {
    MakeOffer {
        context: MakeOffer,
        id: u64,
        token_a_offered_amount: u64,
        token_b_wanted_amount: u64,
    },
    TakeOffer { taker: Address, id: u64 },
    RefundOffer { maker: Address, id: u64 },
}

/// The offer that a successful `make_offer` records.
pub open spec fn new_offer(context: MakeOffer, id: u64, wanted: u64, bump: u8) -> Offer {
    Offer {
        id,
        maker: context.maker,
        token_mint_a: context.token_mint_a,
        token_mint_b: context.token_mint_b,
        token_b_wanted_amount: wanted,
        bump,
    }
}

/// `make_offer` took `pre` to `post` with result `r`, where `derived` is the
/// address and bump derived for `id`.
pub open spec fn make_outcome(
    pre: Ledger,
    post: Ledger,
    context: MakeOffer,
    id: u64,
    offered: u64,
    wanted: u64,
    derived: Option<(Seq<u8>, u8)>,
    r: Result<Offer, EscrowError>,
) -> bool {
    if offered == 0 || wanted == 0 {
        r == Err::<Offer, EscrowError>(EscrowError::InvalidAmount) && post == pre
    } else if context.token_mint_a == context.token_mint_b {
        r == Err::<Offer, EscrowError>(EscrowError::InvalidAssetPair) && post == pre
    } else if derived is None {
        r == Err::<Offer, EscrowError>(EscrowError::AddressDerivationFailed) && post == pre
    } else if pre.offers().contains_key(id) {
        r == Err::<Offer, EscrowError>(EscrowError::OfferAlreadyExists) && post == pre
    } else if pre.balance(context.maker, context.token_mint_a) < offered {
        r == Err::<Offer, EscrowError>(EscrowError::InsufficientFunderBalance) && post == pre
    } else {
        let (address, bump) = derived->0;
        let offer = new_offer(context, id, wanted, bump);
        &&& r == Ok::<Offer, EscrowError>(offer)
        &&& post.program_id() == pre.program_id()
        &&& post.offers() == pre.offers().insert(id, post.offers()[id])
        &&& post.offers()[id].offer == offer
        &&& post.offers()[id].held == offered
        &&& post.offers()[id].address.bytes@ == address
        &&& forall|o: Address, m: Address| #[trigger]
            post.balance(o, m) == pre.balance(o, m) - (if o == context.maker && m
                == context.token_mint_a {
                offered as int
            } else {
                0
            })
    }
}

/// `take_offer` by `taker` took `pre` to `post` with result `r`.
pub open spec fn take_outcome(
    pre: Ledger,
    post: Ledger,
    taker: Address,
    id: u64,
    r: Result<(), EscrowError>,
) -> bool {
    if !pre.offers().contains_key(id) {
        r == Err::<(), EscrowError>(EscrowError::OfferNotFound) && post == pre
    } else {
        let rec = pre.offers()[id];
        let o = rec.offer;
        let wanted = o.token_b_wanted_amount;
        if pre.balance(taker, o.token_mint_b) < wanted {
            r == Err::<(), EscrowError>(EscrowError::InsufficientTakerBalance) && post == pre
        } else if (taker != o.maker && pre.balance(o.maker, o.token_mint_b) + wanted
            > max_amount()) || pre.balance(taker, o.token_mint_a) + rec.held > max_amount() {
            r == Err::<(), EscrowError>(EscrowError::BalanceOverflow) && post == pre
        } else {
            &&& r == Ok::<(), EscrowError>(())
            &&& post.program_id() == pre.program_id()
            &&& post.offers() == pre.offers().remove(id)
            &&& forall|x: Address, m: Address| #[trigger]
                post.balance(x, m) == pre.balance(x, m) - (if x == taker && m == o.token_mint_b {
                    wanted as int
                } else {
                    0
                }) + (if x == o.maker && m == o.token_mint_b {
                    wanted as int
                } else {
                    0
                }) + (if x == taker && m == o.token_mint_a {
                    rec.held as int
                } else {
                    0
                })
        }
    }
}

/// `refund_offer` called by `caller` took `pre` to `post` with result `r`.
pub open spec fn refund_outcome(
    pre: Ledger,
    post: Ledger,
    caller: Address,
    id: u64,
    r: Result<(), EscrowError>,
) -> bool {
    if !pre.offers().contains_key(id) {
        r == Err::<(), EscrowError>(EscrowError::OfferNotFound) && post == pre
    } else {
        let rec = pre.offers()[id];
        let o = rec.offer;
        if caller != o.maker {
            r == Err::<(), EscrowError>(EscrowError::Unauthorized) && post == pre
        } else if pre.balance(o.maker, o.token_mint_a) + rec.held > max_amount() {
            r == Err::<(), EscrowError>(EscrowError::BalanceOverflow) && post == pre
        } else {
            &&& r == Ok::<(), EscrowError>(())
            &&& post.program_id() == pre.program_id()
            &&& post.offers() == pre.offers().remove(id)
            &&& forall|x: Address, m: Address| #[trigger]
                post.balance(x, m) == pre.balance(x, m) + (if x == o.maker && m == o.token_mint_a {
                    rec.held as int
                } else {
                    0
                })
        }
    }
}

/// The terms of a new offer are acceptable: both amounts are positive and
/// the two mints differ.
pub fn check_offer(
    token_a_offered_amount: u64,
    token_b_wanted_amount: u64,
    token_mint_a: &Address,
    token_mint_b: &Address,
) -> (r: Result<(), EscrowError>)
    ensures
        r == (if token_a_offered_amount == 0 || token_b_wanted_amount == 0 {
            Err::<(), EscrowError>(EscrowError::InvalidAmount)
        } else if *token_mint_a == *token_mint_b {
            Err::<(), EscrowError>(EscrowError::InvalidAssetPair)
        } else {
            Ok::<(), EscrowError>(())
        }),
{
    if token_a_offered_amount == 0 || token_b_wanted_amount == 0 {
        return Err(EscrowError::InvalidAmount);
    }
    if token_mint_a.same(token_mint_b) {
        return Err(EscrowError::InvalidAssetPair);
    }
    Ok(())
}

/// Only the maker of an offer may cancel it.
pub fn check_maker(caller: &Address, maker: &Address) -> (r: Result<(), EscrowError>)
    ensures
        r == (if *caller == *maker {
            Ok::<(), EscrowError>(())
        } else {
            Err::<(), EscrowError>(EscrowError::Unauthorized)
        }),
{
    if caller.same(maker) {
        Ok(())
    } else {
        Err(EscrowError::Unauthorized)
    }
}

/// Opens offer `id` at the address `derived` that was derived for it: checks
/// the amounts and the pair of mints, moves the offered amount from the maker
/// into the offer's holding and records the offer.
pub fn make_offer_at(
    ledger: &mut Ledger,
    context: &MakeOffer,
    id: u64,
    token_a_offered_amount: u64,
    token_b_wanted_amount: u64,
    derived: Option<(Address, u8)>,
) -> (r: Result<Offer, EscrowError>)
    requires
        old(ledger).wf(),
    ensures
        final(ledger).wf(),
        make_outcome(
            *old(ledger),
            *final(ledger),
            *context,
            id,
            token_a_offered_amount,
            token_b_wanted_amount,
            derived_view(derived),
            r,
        ),
{
    match check_offer(
        token_a_offered_amount,
        token_b_wanted_amount,
        &context.token_mint_a,
        &context.token_mint_b,
    ) {
        Ok(()) => {},
        Err(e) => {
            return Err(e);
        },
    }
    let (address, bump) = match derived {
        Some(d) => d,
        None => {
            return Err(EscrowError::AddressDerivationFailed);
        },
    };
    if ledger.record(id).is_some() {
        return Err(EscrowError::OfferAlreadyExists);
    }
    let funds = ledger.balance_of(&context.maker, &context.token_mint_a);
    if funds < token_a_offered_amount {
        return Err(EscrowError::InsufficientFunderBalance);
    }
    ledger.set_balance(&context.maker, &context.token_mint_a, funds - token_a_offered_amount);
    let offer = Offer {
        id,
        maker: context.maker,
        token_mint_a: context.token_mint_a,
        token_mint_b: context.token_mint_b,
        token_b_wanted_amount,
        bump,
    };
    ledger.insert_record(id, OfferRecord { offer, address, held: token_a_offered_amount });
    Ok(offer)
}

/// Opens offer `id`: derives its address from the program and `id`, then
/// proceeds as `make_offer_at`.
pub fn make_offer(
    ledger: &mut Ledger,
    context: &MakeOffer,
    id: u64,
    token_a_offered_amount: u64,
    token_b_wanted_amount: u64,
) -> (r: Result<Offer, EscrowError>)
    requires
        old(ledger).wf(),
    ensures
        final(ledger).wf(),
        make_outcome(
            *old(ledger),
            *final(ledger),
            *context,
            id,
            token_a_offered_amount,
            token_b_wanted_amount,
            offer_address_of(id, old(ledger).program_id()),
            r,
        ),
{
    let program_id = ledger.program_address();
    let derived = find_offer_address(id, &program_id);
    make_offer_at(ledger, context, id, token_a_offered_amount, token_b_wanted_amount, derived)
}

/// Fulfils offer `id`: the taker pays the wanted amount to the maker, then
/// receives the whole holding, and the offer is closed.
pub fn take_offer(ledger: &mut Ledger, taker: &Address, id: u64) -> (r: Result<(), EscrowError>)
    requires
        old(ledger).wf(),
    ensures
        final(ledger).wf(),
        take_outcome(*old(ledger), *final(ledger), *taker, id, r),
{
    let rec = match ledger.record(id) {
        Some(rec) => rec,
        None => {
            return Err(EscrowError::OfferNotFound);
        },
    };
    let offer = rec.offer;
    let wanted = offer.token_b_wanted_amount;
    let taker_b = ledger.balance_of(taker, &offer.token_mint_b);
    if taker_b < wanted {
        return Err(EscrowError::InsufficientTakerBalance);
    }
    let taker_is_maker = taker.same(&offer.maker);
    let maker_b = ledger.balance_of(&offer.maker, &offer.token_mint_b);
    if !taker_is_maker && maker_b > u64::MAX - wanted {
        return Err(EscrowError::BalanceOverflow);
    }
    let taker_a = ledger.balance_of(taker, &offer.token_mint_a);
    if taker_a > u64::MAX - rec.held {
        return Err(EscrowError::BalanceOverflow);
    }
    let ghost pre = *ledger;
    proof {
        pre.lemma_records_ok();
    }
    ledger.set_balance(taker, &offer.token_mint_b, taker_b - wanted);
    let ghost paid = *ledger;
    let maker_b = ledger.balance_of(&offer.maker, &offer.token_mint_b);
    ledger.set_balance(&offer.maker, &offer.token_mint_b, maker_b + wanted);
    let ghost received = *ledger;
    ledger.set_balance(taker, &offer.token_mint_a, taker_a + rec.held);
    let ghost released = *ledger;
    ledger.remove_record(id);
    proof {
        assert forall|x: Address, m: Address| #[trigger]
            ledger.balance(x, m) == pre.balance(x, m) - (if x == *taker && m
                == offer.token_mint_b {
                wanted as int
            } else {
                0
            }) + (if x == offer.maker && m == offer.token_mint_b {
                wanted as int
            } else {
                0
            }) + (if x == *taker && m == offer.token_mint_a {
                rec.held as int
            } else {
                0
            }) by {
            assert(released.balance(x, m) == ledger.balance(x, m));
            assert(received.balance(x, m) == released.balance(x, m) || (x == *taker && m
                == offer.token_mint_a));
            assert(paid.balance(x, m) == received.balance(x, m) || (x == offer.maker && m
                == offer.token_mint_b));
            assert(pre.balance(x, m) == paid.balance(x, m) || (x == *taker && m
                == offer.token_mint_b));
        }
    }
    Ok(())
}

/// Cancels offer `id` on behalf of its maker: the whole holding goes back to
/// the maker and the offer is closed.
pub fn refund_offer(ledger: &mut Ledger, maker: &Address, id: u64) -> (r: Result<
    (),
    EscrowError,
>)
    requires
        old(ledger).wf(),
    ensures
        final(ledger).wf(),
        refund_outcome(*old(ledger), *final(ledger), *maker, id, r),
{
    let rec = match ledger.record(id) {
        Some(rec) => rec,
        None => {
            return Err(EscrowError::OfferNotFound);
        },
    };
    let offer = rec.offer;
    match check_maker(maker, &offer.maker) {
        Ok(()) => {},
        Err(e) => {
            return Err(e);
        },
    }
    let maker_a = ledger.balance_of(&offer.maker, &offer.token_mint_a);
    if maker_a > u64::MAX - rec.held {
        return Err(EscrowError::BalanceOverflow);
    }
    ledger.set_balance(&offer.maker, &offer.token_mint_a, maker_a + rec.held);
    ledger.remove_record(id);
    Ok(())
}

/// Runs one instruction. A new offer is handed back; the other instructions
/// hand back nothing.
pub fn process(ledger: &mut Ledger, instruction: Instruction) -> (r: Result<
    Option<Offer>,
    EscrowError,
>)
    requires
        old(ledger).wf(),
    ensures
        final(ledger).wf(),
        match instruction {
            Instruction::MakeOffer {
                context,
                id,
                token_a_offered_amount,
                token_b_wanted_amount,
            } => exists|res: Result<Offer, EscrowError>|
                {
                    &&& #[trigger] make_outcome(
                        *old(ledger),
                        *final(ledger),
                        context,
                        id,
                        token_a_offered_amount,
                        token_b_wanted_amount,
                        offer_address_of(id, old(ledger).program_id()),
                        res,
                    )
                    &&& r == match res {
                        Ok(o) => Ok::<Option<Offer>, EscrowError>(Some(o)),
                        Err(e) => Err(e),
                    }
                },
            Instruction::TakeOffer { taker, id } => exists|res: Result<(), EscrowError>|
                {
                    &&& #[trigger] take_outcome(*old(ledger), *final(ledger), taker, id, res)
                    &&& r == match res {
                        Ok(_) => Ok::<Option<Offer>, EscrowError>(None),
                        Err(e) => Err(e),
                    }
                },
            Instruction::RefundOffer { maker, id } => exists|res: Result<(), EscrowError>|
                {
                    &&& #[trigger] refund_outcome(*old(ledger), *final(ledger), maker, id, res)
                    &&& r == match res {
                        Ok(_) => Ok::<Option<Offer>, EscrowError>(None),
                        Err(e) => Err(e),
                    }
                },
        },
{
    match instruction {
        Instruction::MakeOffer { context, id, token_a_offered_amount, token_b_wanted_amount } => {
            match make_offer(ledger, &context, id, token_a_offered_amount, token_b_wanted_amount) {
                Ok(o) => Ok(Some(o)),
                Err(e) => Err(e),
            }
        },
        Instruction::TakeOffer { taker, id } => match take_offer(ledger, &taker, id) {
            Ok(_) => Ok(None),
            Err(e) => Err(e),
        },
        Instruction::RefundOffer { maker, id } => match refund_offer(ledger, &maker, id) {
            Ok(_) => Ok(None),
            Err(e) => Err(e),
        },
    }
}

} // verus!
