//! The market place: the items that players offer for sale, and at what
//! price.

use crate::dungeon::item::Item;
use vstd::prelude::*;
use vstd::string::*;

verus! {

/// One offer: who sells, what, and for how much gold.
#[derive(Debug)]
pub struct Offer {
    /// The address of the seller.
    pub address: String,
    /// The item for sale.
    pub item: Item,
    /// The price in gold.
    pub price: usize,
}

/// The offers that stand on the market, at most one for each seller and
/// item.
#[derive(Debug)]
pub struct MarketPlace {
    offers: Vec<Offer>,
}

/// The prices on a market, by seller and item.
pub type Prices = Map<(Seq<char>, Item), usize>;

/// What an offer says, as plain values.
pub open spec fn offer_view(offer: Offer) -> ((Seq<char>, Item), usize) {
    ((offer.address@, offer.item), offer.price)
}

/// What the offers of a list say.
pub open spec fn offer_views(offers: Seq<Offer>) -> Seq<((Seq<char>, Item), usize)> {
    offers.map_values(|offer: Offer| offer_view(offer))
}

/// No two offers are for the same seller and item.
pub open spec fn distinct_offers(offers: Seq<((Seq<char>, Item), usize)>) -> bool {
    forall|i: int, j: int|
        0 <= i < j < offers.len() ==> (#[trigger] offers[i]).0 != (#[trigger] offers[j]).0
}

/// The prices that a list of offers sets, a later offer overriding an
/// earlier one for the same seller and item.
pub open spec fn prices_of(offers: Seq<((Seq<char>, Item), usize)>) -> Prices
    decreases offers.len(),
{
    if offers.len() == 0 {
        Map::empty()
    } else {
        prices_of(offers.drop_last()).insert(offers.last().0, offers.last().1)
    }
}

/// A seller and item that no offer names have no price.
proof fn lemma_prices_absent(offers: Seq<((Seq<char>, Item), usize)>, key: (Seq<char>, Item))
    requires
        forall|i: int| 0 <= i < offers.len() ==> (#[trigger] offers[i]).0 != key,
    ensures
        !prices_of(offers).contains_key(key),
    decreases offers.len(),
{
    if offers.len() > 0 {
        assert forall|i: int| 0 <= i < offers.drop_last().len() implies (
        #[trigger] offers.drop_last()[i]).0 != key by {
            assert(offers.drop_last()[i] == offers[i]);
        }
        lemma_prices_absent(offers.drop_last(), key);
        assert(offers[offers.len() - 1].0 != key);
    }
}

/// With distinct offers, each offer sets the price for its seller and item.
proof fn lemma_prices_at(offers: Seq<((Seq<char>, Item), usize)>, i: int)
    requires
        distinct_offers(offers),
        0 <= i < offers.len(),
    ensures
        prices_of(offers).contains_key(offers[i].0),
        prices_of(offers)[offers[i].0] == offers[i].1,
    decreases offers.len(),
{
    if i < offers.len() - 1 {
        assert(offers.drop_last()[i] == offers[i]);
        assert(distinct_offers(offers.drop_last())) by {
            assert forall|a: int, b: int| 0 <= a < b < offers.drop_last().len() implies (
            #[trigger] offers.drop_last()[a]).0 != (#[trigger] offers.drop_last()[b]).0 by {
                assert(offers[a].0 != offers[b].0);
            }
        }
        lemma_prices_at(offers.drop_last(), i);
        assert(offers[i].0 != offers[offers.len() - 1].0);
    }
}

/// An offer taken out of the list is a price removed from the market.
proof fn lemma_prices_remove(offers: Seq<((Seq<char>, Item), usize)>, i: int)
    requires
        distinct_offers(offers),
        0 <= i < offers.len(),
    ensures
        distinct_offers(offers.remove(i)),
        prices_of(offers.remove(i)) == prices_of(offers).remove(offers[i].0),
    decreases offers.len(),
{
    let after = offers.remove(i);
    assert forall|a: int, b: int| 0 <= a < b < after.len() implies (#[trigger] after[a]).0 != (
    #[trigger] after[b]).0 by {
        let a0 = if a < i { a } else { a + 1 };
        let b0 = if b < i { b } else { b + 1 };
        assert(offers[a0].0 != offers[b0].0);
    }
    let front = offers.drop_last();
    if i == offers.len() - 1 {
        assert(after =~= front);
        assert forall|k: int| 0 <= k < front.len() implies (#[trigger] front[k]).0 != offers[i].0 by {
            assert(offers[k].0 != offers[i].0);
        }
        lemma_prices_absent(front, offers[i].0);
        assert(prices_of(front) =~= prices_of(offers).remove(offers[i].0));
    } else {
        assert(distinct_offers(front)) by {
            assert forall|a: int, b: int| 0 <= a < b < front.len() implies (#[trigger] front[a]).0
                != (#[trigger] front[b]).0 by {
                assert(offers[a].0 != offers[b].0);
            }
        }
        lemma_prices_remove(front, i);
        assert(front[i] == offers[i]);
        assert(after.drop_last() =~= front.remove(i));
        assert(after.last() == offers.last());
        assert(offers[i].0 != offers[offers.len() - 1].0);
        assert(prices_of(after) =~= prices_of(offers).remove(offers[i].0));
    }
}

impl View for MarketPlace {
    type V = Prices;

    closed spec fn view(&self) -> Prices {
        prices_of(offer_views(self.offers@))
    }
}

impl Default for MarketPlace {
    /// A market with no offer on it.
    fn default() -> (market: MarketPlace)
        ensures
            market.wf(),
            market@ == Map::<(Seq<char>, Item), usize>::empty(),
    {
        MarketPlace { offers: Vec::new() }
    }
}

impl MarketPlace {
    /// The market holds at most one offer for each seller and item.
    pub closed spec fn wf(&self) -> bool {
        distinct_offers(offer_views(self.offers@))
    }

    /// What the offers say, in the order in which they were made.
    pub closed spec fn listed(&self) -> Seq<((Seq<char>, Item), usize)> {
        offer_views(self.offers@)
    }

    /// What the market's list of offers has to do with its prices.
    pub proof fn lemma_listed(&self)
        requires
            self.wf(),
        ensures
            distinct_offers(self.listed()),
            self@ == prices_of(self.listed()),
            forall|i: int|
                0 <= i < self.listed().len() ==> self@.contains_key(
                    (#[trigger] self.listed()[i]).0,
                ) && self@[self.listed()[i].0] == self.listed()[i].1,
    {
        assert forall|i: int| 0 <= i < self.listed().len() implies self@.contains_key(
            (#[trigger] self.listed()[i]).0,
        ) && self@[self.listed()[i].0] == self.listed()[i].1 by {
            lemma_prices_at(self.listed(), i);
        }
    }

    /// A market with no offer on it.
    pub fn new() -> (market: Self)
        ensures
            market.wf(),
            market@ == Map::<(Seq<char>, Item), usize>::empty(),
    {
        MarketPlace { offers: Vec::new() }
    }

    /// The offers, in the order in which they were made.
    pub fn offers(&self) -> (offers: &Vec<Offer>)
        ensures
            offer_views(offers@) == self.listed(),
    {
        &self.offers
    }

    /// Where the offer of `address` for `item` stands in the list.
    fn find(&self, address: &str, item: Item) -> (found: Option<usize>)
        requires
            self.wf(),
        ensures
            match found {
                Some(i) => i < self.offers@.len() && offer_view(self.offers@[i as int]).0 == (
                    address@,
                    item,
                ) && self@.contains_key((address@, item)) && self@[(address@, item)]
                    == self.offers@[i as int].price,
                None => !self@.contains_key((address@, item)),
            },
    {
        let wanted = String::from_str(address);
        let mut i: usize = 0;
        while i < self.offers.len()
            invariant
                i <= self.offers@.len(),
                self.wf(),
                wanted@ == address@,
                forall|j: int|
                    0 <= j < i ==> (#[trigger] offer_views(self.offers@)[j]).0 != (address@, item),
            decreases self.offers.len() - i,
        {
            if self.offers[i].address == wanted && self.offers[i].item == item {
                proof {
                    lemma_prices_at(offer_views(self.offers@), i as int);
                }
                return Some(i);
            }
            i += 1;
        }
        proof {
            lemma_prices_absent(offer_views(self.offers@), (address@, item));
        }
        None
    }

    /// The price at which `player_address` offers `item`, if it does.
    pub fn get_price(&self, player_address: &str, item: Item) -> (price: Option<usize>)
        requires
            self.wf(),
        ensures
            price == if self@.contains_key((player_address@, item)) {
                Some(self@[(player_address@, item)])
            } else {
                None
            },
    {
        match self.find(player_address, item) {
            Some(i) => Some(self.offers[i].price),
            None => None,
        }
    }

    /// Takes the offer of `player_address` for `item` off the market.
    pub fn buy_item(&mut self, player_address: &str, item: Item)
        requires
            old(self).wf(),
        ensures
            final(self).wf(),
            final(self)@ == old(self)@.remove((player_address@, item)),
    {
        match self.find(player_address, item) {
            Some(i) => {
                let ghost before = offer_views(self.offers@);
                let _ = self.offers.remove(i);
                proof {
                    assert(offer_views(self.offers@) =~= before.remove(i as int));
                    lemma_prices_remove(before, i as int);
                }
            },
            None => {
                assert(self@.remove((player_address@, item)) =~= self@);
            },
        }
    }

    /// Puts `item` on the market for `current_player_address` at `price`,
    /// in place of an earlier offer of the same seller for the same item.
    pub fn sell_item(&mut self, current_player_address: &str, item: Item, price: usize)
        requires
            old(self).wf(),
        ensures
            final(self).wf(),
            final(self)@ == old(self)@.insert((current_player_address@, item), price),
    {
        let ghost start = self@;
        self.buy_item(current_player_address, item);
        let ghost before = offer_views(self.offers@);
        let offer = Offer { address: String::from_str(current_player_address), item, price };
        self.offers.push(offer);
        proof {
            let key = (current_player_address@, item);
            assert(offer_views(self.offers@) =~= before.push((key, price)));
            assert(before.push((key, price)).drop_last() =~= before);
            assert forall|i: int, j: int|
                0 <= i < j < offer_views(self.offers@).len() implies (#[trigger] offer_views(
                self.offers@,
            )[i]).0 != (#[trigger] offer_views(self.offers@)[j]).0 by {
                if j == before.len() {
                    if before[i].0 == key {
                        lemma_prices_at(before, i);
                    }
                } else {
                    assert(before[i].0 != before[j].0);
                }
            }
            assert(start.remove(key).insert(key, price) =~= start.insert(key, price));
        }
    }
}

} // verus!
