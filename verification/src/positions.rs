//! The account state reporter: raw fixed-point venue balances are resolved
//! against the symbology snapshot, converted to decimals, filtered to
//! strictly positive quantities, and emitted as one full account snapshot.
use vstd::prelude::*;
use vstd::string::StringExecFns;
use crate::VertexService;
use crate::decimal::Dec;
use crate::decimal::from_x18_spec;
use crate::decimal::dec_from_x18;
use crate::symbology::Product;
use crate::symbology::SymbologyV;
use crate::symbology::TradableProduct;
use crate::symbology::TradableProductV;
use crate::symbology::VertexSymbology;
use crate::symbology::ExecutionInfoEntry;
use crate::symbology::alist_lookup;
use crate::symbology::products_view;
use crate::symbology::tradables_view;

verus! {

/// One raw balance entry of the venue subaccount: a venue product id and a
/// fixed-point amount at 18 fractional digits.
#[derive(Clone, Copy, Debug, PartialEq, Eq, Structural)]
pub struct RawBalance {
    pub product_id: u32,
    pub amount: i128,
}

/// The venue subaccount's raw spot and perpetual balances.
#[derive(Clone, Debug, PartialEq, Eq)]
pub struct SubaccountInfo {
    pub spot_balances: Vec<RawBalance>,
    pub perp_balances: Vec<RawBalance>,
}

/// A full account snapshot: canonical product to strictly positive decimal
/// quantity, never a delta. Later rows shadow earlier rows with the same
/// key.
#[derive(Clone, Debug, PartialEq, Eq)]
pub struct AccountSummary {
    pub account: String,
    pub timestamp: i64,
    pub timestamp_ns: u32,
    pub balances: Vec<(Product, Dec)>,
    pub positions: Vec<(TradableProduct, Dec)>,
    pub is_snapshot: bool,
}

/// A protocol response on the counterparty stream.
#[derive(Clone, Debug, PartialEq, Eq)]
pub enum CptyResponse {
    /// The one-time full symbology snapshot a new connection receives.
    Symbology(Vec<ExecutionInfoEntry>),
    /// A full account snapshot.
    UpdateAccountSummary(AccountSummary),
}

pub open spec fn balances_view(s: Seq<(Product, Dec)>) -> Seq<(Seq<char>, Dec)> {
    s.map_values(|p: (Product, Dec)| (p.0.symbol@, p.1))
}

pub open spec fn positions_view(s: Seq<(TradableProduct, Dec)>) -> Seq<(TradableProductV, Dec)> {
    s.map_values(|p: (TradableProduct, Dec)| (p.0@, p.1))
}

/// The balances a spot balance list yields: each entry resolved to its
/// canonical product, converted to a decimal, and kept only when strictly
/// positive; unresolvable or inconvertible entries are dropped, never
/// fatal.
pub open spec fn spot_balances_fold(sym: SymbologyV, items: Seq<RawBalance>) -> Seq<
    (Seq<char>, Dec),
>
    decreases items.len(),
{
    if items.len() == 0 {
        Seq::<(Seq<char>, Dec)>::empty()
    } else {
        let rest = spot_balances_fold(sym, items.drop_last());
        let it = items.last();
        match alist_lookup(sym.products, it.product_id) {
            None => rest,
            Some(symbol) => match from_x18_spec(it.amount) {
                None => rest,
                Some(q) => if q.mantissa > 0 {
                    rest.push((symbol, q))
                } else {
                    rest
                },
            },
        }
    }
}

/// The positions a perpetual balance list yields, resolved to tradable
/// products the same way.
pub open spec fn perp_positions_fold(sym: SymbologyV, items: Seq<RawBalance>) -> Seq<
    (TradableProductV, Dec),
>
    decreases items.len(),
{
    if items.len() == 0 {
        Seq::<(TradableProductV, Dec)>::empty()
    } else {
        let rest = perp_positions_fold(sym, items.drop_last());
        let it = items.last();
        match alist_lookup(sym.tradable_products, it.product_id) {
            None => rest,
            Some(tp) => match from_x18_spec(it.amount) {
                None => rest,
                Some(q) => if q.mantissa > 0 {
                    rest.push((tp, q))
                } else {
                    rest
                },
            },
        }
    }
}

/// Account snapshots never contain a zero or negative quantity entry.
pub proof fn lemma_snapshot_quantities_positive(sym: SymbologyV, items: Seq<RawBalance>)
    ensures
        forall|i: int|
            0 <= i < spot_balances_fold(sym, items).len() ==> (#[trigger] spot_balances_fold(
                sym,
                items,
            )[i]).1.mantissa > 0,
        forall|i: int|
            0 <= i < perp_positions_fold(sym, items).len() ==> (#[trigger] perp_positions_fold(
                sym,
                items,
            )[i]).1.mantissa > 0,
    decreases items.len(),
{
    if items.len() > 0 {
        lemma_snapshot_quantities_positive(sym, items.drop_last());
        let s = spot_balances_fold(sym, items);
        let srest = spot_balances_fold(sym, items.drop_last());
        assert forall|i: int| 0 <= i < s.len() implies (#[trigger] s[i]).1.mantissa > 0 by {
            if i < srest.len() {
                assert(s[i] == srest[i]);
            }
        };
        let p = perp_positions_fold(sym, items);
        let prest = perp_positions_fold(sym, items.drop_last());
        assert forall|i: int| 0 <= i < p.len() implies (#[trigger] p[i]).1.mantissa > 0 by {
            if i < prest.len() {
                assert(p[i] == prest[i]);
            }
        };
    }
}

/// Finds the last canonical product the snapshot binds to a venue product
/// id.
fn find_product<'a>(products: &'a Vec<(u32, Product)>, id: u32) -> (r: Option<&'a Product>)
    ensures
        match r {
            Some(p) => alist_lookup(products_view(products@), id) == Some(p.symbol@),
            None => alist_lookup(products_view(products@), id) is None,
        },
{
    let mut i: usize = products.len();
    proof {
        assert(products_view(products@.take(products@.len() as int)) =~= products_view(products@));
    }
    while i > 0
        invariant
            i <= products@.len(),
            alist_lookup(products_view(products@.take(i as int)), id) == alist_lookup(
                products_view(products@),
                id,
            ),
        decreases i,
    {
        i = i - 1;
        proof {
            assert(products_view(products@.take(i + 1)).last() == (
                products@[i as int].0,
                products@[i as int].1.symbol@,
            ));
            assert(products_view(products@.take(i + 1)).drop_last() =~= products_view(
                products@.take(i as int),
            ));
        }
        if products[i].0 == id {
            return Some(&products[i].1);
        }
    }
    proof {
        assert(products_view(products@.take(0)) =~= Seq::<(u32, Seq<char>)>::empty());
    }
    None
}

/// Finds the last tradable product the snapshot binds to a venue product
/// id.
fn find_tradable<'a>(tradables: &'a Vec<(u32, TradableProduct)>, id: u32) -> (r: Option<
    &'a TradableProduct,
>)
    ensures
        match r {
            Some(tp) => alist_lookup(tradables_view(tradables@), id) == Some(tp@),
            None => alist_lookup(tradables_view(tradables@), id) is None,
        },
{
    let mut i: usize = tradables.len();
    proof {
        assert(tradables_view(tradables@.take(tradables@.len() as int)) =~= tradables_view(
            tradables@,
        ));
    }
    while i > 0
        invariant
            i <= tradables@.len(),
            alist_lookup(tradables_view(tradables@.take(i as int)), id) == alist_lookup(
                tradables_view(tradables@),
                id,
            ),
        decreases i,
    {
        i = i - 1;
        proof {
            assert(tradables_view(tradables@.take(i + 1)).last() == (
                tradables@[i as int].0,
                tradables@[i as int].1@,
            ));
            assert(tradables_view(tradables@.take(i + 1)).drop_last() =~= tradables_view(
                tradables@.take(i as int),
            ));
        }
        if tradables[i].0 == id {
            return Some(&tradables[i].1);
        }
    }
    proof {
        assert(tradables_view(tradables@.take(0)) =~= Seq::<(u32, TradableProductV)>::empty());
    }
    None
}

/// Copies a string slice into an owned string.
fn copy_str(s: &str) -> (r: String)
    ensures
        r@ == s@,
{
    String::from_str(s)
}

impl VertexService {
    /// Builds one full account snapshot from the venue subaccount's raw
    /// balances and the wall-clock timestamp the caller read: balances and
    /// positions resolved through the symbology snapshot, with only
    /// strictly positive quantities kept.
    pub fn update_account_summary(&self, info: &SubaccountInfo, now_secs: i64, now_ns: u32) -> (r:
        CptyResponse)
        ensures
            r matches CptyResponse::UpdateAccountSummary(s) && s.account@ == self.account_id@
                && s.timestamp == now_secs && s.timestamp_ns == now_ns && s.is_snapshot == true
                && balances_view(s.balances@) == spot_balances_fold(
                self.vertex_symbology@,
                info.spot_balances@,
            ) && positions_view(s.positions@) == perp_positions_fold(
                self.vertex_symbology@,
                info.perp_balances@,
            ) && (forall|i: int|
                0 <= i < s.balances@.len() ==> (#[trigger] s.balances@[i]).1.mantissa > 0) && (
            forall|i: int|
                0 <= i < s.positions@.len() ==> (#[trigger] s.positions@[i]).1.mantissa > 0),
    {
        let mut balances: Vec<(Product, Dec)> = Vec::new();
        let spot = &info.spot_balances;
        let mut i: usize = 0;
        while i < spot.len()
            invariant
                i <= spot@.len(),
                balances_view(balances@) == spot_balances_fold(
                    self.vertex_symbology@,
                    spot@.take(i as int),
                ),
            decreases spot@.len() - i,
        {
            let it = &spot[i];
            proof {
                assert(spot@.take(i + 1).last() == spot@[i as int]);
                assert(spot@.take(i + 1).drop_last() =~= spot@.take(i as int));
            }
            match find_product(&self.vertex_symbology.products, it.product_id) {
                None => {},
                Some(product) => {
                    match dec_from_x18(it.amount) {
                        None => {},
                        Some(quantity) => {
                            if quantity.is_strictly_positive() {
                                let p = Product { symbol: copy_str(product.symbol.as_str()) };
                                balances.push((p, quantity));
                            }
                        },
                    }
                },
            }
            proof {
                assert(balances_view(balances@) =~= spot_balances_fold(
                    self.vertex_symbology@,
                    spot@.take(i + 1),
                ));
            }
            i = i + 1;
        }
        proof {
            assert(spot@.take(spot@.len() as int) =~= spot@);
        }

        let mut positions: Vec<(TradableProduct, Dec)> = Vec::new();
        let perp = &info.perp_balances;
        let mut j: usize = 0;
        while j < perp.len()
            invariant
                j <= perp@.len(),
                positions_view(positions@) == perp_positions_fold(
                    self.vertex_symbology@,
                    perp@.take(j as int),
                ),
            decreases perp@.len() - j,
        {
            let it = &perp[j];
            proof {
                assert(perp@.take(j + 1).last() == perp@[j as int]);
                assert(perp@.take(j + 1).drop_last() =~= perp@.take(j as int));
            }
            match find_tradable(&self.vertex_symbology.tradable_products, it.product_id) {
                None => {},
                Some(tp) => {
                    match dec_from_x18(it.amount) {
                        None => {},
                        Some(quantity) => {
                            if quantity.is_strictly_positive() {
                                let t = TradableProduct {
                                    base: copy_str(tp.base.as_str()),
                                    quote: copy_str(tp.quote.as_str()),
                                };
                                positions.push((t, quantity));
                            }
                        },
                    }
                },
            }
            proof {
                assert(positions_view(positions@) =~= perp_positions_fold(
                    self.vertex_symbology@,
                    perp@.take(j + 1),
                ));
            }
            j = j + 1;
        }
        proof {
            assert(perp@.take(perp@.len() as int) =~= perp@);
        }

        proof {
            lemma_snapshot_quantities_positive(self.vertex_symbology@, spot@);
            lemma_snapshot_quantities_positive(self.vertex_symbology@, perp@);
            assert forall|i: int|
                0 <= i < balances@.len() implies (#[trigger] balances@[i]).1.mantissa > 0 by {
                assert(spot_balances_fold(self.vertex_symbology@, spot@)[i].1.mantissa > 0);
                assert(balances_view(balances@)[i] == (balances@[i].0.symbol@, balances@[i].1));
            };
            assert forall|i: int|
                0 <= i < positions@.len() implies (#[trigger] positions@[i]).1.mantissa > 0 by {
                assert(perp_positions_fold(self.vertex_symbology@, perp@)[i].1.mantissa > 0);
                assert(positions_view(positions@)[i] == (positions@[i].0@, positions@[i].1));
            };
        }
        CptyResponse::UpdateAccountSummary(
            AccountSummary {
                account: copy_str(self.account_id.as_str()),
                timestamp: now_secs,
                timestamp_ns: now_ns,
                balances,
                positions,
                is_snapshot: true,
            },
        )
    }
}

} // verus!
