//! Symbology resolution: the venue's asset and product catalogs, fetched
//! once at startup, are folded into an immutable snapshot mapping venue
//! product identifiers to canonical products and per-venue trading
//! constraints. A bad catalog entry degrades the snapshot by omission and
//! never aborts the whole load.
use vstd::prelude::*;
use vstd::string::StringExecFns;
use crate::decimal::Dec;
use crate::decimal::from_x18_spec;
use crate::decimal::dec_from_x18;
use crate::text::ends_with_spec;
use crate::text::strip_suffix_str;
use crate::text::dec_str;
use crate::text::u32_to_string;
use crate::text::str_eq;

verus! {

/// A venue asset as the asset catalog lists it.
#[derive(Clone, Debug, PartialEq, Eq)]
pub struct Asset {
    pub product_id: u32,
    pub symbol: String,
    pub market_type: Option<String>,
    pub ticker_id: Option<String>,
}

/// A perpetual leg of the product catalog with its fixed-point book
/// parameters, all at 18 fractional digits.
#[derive(Clone, Copy, Debug, PartialEq, Eq, Structural)]
pub struct PerpProduct {
    pub product_id: u32,
    pub price_increment_x18: i128,
    pub size_increment: i128,
    pub min_size: i128,
}

/// A spot leg of the product catalog; its execution info is a known gap of
/// this connector, so only the identifier is carried.
#[derive(Clone, Copy, Debug, PartialEq, Eq, Structural)]
pub struct SpotProduct {
    pub product_id: u32,
}

/// The venue's full product catalog.
#[derive(Clone, Debug, PartialEq, Eq)]
pub struct ProductCatalog {
    pub spot_products: Vec<SpotProduct>,
    pub perp_products: Vec<PerpProduct>,
}

/// A canonical product: a spot currency.
#[derive(Clone, Debug, PartialEq, Eq)]
pub struct Product {
    pub symbol: String,
}

/// A canonical (base, quote) pair eligible for trading.
#[derive(Clone, Debug, PartialEq, Eq)]
pub struct TradableProduct {
    pub base: String,
    pub quote: String,
}

/// The unit in which a minimum order quantity is stated.
#[derive(Clone, Copy, Debug, PartialEq, Eq, Structural)]
pub enum MinOrderQuantityUnit {
    Base,
    Quote,
}

/// Per-venue trading constraints of a tradable product.
#[derive(Clone, Debug, PartialEq, Eq)]
pub struct ExecutionInfo {
    pub execution_venue: String,
    pub exchange_symbol: Option<String>,
    pub tick_size: Dec,
    pub step_size: Dec,
    pub min_order_quantity: Dec,
    pub min_order_quantity_unit: MinOrderQuantityUnit,
    pub is_delisted: bool,
    pub initial_margin: Option<Dec>,
    pub maintenance_margin: Option<Dec>,
}

/// One (tradable product, venue) row of the execution-info table.
#[derive(Clone, Debug, PartialEq, Eq)]
pub struct ExecutionInfoEntry {
    pub product: TradableProduct,
    pub venue: String,
    pub info: ExecutionInfo,
}

/// The immutable symbology snapshot: venue product id to canonical product,
/// venue product id to tradable product, and the execution-info table. Each
/// map holds one row per key; a later catalog entry replaces an earlier one.
#[derive(Clone, Debug, PartialEq, Eq)]
pub struct VertexSymbology {
    pub products: Vec<(u32, Product)>,
    pub tradable_products: Vec<(u32, TradableProduct)>,
    pub execution_info: Vec<ExecutionInfoEntry>,
}

#[verifier::ext_equal]
pub ghost struct TradableProductV {
    pub base: Seq<char>,
    pub quote: Seq<char>,
}

#[verifier::ext_equal]
pub ghost struct ExecutionInfoV {
    pub execution_venue: Seq<char>,
    pub exchange_symbol: Option<Seq<char>>,
    pub tick_size: Dec,
    pub step_size: Dec,
    pub min_order_quantity: Dec,
    pub min_order_quantity_unit: MinOrderQuantityUnit,
    pub is_delisted: bool,
    pub initial_margin: Option<Dec>,
    pub maintenance_margin: Option<Dec>,
}

#[verifier::ext_equal]
pub ghost struct ExecutionInfoEntryV {
    pub product: TradableProductV,
    pub venue: Seq<char>,
    pub info: ExecutionInfoV,
}

#[verifier::ext_equal]
pub ghost struct SymbologyV {
    pub products: Seq<(u32, Seq<char>)>,
    pub tradable_products: Seq<(u32, TradableProductV)>,
    pub execution_info: Seq<ExecutionInfoEntryV>,
}

impl View for TradableProduct {
    type V = TradableProductV;

    open spec fn view(&self) -> TradableProductV {
        TradableProductV { base: self.base@, quote: self.quote@ }
    }
}

impl View for ExecutionInfo {
    type V = ExecutionInfoV;

    open spec fn view(&self) -> ExecutionInfoV {
        ExecutionInfoV {
            execution_venue: self.execution_venue@,
            exchange_symbol: match self.exchange_symbol {
                Some(s) => Some(s@),
                None => None,
            },
            tick_size: self.tick_size,
            step_size: self.step_size,
            min_order_quantity: self.min_order_quantity,
            min_order_quantity_unit: self.min_order_quantity_unit,
            is_delisted: self.is_delisted,
            initial_margin: self.initial_margin,
            maintenance_margin: self.maintenance_margin,
        }
    }
}

impl View for ExecutionInfoEntry {
    type V = ExecutionInfoEntryV;

    open spec fn view(&self) -> ExecutionInfoEntryV {
        ExecutionInfoEntryV { product: self.product@, venue: self.venue@, info: self.info@ }
    }
}

pub open spec fn products_view(s: Seq<(u32, Product)>) -> Seq<(u32, Seq<char>)> {
    s.map_values(|p: (u32, Product)| (p.0, p.1.symbol@))
}

pub open spec fn tradables_view(s: Seq<(u32, TradableProduct)>) -> Seq<(u32, TradableProductV)> {
    s.map_values(|p: (u32, TradableProduct)| (p.0, p.1@))
}

pub open spec fn entries_view(s: Seq<ExecutionInfoEntry>) -> Seq<ExecutionInfoEntryV> {
    s.map_values(|e: ExecutionInfoEntry| e@)
}

impl View for VertexSymbology {
    type V = SymbologyV;

    open spec fn view(&self) -> SymbologyV {
        SymbologyV {
            products: products_view(self.products@),
            tradable_products: tradables_view(self.tradable_products@),
            execution_info: entries_view(self.execution_info@),
        }
    }
}

/// The last value a key is bound to in an association list, if any: later
/// rows shadow earlier ones.
pub open spec fn alist_lookup<T>(s: Seq<(u32, T)>, k: u32) -> Option<T>
    decreases s.len(),
{
    if s.len() == 0 {
        None
    } else if s.last().0 == k {
        Some(s.last().1)
    } else {
        alist_lookup(s.drop_last(), k)
    }
}

/// The association list without any row bound to the key.
pub open spec fn remove_key<T>(s: Seq<(u32, T)>, k: u32) -> Seq<(u32, T)>
    decreases s.len(),
{
    if s.len() == 0 {
        s
    } else {
        let rest = remove_key(s.drop_last(), k);
        if s.last().0 == k {
            rest
        } else {
            rest.push(s.last())
        }
    }
}

/// Binds a key to a value, dropping any row it shadows: the maps of the
/// snapshot hold one row per key.
pub open spec fn alist_insert<T>(s: Seq<(u32, T)>, k: u32, v: T) -> Seq<(u32, T)> {
    remove_key(s, k).push((k, v))
}

/// The execution-info table without any row bound to a (symbol, venue)
/// pair.
pub open spec fn remove_entry_key(
    s: Seq<ExecutionInfoEntryV>,
    base: Seq<char>,
    venue: Seq<char>,
) -> Seq<ExecutionInfoEntryV>
    decreases s.len(),
{
    if s.len() == 0 {
        s
    } else {
        let rest = remove_entry_key(s.drop_last(), base, venue);
        if s.last().product.base == base && s.last().venue == venue {
            rest
        } else {
            rest.push(s.last())
        }
    }
}

/// No two rows of an association list share a key.
pub open spec fn alist_keys_unique<T>(s: Seq<(u32, T)>) -> bool {
    forall|i: int, j: int| 0 <= i < j < s.len() ==> (#[trigger] s[i]).0 != (#[trigger] s[j]).0
}

/// Every row of an association list stripped of a key is a row of the
/// list, and none carries the stripped key.
proof fn lemma_remove_key_members<T>(s: Seq<(u32, T)>, k: u32)
    ensures
        forall|i: int|
            0 <= i < remove_key(s, k).len() ==> exists|j: int|
                0 <= j < s.len() && s[j] == #[trigger] remove_key(s, k)[i],
        forall|i: int| 0 <= i < remove_key(s, k).len() ==> (#[trigger] remove_key(s, k)[i]).0 != k,
    decreases s.len(),
{
    if s.len() > 0 {
        lemma_remove_key_members(s.drop_last(), k);
        let r = remove_key(s, k);
        let rrest = remove_key(s.drop_last(), k);
        assert forall|i: int| 0 <= i < r.len() implies (exists|j: int|
            0 <= j < s.len() && s[j] == #[trigger] r[i]) && r[i].0 != k by {
            if s.last().0 == k || i < rrest.len() {
                assert(r[i] == rrest[i]);
                let j = choose|j: int|
                    0 <= j < s.drop_last().len() && s.drop_last()[j] == rrest[i];
                assert(s[j] == s.drop_last()[j]);
            } else {
                assert(r[i] == s.last());
                assert(s[s.len() - 1] == s.last());
            }
        };
    }
}

/// Stripping a key keeps an association list's keys unique.
proof fn lemma_remove_key_unique<T>(s: Seq<(u32, T)>, k: u32)
    requires
        alist_keys_unique(s),
    ensures
        alist_keys_unique(remove_key(s, k)),
    decreases s.len(),
{
    if s.len() > 0 {
        assert forall|i: int, j: int|
            0 <= i < j < s.drop_last().len() implies (#[trigger] s.drop_last()[i]).0 != (
        #[trigger] s.drop_last()[j]).0 by {
            assert(s.drop_last()[i] == s[i] && s.drop_last()[j] == s[j]);
        };
        lemma_remove_key_unique(s.drop_last(), k);
        lemma_remove_key_members(s.drop_last(), k);
        let r = remove_key(s, k);
        let rrest = remove_key(s.drop_last(), k);
        if s.last().0 != k {
            assert forall|i: int, j: int|
                0 <= i < j < r.len() implies (#[trigger] r[i]).0 != (#[trigger] r[j]).0 by {
                if j < rrest.len() {
                    assert(r[i] == rrest[i] && r[j] == rrest[j]);
                } else {
                    assert(r[i] == rrest[i] && r[j] == s.last());
                    let j0 = choose|j0: int|
                        0 <= j0 < s.drop_last().len() && s.drop_last()[j0] == rrest[i];
                    assert(s[j0] == s.drop_last()[j0]);
                    assert(s[j0].0 != s[s.len() - 1].0);
                    assert(s[s.len() - 1] == s.last());
                }
            };
        }
    }
}

/// Binding a key keeps an association list's keys unique.
proof fn lemma_alist_insert_unique<T>(s: Seq<(u32, T)>, k: u32, v: T)
    requires
        alist_keys_unique(s),
    ensures
        alist_keys_unique(alist_insert(s, k, v)),
{
    lemma_remove_key_unique(s, k);
    lemma_remove_key_members(s, k);
    let r0 = remove_key(s, k);
    let r = alist_insert(s, k, v);
    assert forall|i: int, j: int|
        0 <= i < j < r.len() implies (#[trigger] r[i]).0 != (#[trigger] r[j]).0 by {
        if j < r0.len() {
            assert(r[i] == r0[i] && r[j] == r0[j]);
        } else {
            assert(r[i] == r0[i] && r[j] == (k, v));
        }
    };
}

/// An asset is registered as a spot product unless its market-type tag is
/// `perp`: an unrecognized or absent tag defaults to spot.
pub open spec fn is_spot(a: Asset) -> bool {
    match a.market_type {
        Some(m) => m@ != "perp"@,
        None => true,
    }
}

/// The spot products an asset catalog yields, in catalog order.
pub open spec fn spot_symbols(assets: Seq<Asset>) -> Seq<(u32, Seq<char>)>
    decreases assets.len(),
{
    if assets.len() == 0 {
        Seq::<(u32, Seq<char>)>::empty()
    } else {
        let rest = spot_symbols(assets.drop_last());
        let a = assets.last();
        if is_spot(a) {
            alist_insert(rest, a.product_id, a.symbol@)
        } else {
            rest
        }
    }
}

/// The last asset of the catalog carrying a product id, if any.
pub open spec fn assets_lookup(assets: Seq<Asset>, id: u32) -> Option<Asset>
    decreases assets.len(),
{
    if assets.len() == 0 {
        None
    } else if assets.last().product_id == id {
        Some(assets.last())
    } else {
        assets_lookup(assets.drop_last(), id)
    }
}

/// What one perpetual leg contributes to the snapshot.
pub ghost enum PerpStep {
    /// The leg is excluded entirely: no asset, no ticker, a ticker outside
    /// the venue's suffix convention, or a book parameter that does not
    /// convert to a non-negative decimal.
    Skip,
    /// The leg yields a tradable product and its execution info.
    Full(TradableProductV, ExecutionInfoV),
}

/// Derives the canonical pair and trading constraints of one perpetual leg:
/// its asset is located by product id, the base is the asset's ticker with
/// the venue's `-PERP_USDC` suffix replaced by `-USDC`, and the fixed-point
/// book parameters become normalized non-negative decimals. A conversion
/// failure or a negative book parameter excludes the leg entirely.
pub open spec fn perp_step(assets: Seq<Asset>, item: PerpProduct) -> PerpStep {
    match assets_lookup(assets, item.product_id) {
        None => PerpStep::Skip,
        Some(asset) => match asset.ticker_id {
            None => PerpStep::Skip,
            Some(t) => if !ends_with_spec(t@, "-PERP_USDC"@) {
                PerpStep::Skip
            } else {
                let raw = t@.subrange(0, t@.len() - "-PERP_USDC"@.len());
                let tp = TradableProductV { base: raw + "-USDC"@, quote: "USDC"@ };
                match (from_x18_spec(item.price_increment_x18), from_x18_spec(item.size_increment),
                from_x18_spec(item.min_size)) {
                    (Some(tick), Some(step), Some(min)) => if tick.mantissa < 0 || step.mantissa
                        < 0 || min.mantissa < 0 {
                        PerpStep::Skip
                    } else {
                        PerpStep::Full(
                            tp,
                            ExecutionInfoV {
                                execution_venue: "VERTEX"@,
                                exchange_symbol: Some(dec_str(item.product_id as nat)),
                                tick_size: tick,
                                step_size: step,
                                min_order_quantity: min,
                                min_order_quantity_unit: MinOrderQuantityUnit::Base,
                                is_delisted: false,
                                initial_margin: None,
                                maintenance_margin: None,
                            },
                        )
                    },
                    _ => PerpStep::Skip,
                }
            },
        },
    }
}

/// Folds the perpetual legs into the tradable-product map and the
/// execution-info table, in catalog order.
pub open spec fn perp_fold(assets: Seq<Asset>, perps: Seq<PerpProduct>) -> (
    Seq<(u32, TradableProductV)>,
    Seq<ExecutionInfoEntryV>,
)
    decreases perps.len(),
{
    if perps.len() == 0 {
        (Seq::<(u32, TradableProductV)>::empty(), Seq::<ExecutionInfoEntryV>::empty())
    } else {
        let (tps, entries) = perp_fold(assets, perps.drop_last());
        let item = perps.last();
        match perp_step(assets, item) {
            PerpStep::Skip => (tps, entries),
            PerpStep::Full(tp, info) => (
                alist_insert(tps, item.product_id, tp),
                remove_entry_key(entries, tp.base, "VERTEX"@).push(
                    ExecutionInfoEntryV { product: tp, venue: "VERTEX"@, info },
                ),
            ),
        }
    }
}

/// The snapshot a pair of catalogs yields: symbology load is a pure
/// function of the fetched asset and product lists.
pub open spec fn load_spec(assets: Seq<Asset>, perps: Seq<PerpProduct>) -> SymbologyV {
    SymbologyV {
        products: spot_symbols(assets),
        tradable_products: perp_fold(assets, perps).0,
        execution_info: perp_fold(assets, perps).1,
    }
}

/// The execution info the table binds to a (symbol, venue) pair, if any:
/// later rows shadow earlier ones.
pub open spec fn exec_info_lookup(
    entries: Seq<ExecutionInfoEntryV>,
    symbol: Seq<char>,
    venue: Seq<char>,
) -> Option<ExecutionInfoV>
    decreases entries.len(),
{
    if entries.len() == 0 {
        None
    } else if entries.last().product.base == symbol && entries.last().venue == venue {
        Some(entries.last().info)
    } else {
        exec_info_lookup(entries.drop_last(), symbol, venue)
    }
}

/// A successful lookup hands back the info of some row of the table.
pub proof fn lemma_exec_info_lookup_member(
    entries: Seq<ExecutionInfoEntryV>,
    symbol: Seq<char>,
    venue: Seq<char>,
)
    requires
        exec_info_lookup(entries, symbol, venue) is Some,
    ensures
        exists|i: int|
            0 <= i < entries.len() && exec_info_lookup(entries, symbol, venue) == Some(
                (#[trigger] entries[i]).info,
            ),
    decreases entries.len(),
{
    if entries.len() > 0 {
        if entries.last().product.base == symbol && entries.last().venue == venue {
            assert(exec_info_lookup(entries, symbol, venue) == Some(
                entries[entries.len() - 1].info,
            ));
        } else {
            lemma_exec_info_lookup_member(entries.drop_last(), symbol, venue);
            let i = choose|i: int|
                0 <= i < entries.drop_last().len() && exec_info_lookup(
                    entries.drop_last(),
                    symbol,
                    venue,
                ) == Some((#[trigger] entries.drop_last()[i]).info);
            assert(entries[i] == entries.drop_last()[i]);
        }
    }
}

impl VertexSymbology {
    /// Finds the execution info for a (symbol, venue) pair.
    pub fn lookup_execution_info<'a>(&'a self, symbol: &str, venue: &str) -> (r: Option<
        &'a ExecutionInfo,
    >)
        ensures
            match r {
                Some(info) => exec_info_lookup(self@.execution_info, symbol@, venue@) == Some(
                    info@,
                ),
                None => exec_info_lookup(self@.execution_info, symbol@, venue@) is None,
            },
    {
        let entries = &self.execution_info;
        let mut i: usize = entries.len();
        proof {
            assert(entries_view(entries@.take(entries@.len() as int)) =~= entries_view(entries@));
        }
        while i > 0
            invariant
                i <= entries@.len(),
                exec_info_lookup(entries_view(entries@.take(i as int)), symbol@, venue@)
                    == exec_info_lookup(self@.execution_info, symbol@, venue@),
            decreases i,
        {
            i = i - 1;
            let e = &entries[i];
            proof {
                assert(entries_view(entries@.take(i + 1)).last() == entries@[i as int]@);
                assert(entries_view(entries@.take(i + 1)).drop_last() =~= entries_view(
                    entries@.take(i as int),
                ));
            }
            if str_eq(e.product.base.as_str(), symbol) && str_eq(e.venue.as_str(), venue) {
                return Some(&e.info);
            }
        }
        proof {
            assert(entries_view(entries@.take(0)) =~= Seq::<ExecutionInfoEntryV>::empty());
        }
        None
    }
}

/// Finds the last asset of the catalog carrying a product id.
fn find_asset<'a>(assets: &'a Vec<Asset>, id: u32) -> (r: Option<&'a Asset>)
    ensures
        match r {
            Some(a) => assets_lookup(assets@, id) == Some(*a),
            None => assets_lookup(assets@, id) is None,
        },
{
    let mut i: usize = assets.len();
    proof {
        assert(assets@.take(assets@.len() as int) =~= assets@);
    }
    while i > 0
        invariant
            i <= assets@.len(),
            assets_lookup(assets@.take(i as int), id) == assets_lookup(assets@, id),
        decreases i,
    {
        i = i - 1;
        let a = &assets[i];
        proof {
            assert(assets@.take(i + 1).last() == assets@[i as int]);
            assert(assets@.take(i + 1).drop_last() =~= assets@.take(i as int));
        }
        if a.product_id == id {
            return Some(a);
        }
    }
    proof {
        assert(assets@.take(0) =~= Seq::<Asset>::empty());
    }
    None
}

/// Copies a string slice into an owned string.
fn copy_str(s: &str) -> (r: String)
    ensures
        r@ == s@,
{
    String::from_str(s)
}

/// Copies a canonical product.
fn clone_product(p: &Product) -> (r: Product)
    ensures
        r.symbol@ == p.symbol@,
{
    Product { symbol: copy_str(p.symbol.as_str()) }
}

/// Copies a tradable product.
fn clone_tradable(tp: &TradableProduct) -> (r: TradableProduct)
    ensures
        r@ == tp@,
{
    TradableProduct { base: copy_str(tp.base.as_str()), quote: copy_str(tp.quote.as_str()) }
}

/// Copies an execution-info row.
fn clone_entry(e: &ExecutionInfoEntry) -> (r: ExecutionInfoEntry)
    ensures
        r@ == e@,
{
    let exchange_symbol = match &e.info.exchange_symbol {
        Some(s) => Some(copy_str(s.as_str())),
        None => None,
    };
    let r = ExecutionInfoEntry {
        product: clone_tradable(&e.product),
        venue: copy_str(e.venue.as_str()),
        info: ExecutionInfo {
            execution_venue: copy_str(e.info.execution_venue.as_str()),
            exchange_symbol,
            tick_size: e.info.tick_size,
            step_size: e.info.step_size,
            min_order_quantity: e.info.min_order_quantity,
            min_order_quantity_unit: e.info.min_order_quantity_unit,
            is_delisted: e.info.is_delisted,
            initial_margin: e.info.initial_margin,
            maintenance_margin: e.info.maintenance_margin,
        },
    };
    proof {
        assert(r@ =~= e@);
    }
    r
}

/// Binds a product id in the product map, dropping any row it shadows.
fn products_insert(products: Vec<(u32, Product)>, k: u32, p: Product) -> (r: Vec<(u32, Product)>)
    ensures
        products_view(r@) == alist_insert(products_view(products@), k, p.symbol@),
{
    let mut out: Vec<(u32, Product)> = Vec::new();
    let mut i: usize = 0;
    proof {
        assert(products_view(products@.take(0)) =~= Seq::<(u32, Seq<char>)>::empty());
        assert(products_view(out@) =~= remove_key(products_view(products@.take(0)), k));
    }
    while i < products.len()
        invariant
            i <= products@.len(),
            products_view(out@) == remove_key(products_view(products@.take(i as int)), k),
        decreases products@.len() - i,
    {
        let row = &products[i];
        proof {
            assert(products_view(products@.take(i + 1)).last() == (
                products@[i as int].0,
                products@[i as int].1.symbol@,
            ));
            assert(products_view(products@.take(i + 1)).drop_last() =~= products_view(
                products@.take(i as int),
            ));
        }
        if row.0 != k {
            out.push((row.0, clone_product(&row.1)));
        }
        proof {
            assert(products_view(out@) =~= remove_key(products_view(products@.take(i + 1)), k));
        }
        i = i + 1;
    }
    proof {
        assert(products@.take(products@.len() as int) =~= products@);
    }
    out.push((k, p));
    proof {
        assert(products_view(out@) =~= alist_insert(products_view(products@), k, p.symbol@));
    }
    out
}

/// Binds a product id in the tradable-product map, dropping any row it
/// shadows.
fn tradables_insert(tradables: Vec<(u32, TradableProduct)>, k: u32, tp: TradableProduct) -> (r:
    Vec<(u32, TradableProduct)>)
    ensures
        tradables_view(r@) == alist_insert(tradables_view(tradables@), k, tp@),
{
    let mut out: Vec<(u32, TradableProduct)> = Vec::new();
    let mut i: usize = 0;
    proof {
        assert(tradables_view(tradables@.take(0)) =~= Seq::<(u32, TradableProductV)>::empty());
        assert(tradables_view(out@) =~= remove_key(tradables_view(tradables@.take(0)), k));
    }
    while i < tradables.len()
        invariant
            i <= tradables@.len(),
            tradables_view(out@) == remove_key(tradables_view(tradables@.take(i as int)), k),
        decreases tradables@.len() - i,
    {
        let row = &tradables[i];
        proof {
            assert(tradables_view(tradables@.take(i + 1)).last() == (
                tradables@[i as int].0,
                tradables@[i as int].1@,
            ));
            assert(tradables_view(tradables@.take(i + 1)).drop_last() =~= tradables_view(
                tradables@.take(i as int),
            ));
        }
        if row.0 != k {
            out.push((row.0, clone_tradable(&row.1)));
        }
        proof {
            assert(tradables_view(out@) =~= remove_key(
                tradables_view(tradables@.take(i + 1)),
                k,
            ));
        }
        i = i + 1;
    }
    proof {
        assert(tradables@.take(tradables@.len() as int) =~= tradables@);
    }
    out.push((k, tp));
    proof {
        assert(tradables_view(out@) =~= alist_insert(tradables_view(tradables@), k, tp@));
    }
    out
}

/// Binds a (symbol, venue) pair in the execution-info table, dropping any
/// row it shadows.
fn entries_insert(entries: Vec<ExecutionInfoEntry>, entry: ExecutionInfoEntry) -> (r: Vec<
    ExecutionInfoEntry,
>)
    ensures
        entries_view(r@) == remove_entry_key(
            entries_view(entries@),
            entry@.product.base,
            entry@.venue,
        ).push(entry@),
{
    let mut out: Vec<ExecutionInfoEntry> = Vec::new();
    let mut i: usize = 0;
    proof {
        assert(entries_view(entries@.take(0)) =~= Seq::<ExecutionInfoEntryV>::empty());
        assert(entries_view(out@) =~= remove_entry_key(
            entries_view(entries@.take(0)),
            entry@.product.base,
            entry@.venue,
        ));
    }
    while i < entries.len()
        invariant
            i <= entries@.len(),
            entries_view(out@) == remove_entry_key(
                entries_view(entries@.take(i as int)),
                entry@.product.base,
                entry@.venue,
            ),
        decreases entries@.len() - i,
    {
        let row = &entries[i];
        proof {
            assert(entries_view(entries@.take(i + 1)).last() == entries@[i as int]@);
            assert(entries_view(entries@.take(i + 1)).drop_last() =~= entries_view(
                entries@.take(i as int),
            ));
        }
        let same = str_eq(row.product.base.as_str(), entry.product.base.as_str()) && str_eq(
            row.venue.as_str(),
            entry.venue.as_str(),
        );
        if !same {
            out.push(clone_entry(row));
        }
        proof {
            assert(entries_view(out@) =~= remove_entry_key(
                entries_view(entries@.take(i + 1)),
                entry@.product.base,
                entry@.venue,
            ));
        }
        i = i + 1;
    }
    proof {
        assert(entries@.take(entries@.len() as int) =~= entries@);
    }
    out.push(entry);
    proof {
        assert(entries_view(out@) =~= remove_entry_key(
            entries_view(entries@),
            entry@.product.base,
            entry@.venue,
        ).push(entry@));
    }
    out
}

/// Every row of a table stripped of one key is a row of the table.
pub proof fn lemma_remove_entry_key_members(
    s: Seq<ExecutionInfoEntryV>,
    base: Seq<char>,
    venue: Seq<char>,
)
    ensures
        forall|i: int|
            0 <= i < remove_entry_key(s, base, venue).len() ==> exists|j: int|
                0 <= j < s.len() && s[j] == #[trigger] remove_entry_key(s, base, venue)[i],
    decreases s.len(),
{
    if s.len() > 0 {
        lemma_remove_entry_key_members(s.drop_last(), base, venue);
        let r = remove_entry_key(s, base, venue);
        let rrest = remove_entry_key(s.drop_last(), base, venue);
        assert forall|i: int| 0 <= i < r.len() implies exists|j: int|
            0 <= j < s.len() && s[j] == #[trigger] r[i] by {
            if s.last().product.base == base && s.last().venue == venue {
                assert(r[i] == rrest[i]);
                let j = choose|j: int|
                    0 <= j < s.drop_last().len() && s.drop_last()[j] == rrest[i];
                assert(s[j] == s.drop_last()[j]);
            } else {
                if i < rrest.len() {
                    assert(r[i] == rrest[i]);
                    let j = choose|j: int|
                        0 <= j < s.drop_last().len() && s.drop_last()[j] == rrest[i];
                    assert(s[j] == s.drop_last()[j]);
                } else {
                    assert(r[i] == s.last());
                    assert(s[s.len() - 1] == s.last());
                }
            }
        };
    }
}

/// No two rows of the execution-info table share a (symbol, venue) pair.
pub open spec fn entry_keys_unique(s: Seq<ExecutionInfoEntryV>) -> bool {
    forall|i: int, j: int|
        0 <= i < j < s.len() ==> !((#[trigger] s[i]).product.base == (#[trigger] s[j]).product.base
            && s[i].venue == s[j].venue)
}

/// No row of a table stripped of a (symbol, venue) pair carries that pair.
proof fn lemma_remove_entry_key_gone(s: Seq<ExecutionInfoEntryV>, base: Seq<char>, venue: Seq<char>)
    ensures
        forall|i: int|
            0 <= i < remove_entry_key(s, base, venue).len() ==> !((#[trigger] remove_entry_key(
                s,
                base,
                venue,
            )[i]).product.base == base && remove_entry_key(s, base, venue)[i].venue == venue),
    decreases s.len(),
{
    if s.len() > 0 {
        lemma_remove_entry_key_gone(s.drop_last(), base, venue);
        let r = remove_entry_key(s, base, venue);
        let rrest = remove_entry_key(s.drop_last(), base, venue);
        assert forall|i: int|
            0 <= i < r.len() implies !((#[trigger] r[i]).product.base == base && r[i].venue
            == venue) by {
            if (s.last().product.base == base && s.last().venue == venue) || i < rrest.len() {
                assert(r[i] == rrest[i]);
            } else {
                assert(r[i] == s.last());
            }
        };
    }
}

/// Stripping a (symbol, venue) pair keeps the table's keys unique.
proof fn lemma_remove_entry_key_unique(
    s: Seq<ExecutionInfoEntryV>,
    base: Seq<char>,
    venue: Seq<char>,
)
    requires
        entry_keys_unique(s),
    ensures
        entry_keys_unique(remove_entry_key(s, base, venue)),
    decreases s.len(),
{
    if s.len() > 0 {
        assert forall|i: int, j: int|
            0 <= i < j < s.drop_last().len() implies !((#[trigger] s.drop_last()[i]).product.base
            == (#[trigger] s.drop_last()[j]).product.base && s.drop_last()[i].venue
            == s.drop_last()[j].venue) by {
            assert(s.drop_last()[i] == s[i] && s.drop_last()[j] == s[j]);
        };
        lemma_remove_entry_key_unique(s.drop_last(), base, venue);
        lemma_remove_entry_key_members(s.drop_last(), base, venue);
        let r = remove_entry_key(s, base, venue);
        let rrest = remove_entry_key(s.drop_last(), base, venue);
        if !(s.last().product.base == base && s.last().venue == venue) {
            assert forall|i: int, j: int|
                0 <= i < j < r.len() implies !((#[trigger] r[i]).product.base == (
            #[trigger] r[j]).product.base && r[i].venue == r[j].venue) by {
                if j < rrest.len() {
                    assert(r[i] == rrest[i] && r[j] == rrest[j]);
                } else {
                    assert(r[i] == rrest[i] && r[j] == s.last());
                    let j0 = choose|j0: int|
                        0 <= j0 < s.drop_last().len() && s.drop_last()[j0] == rrest[i];
                    assert(s[j0] == s.drop_last()[j0]);
                    assert(!(s[j0].product.base == s[s.len() - 1].product.base && s[j0].venue
                        == s[s.len() - 1].venue));
                    assert(s[s.len() - 1] == s.last());
                }
            };
        }
    }
}

/// Binding a (symbol, venue) pair keeps the table's keys unique.
proof fn lemma_entries_insert_unique(s: Seq<ExecutionInfoEntryV>, e: ExecutionInfoEntryV)
    requires
        entry_keys_unique(s),
    ensures
        entry_keys_unique(remove_entry_key(s, e.product.base, e.venue).push(e)),
{
    lemma_remove_entry_key_unique(s, e.product.base, e.venue);
    lemma_remove_entry_key_gone(s, e.product.base, e.venue);
    let r0 = remove_entry_key(s, e.product.base, e.venue);
    let r = r0.push(e);
    assert forall|i: int, j: int|
        0 <= i < j < r.len() implies !((#[trigger] r[i]).product.base == (
    #[trigger] r[j]).product.base && r[i].venue == r[j].venue) by {
        if j < r0.len() {
            assert(r[i] == r0[i] && r[j] == r0[j]);
        } else {
            assert(r[i] == r0[i] && r[j] == e);
        }
    };
}

/// The spot-product map a load yields holds one row per key.
proof fn lemma_spot_symbols_unique(assets: Seq<Asset>)
    ensures
        alist_keys_unique(spot_symbols(assets)),
    decreases assets.len(),
{
    if assets.len() > 0 {
        lemma_spot_symbols_unique(assets.drop_last());
        let a = assets.last();
        if is_spot(a) {
            lemma_alist_insert_unique(spot_symbols(assets.drop_last()), a.product_id, a.symbol@);
        }
    }
}

/// The tradable-product map and execution-info table a load yields hold
/// one row per key.
proof fn lemma_perp_fold_unique(assets: Seq<Asset>, perps: Seq<PerpProduct>)
    ensures
        alist_keys_unique(perp_fold(assets, perps).0),
        entry_keys_unique(perp_fold(assets, perps).1),
    decreases perps.len(),
{
    if perps.len() > 0 {
        lemma_perp_fold_unique(assets, perps.drop_last());
        let (tps, entries) = perp_fold(assets, perps.drop_last());
        let item = perps.last();
        match perp_step(assets, item) {
            PerpStep::Skip => {},
            PerpStep::Full(tp, info) => {
                lemma_alist_insert_unique(tps, item.product_id, tp);
                lemma_entries_insert_unique(
                    entries,
                    ExecutionInfoEntryV { product: tp, venue: "VERTEX"@, info },
                );
            },
        }
    }
}

/// Each map of a loaded snapshot holds one row per key: a later catalog
/// entry replaces the row it shadows, never duplicating it.
pub proof fn lemma_load_keys_unique(assets: Seq<Asset>, perps: Seq<PerpProduct>)
    ensures
        alist_keys_unique(load_spec(assets, perps).products),
        alist_keys_unique(load_spec(assets, perps).tradable_products),
        entry_keys_unique(load_spec(assets, perps).execution_info),
{
    lemma_spot_symbols_unique(assets);
    lemma_perp_fold_unique(assets, perps);
}

/// Builds the symbology snapshot from the fetched asset and product
/// catalogs. Every asset not tagged perp becomes a product; each perpetual
/// leg whose asset and ticker follow the venue's conventions, and whose
/// book parameters all convert to non-negative decimals, becomes a
/// tradable product with its execution info; every other entry is excluded
/// entirely, never fatal. Each map holds one row per key: a later catalog
/// entry replaces an earlier one. Spot legs carry no execution info: a
/// known gap, kept as such.
pub fn load_symbology(assets: &Vec<Asset>, catalog: &ProductCatalog) -> (r: VertexSymbology)
    ensures
        r@ == load_spec(assets@, catalog.perp_products@),
{
    let mut products: Vec<(u32, Product)> = Vec::new();
    let mut i: usize = 0;
    while i < assets.len()
        invariant
            i <= assets@.len(),
            products_view(products@) == spot_symbols(assets@.take(i as int)),
        decreases assets@.len() - i,
    {
        let a = &assets[i];
        proof {
            assert(assets@.take(i + 1).last() == assets@[i as int]);
            assert(assets@.take(i + 1).drop_last() =~= assets@.take(i as int));
        }
        let spot = match &a.market_type {
            Some(m) => !str_eq(m.as_str(), "perp"),
            None => true,
        };
        if spot {
            let p = Product { symbol: copy_str(a.symbol.as_str()) };
            products = products_insert(products, a.product_id, p);
            proof {
                assert(products_view(products@) =~= spot_symbols(assets@.take(i + 1)));
            }
        } else {
            proof {
                assert(products_view(products@) =~= spot_symbols(assets@.take(i + 1)));
            }
        }
        i = i + 1;
    }
    proof {
        assert(assets@.take(assets@.len() as int) =~= assets@);
    }

    let mut tradable_products: Vec<(u32, TradableProduct)> = Vec::new();
    let mut execution_info: Vec<ExecutionInfoEntry> = Vec::new();
    let perps = &catalog.perp_products;
    let mut j: usize = 0;
    while j < perps.len()
        invariant
            j <= perps@.len(),
            tradables_view(tradable_products@) == perp_fold(assets@, perps@.take(j as int)).0,
            entries_view(execution_info@) == perp_fold(assets@, perps@.take(j as int)).1,
        decreases perps@.len() - j,
    {
        let item = &perps[j];
        proof {
            assert(perps@.take(j + 1).last() == perps@[j as int]);
            assert(perps@.take(j + 1).drop_last() =~= perps@.take(j as int));
        }
        let ghost step = perp_step(assets@, *item);
        match find_asset(assets, item.product_id) {
            None => {
                proof {
                    assert(step is Skip);
                }
            },
            Some(asset) => {
                match &asset.ticker_id {
                    None => {
                        proof {
                            assert(step is Skip);
                        }
                    },
                    Some(t) => {
                        match strip_suffix_str(t.as_str(), "-PERP_USDC") {
                            None => {
                                proof {
                                    assert(step is Skip);
                                }
                            },
                            Some(raw) => {
                                let tick = dec_from_x18(item.price_increment_x18);
                                let step_size = dec_from_x18(item.size_increment);
                                let min_size = dec_from_x18(item.min_size);
                                match (tick, step_size, min_size) {
                                    (Some(tick), Some(step_size), Some(min_size)) => {
                                        if tick.mantissa < 0 || step_size.mantissa < 0
                                            || min_size.mantissa < 0 {
                                            proof {
                                                assert(step is Skip);
                                            }
                                        } else {
                                            let base = copy_str(raw).concat("-USDC");
                                            let tp = TradableProduct {
                                                base,
                                                quote: String::from_str("USDC"),
                                            };
                                            let info = ExecutionInfo {
                                                execution_venue: String::from_str("VERTEX"),
                                                exchange_symbol: Some(
                                                    u32_to_string(item.product_id),
                                                ),
                                                tick_size: tick,
                                                step_size,
                                                min_order_quantity: min_size,
                                                min_order_quantity_unit:
                                                    MinOrderQuantityUnit::Base,
                                                is_delisted: false,
                                                initial_margin: None,
                                                maintenance_margin: None,
                                            };
                                            let entry = ExecutionInfoEntry {
                                                product: clone_tradable(&tp),
                                                venue: String::from_str("VERTEX"),
                                                info,
                                            };
                                            let ghost tpv0 = tp@;
                                            let ghost entryv = entry@;
                                            tradable_products = tradables_insert(
                                                tradable_products,
                                                item.product_id,
                                                tp,
                                            );
                                            execution_info = entries_insert(
                                                execution_info,
                                                entry,
                                            );
                                            proof {
                                                assert(step matches PerpStep::Full(tpv, infov)
                                                    && tpv == tpv0
                                                    && entryv =~= (ExecutionInfoEntryV {
                                                    product: tpv,
                                                    venue: "VERTEX"@,
                                                    info: infov,
                                                }));
                                                assert(step matches PerpStep::Full(tpv, infov)
                                                    && tradables_view(tradable_products@)
                                                    =~= alist_insert(
                                                    perp_fold(assets@, perps@.take(j as int)).0,
                                                    item.product_id,
                                                    tpv,
                                                ) && entries_view(execution_info@)
                                                    =~= remove_entry_key(
                                                    perp_fold(assets@, perps@.take(j as int)).1,
                                                    tpv.base,
                                                    "VERTEX"@,
                                                ).push(ExecutionInfoEntryV {
                                                    product: tpv,
                                                    venue: "VERTEX"@,
                                                    info: infov,
                                                }));
                                            }
                                        }
                                    },
                                    _ => {
                                        proof {
                                            assert(step is Skip);
                                        }
                                    },
                                }
                            },
                        }
                    },
                }
            },
        }
        proof {
            assert(tradables_view(tradable_products@) =~= perp_fold(
                assets@,
                perps@.take(j + 1),
            ).0);
            assert(entries_view(execution_info@) =~= perp_fold(assets@, perps@.take(j + 1)).1);
        }
        j = j + 1;
    }
    proof {
        assert(perps@.take(perps@.len() as int) =~= perps@);
    }
    let r = VertexSymbology { products, tradable_products, execution_info };
    proof {
        assert(r@ =~= load_spec(assets@, catalog.perp_products@));
    }
    r
}

} // verus!
