//! The catalog of instruments, looked up by symbol.
use vstd::prelude::*;

use crate::instrument::{Instrument, InstrumentModel};

verus! {

/// The views of a sequence of instruments.
pub open spec fn instrument_views(v: Seq<Instrument>) -> Seq<InstrumentModel> {
    Seq::new(v.len(), |i: int| v[i]@)
}

/// The catalog that results from entering `instruments` in order, each
/// under its symbol, a later one replacing an earlier one of the same
/// symbol.
pub open spec fn catalog_of(instruments: Seq<InstrumentModel>) -> Map<Seq<char>, InstrumentModel>
    decreases instruments.len(),
{
    if instruments.len() == 0 {
        Map::empty()
    } else {
        catalog_of(instruments.drop_last()).insert(instruments.last().symbol, instruments.last())
    }
}

/// The symbols of `items`, in order.
pub open spec fn symbols(items: Seq<InstrumentModel>) -> Seq<Seq<char>> {
    Seq::new(items.len(), |i: int| items[i].symbol)
}

/// The map that `items`, whose symbols are distinct, stand for.
pub open spec fn map_of_distinct(items: Seq<InstrumentModel>) -> Map<Seq<char>, InstrumentModel> {
    Map::new(
        |k: Seq<char>| symbols(items).contains(k),
        |k: Seq<char>| items[symbols(items).index_of(k)],
    )
}

/// The catalog built from `instruments` holds a symbol exactly when some
/// instrument has it.
pub proof fn law_catalog_holds_listed_symbols(instruments: Seq<InstrumentModel>, symbol: Seq<char>)
    ensures
        catalog_of(instruments).contains_key(symbol) <==> symbols(instruments).contains(symbol),
    decreases instruments.len(),
{
    if instruments.len() > 0 {
        let pre = instruments.drop_last();
        law_catalog_holds_listed_symbols(pre, symbol);
        if symbols(pre).contains(symbol) {
            let i = choose|i: int| 0 <= i < symbols(pre).len() && symbols(pre)[i] == symbol;
            assert(symbols(instruments)[i] == symbol);
        }
        if symbols(instruments).contains(symbol) && symbol != instruments.last().symbol {
            let i = choose|i: int| 0 <= i < symbols(instruments).len() && symbols(instruments)[i] == symbol;
            assert(i < pre.len());
            assert(symbols(pre)[i] == symbol);
        }
        if symbol == instruments.last().symbol {
            assert(symbols(instruments)[instruments.len() - 1] == symbol);
        }
    }
}

/// Of several instruments with one symbol, the catalog keeps the last.
pub proof fn law_catalog_last_wins(instruments: Seq<InstrumentModel>, i: int)
    requires
        0 <= i < instruments.len(),
        forall|j: int| i < j < instruments.len() ==> instruments[j].symbol != instruments[i].symbol,
    ensures
        catalog_of(instruments).contains_key(instruments[i].symbol),
        catalog_of(instruments)[instruments[i].symbol] == instruments[i],
    decreases instruments.len(),
{
    if i < instruments.len() - 1 {
        let pre = instruments.drop_last();
        assert(pre[i] == instruments[i]);
        assert forall|j: int| i < j < pre.len() implies pre[j].symbol != pre[i].symbol by {
            assert(pre[j] == instruments[j]);
        }
        law_catalog_last_wins(pre, i);
        assert(instruments[instruments.len() - 1] == instruments.last());
    }
}

/// Instruments by symbol: at most one per symbol.
#[derive(Debug)]
pub struct InstrumentCatalog {
    instruments: Vec<Instrument>,
}

impl View for InstrumentCatalog {
    type V = Map<Seq<char>, InstrumentModel>;

    closed spec fn view(&self) -> Map<Seq<char>, InstrumentModel> {
        map_of_distinct(instrument_views(self.instruments@))
    }
}

proof fn lemma_map_of_distinct_len(items: Seq<InstrumentModel>)
    requires
        symbols(items).no_duplicates(),
    ensures
        map_of_distinct(items).dom() =~= symbols(items).to_set(),
        map_of_distinct(items).dom().finite(),
        map_of_distinct(items).dom().len() == items.len(),
{
    let m = map_of_distinct(items);
    assert forall|k: Seq<char>| m.dom().contains(k) <==> symbols(items).to_set().contains(k) by {}
    symbols(items).unique_seq_to_set();
}

/// The position of the entry with symbol `symbol` in `items`, if any.
fn position_in(items: &Vec<Instrument>, symbol: &String) -> (r: Option<usize>)
    requires
        symbols(instrument_views(items@)).no_duplicates(),
    ensures
        match r {
            Some(j) => j < items@.len() && items@[j as int]@.symbol == symbol@
                && symbols(instrument_views(items@)).index_of(symbol@) == j,
            None => !symbols(instrument_views(items@)).contains(symbol@),
        },
{
    let ghost syms = symbols(instrument_views(items@));
    for j in 0..items.len()
        invariant
            syms == symbols(instrument_views(items@)),
            syms.len() == items@.len(),
            syms.no_duplicates(),
            forall|i: int| 0 <= i < j ==> syms[i] != symbol@,
    {
        assert(syms[j as int] == items@[j as int]@.symbol);
        if items[j].symbol_string().eq(symbol) {
            assert(syms[j as int] == symbol@);
            assert(syms.contains(symbol@));
            proof {
                let k = syms.index_of(symbol@);
                assert(syms[k] == symbol@);
                assert(k == j);
            }
            return Some(j);
        }
    }
    None
}

impl InstrumentCatalog {
    /// No two entries share a symbol.
    #[verifier::type_invariant]
    spec fn distinct_symbols(&self) -> bool {
        symbols(instrument_views(self.instruments@)).no_duplicates()
    }

    /// A catalog of `instruments`, each under its symbol; of several with
    /// one symbol, the last is kept.
    pub fn new(instruments: Vec<Instrument>) -> (c: Self)
        ensures
            c@ == catalog_of(instrument_views(instruments@)),
    {
        let ghost input = instrument_views(instruments@);
        let mut items: Vec<Instrument> = Vec::new();
        assert(symbols(instrument_views(items@)) =~= Seq::<Seq<char>>::empty());
        assert(map_of_distinct(instrument_views(items@)) =~= catalog_of(input.take(0)));
        let n = instruments.len();
        let mut i: usize = 0;
        let rest = instruments;
        while i < n
            invariant
                i <= n,
                n == input.len(),
                rest@.len() == n,
                input == instrument_views(rest@),
                symbols(instrument_views(items@)).no_duplicates(),
                map_of_distinct(instrument_views(items@)) == catalog_of(input.take(i as int)),
            decreases n - i,
        {
            assert(input[i as int] == rest@[i as int]@);
            let inst = rest[i].clone();
            assert(input.take(i + 1).drop_last() =~= input.take(i as int));
            assert(input.take(i + 1).last() == inst@);
            let ghost before_items = instrument_views(items@);
            let ghost before = map_of_distinct(before_items);
            let ghost sym = inst@.symbol;
            match position_in(&items, inst.symbol_string()) {
                Some(j) => {
                    items.set(j, inst);
                    proof {
                        let after_items = instrument_views(items@);
                        let after = map_of_distinct(after_items);
                        assert(after_items =~= before_items.update(j as int, inst@));
                        assert(symbols(after_items) =~= symbols(before_items));
                        assert(symbols(before_items)[j as int] == sym);
                        assert(symbols(before_items).contains(sym));
                        assert forall|k: Seq<char>| after.dom().contains(k) == before.insert(sym, inst@).dom().contains(k) by {
                            if k == sym {
                                assert(symbols(after_items)[j as int] == sym);
                            }
                        }
                        assert forall|k: Seq<char>| #![auto] after.dom().contains(k) implies after[k] == before.insert(sym, inst@)[k] by {
                            let x = symbols(after_items).index_of(k);
                            if k == sym {
                                assert(x == j);
                            } else {
                                assert(x != j);
                            }
                        }
                        assert(after =~= before.insert(sym, inst@));
                    }
                },
                None => {
                    items.push(inst);
                    proof {
                        let after_items = instrument_views(items@);
                        let after = map_of_distinct(after_items);
                        assert(after_items =~= before_items.push(inst@));
                        assert(symbols(after_items) =~= symbols(before_items).push(sym));
                        assert(symbols(after_items).no_duplicates()) by {
                            assert forall|a: int, b: int|
                                0 <= a < symbols(after_items).len() && 0 <= b < symbols(after_items).len() && a != b
                                implies symbols(after_items)[a] != symbols(after_items)[b] by {
                                if a == before_items.len() {
                                    assert(symbols(after_items)[b] == symbols(before_items)[b]);
                                    assert(symbols(before_items)[b] != sym);
                                } else if b == before_items.len() {
                                    assert(symbols(after_items)[a] == symbols(before_items)[a]);
                                    assert(symbols(before_items)[a] != sym);
                                } else {
                                    assert(symbols(after_items)[a] == symbols(before_items)[a]);
                                    assert(symbols(after_items)[b] == symbols(before_items)[b]);
                                }
                            }
                        }
                        assert forall|k: Seq<char>| #![auto] after.dom().contains(k) == before.insert(sym, inst@).dom().contains(k) by {
                            if symbols(before_items).contains(k) {
                                let t = symbols(before_items).index_of(k);
                                assert(symbols(after_items)[t] == k);
                            }
                            if symbols(after_items).contains(k) && k != sym {
                                let t = symbols(after_items).index_of(k);
                                assert(t < before_items.len());
                                assert(symbols(before_items)[t] == k);
                            }
                            if k == sym {
                                assert(symbols(after_items)[before_items.len() as int] == sym);
                            }
                        }
                        assert forall|k: Seq<char>| #![auto] after.dom().contains(k) implies after[k] == before.insert(sym, inst@)[k] by {
                            let x = symbols(after_items).index_of(k);
                            if k == sym {
                                assert(symbols(after_items)[before_items.len() as int] == sym);
                                assert(x == before_items.len());
                            } else {
                                assert(x < before_items.len());
                                assert(symbols(before_items)[x] == k);
                                let y = symbols(before_items).index_of(k);
                                assert(symbols(after_items)[y] == k);
                                assert(x == y);
                            }
                        }
                        assert(after =~= before.insert(sym, inst@));
                    }
                },
            }
            i = i + 1;
        }
        assert(input.take(n as int) =~= input);
        InstrumentCatalog { instruments: items }
    }

    /// The instrument with symbol `symbol`, if the catalog holds one.
    pub fn get(&self, symbol: &str) -> (r: Option<&Instrument>)
        ensures
            match r {
                Some(i) => self@.contains_key(symbol@) && i@ == self@[symbol@],
                None => !self@.contains_key(symbol@),
            },
    {
        proof {
            use_type_invariant(self);
        }
        let key = symbol.to_owned();
        match position_in(&self.instruments, &key) {
            Some(j) => {
                proof {
                    let items = instrument_views(self.instruments@);
                    assert(items[j as int] == self.instruments@[j as int]@);
                    assert(symbols(items)[j as int] == symbol@);
                    assert(symbols(items).contains(symbol@));
                }
                Some(&self.instruments[j])
            },
            None => None,
        }
    }

    /// The number of instruments, one per symbol.
    pub fn len(&self) -> (r: usize)
        ensures
            r == self@.dom().len(),
    {
        proof {
            use_type_invariant(self);
            lemma_map_of_distinct_len(instrument_views(self.instruments@));
        }
        self.instruments.len()
    }

    pub fn is_empty(&self) -> (r: bool)
        ensures
            r == (self@.dom().len() == 0),
    {
        proof {
            use_type_invariant(self);
            lemma_map_of_distinct_len(instrument_views(self.instruments@));
        }
        self.instruments.len() == 0
    }
}

} // verus!
