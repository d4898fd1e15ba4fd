//! The keyboard mapping cache: a table from key symbols to device key codes,
//! rebuilt whenever the display server announces a mapping change. The raw
//! table arrives as a flat list of symbols, one fixed-width group per key
//! code starting at the device's minimum code; a symbol listed under several
//! codes resolves to the last one.

use vstd::hash_map::HashMapWithView;
use vstd::prelude::*;

verus! {

/// The table that results from reading `syms` in order: the symbol at flat
/// index `k` maps to code `min + k / per`, later entries overriding earlier
/// ones.
pub open spec fn spec_keymap_of(min: int, per: int, syms: Seq<u32>) -> Map<u32, u8>
    decreases syms.len(),
{
    if syms.len() == 0 {
        Map::empty()
    } else {
        spec_keymap_of(min, per, syms.drop_last()).insert(
            syms.last(),
            ((min + (syms.len() - 1) / per) as u8),
        )
    }
}

/// The code a symbol resolves to: its table entry, or code zero when the
/// symbol is unmapped.
pub open spec fn spec_lookup(m: Map<u32, u8>, sym: u32) -> u32 {
    if m.contains_key(sym) {
        m[sym] as u32
    } else {
        0
    }
}

/// The key-symbol to key-code cache.
pub struct KeyMap {
    table: HashMapWithView<u32, u8>,
}

impl View for KeyMap {
    type V = Map<u32, u8>;

    closed spec fn view(&self) -> Map<u32, u8> {
        self.table@
    }
}

impl KeyMap {
    /// An empty cache: every symbol is unmapped.
    pub fn new() -> (r: KeyMap)
        ensures
            r@ == Map::<u32, u8>::empty(),
    {
        broadcast use vstd::std_specs::hash::group_hash_axioms;

        KeyMap { table: HashMapWithView::new() }
    }

    /// The device code for `sym`, or zero when the cache has no entry.
    pub fn lookup(&self, sym: u32) -> (r: u32)
        ensures
            r == spec_lookup(self@, sym),
    {
        match self.table.get(&sym) {
            Some(code) => *code as u32,
            None => 0,
        }
    }

    /// Replaces the whole cache from a raw mapping table: `per` symbols per
    /// key code, codes counted up from `min`. The flat list must not name
    /// codes past the largest device code.
    pub fn rebuild(&mut self, min: u8, per: usize, syms: &Vec<u32>)
        requires
            0 < per,
            syms@.len() <= per * (256 - min as int),
        ensures
            final(self)@ == spec_keymap_of(min as int, per as int, syms@),
    {
        broadcast use vstd::std_specs::hash::group_hash_axioms;

        self.table.clear();
        let n = syms.len();
        let mut k: usize = 0;
        while k < n
            invariant
                0 < per,
                k <= n,
                n == syms@.len(),
                n <= per * (256 - min as int),
                self@ == spec_keymap_of(min as int, per as int, syms@.take(k as int)),
            decreases n - k,
        {
            proof {
                vstd::arithmetic::div_mod::lemma_multiply_divide_lt(
                    k as int,
                    per as int,
                    256 - min as int,
                );
                assert(syms@.take(k + 1).drop_last() =~= syms@.take(k as int));
                assert(syms@.take(k + 1).last() == syms@[k as int]);
            }
            let code = min + (k / per) as u8;
            self.table.insert(syms[k], code);
            k += 1;
        }
        assert(syms@.take(n as int) =~= syms@);
    }
}

} // verus!
