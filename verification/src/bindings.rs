//! The binding resolver: modifier-mask arithmetic, the lock-bit
//! normalization applied to incoming key events, the four grab variants
//! registered per binding, and first-match resolution of a key press
//! against the configured binding list.

use vstd::prelude::*;

use crate::cfg::{Action, Binding, BindingView, KeyCombo, SpecialKey, spec_keysym};
use crate::keymap::{KeyMap, spec_lookup};

verus! {

/// The shift modifier bit.
pub const MASK_SHIFT: u16 = 0x0001;

/// The caps-lock modifier bit, ignored when matching bindings.
pub const MASK_LOCK: u16 = 0x0002;

/// The control modifier bit.
pub const MASK_CONTROL: u16 = 0x0004;

/// The first extra modifier bit, conventionally the alt key.
pub const MASK_M1: u16 = 0x0008;

/// The second extra modifier bit, conventionally num-lock; ignored when
/// matching bindings.
pub const MASK_M2: u16 = 0x0010;

/// The fourth extra modifier bit, conventionally the super key.
pub const MASK_M4: u16 = 0x0040;

/// The two lock-like toggle bits cleared from a raw event mask before it is
/// compared with a binding's mask.
pub const IGNORED_MODS: u16 = 0x0012;

/// The modifier bit a special key contributes to a binding's mask; the
/// space pseudo-modifier contributes nothing.
pub open spec fn spec_mod_mask(k: SpecialKey) -> u16 {
    match k {
        SpecialKey::Shift => 0x0001,
        SpecialKey::Control => 0x0004,
        SpecialKey::Alt => 0x0008,
        SpecialKey::Super => 0x0040,
        SpecialKey::Space => 0,
    }
}

/// The modifier bit a special key contributes.
pub fn mod_to_mask(k: SpecialKey) -> (r: u16)
    ensures
        r == spec_mod_mask(k),
{
    match k {
        SpecialKey::Shift => MASK_SHIFT,
        SpecialKey::Control => MASK_CONTROL,
        SpecialKey::Alt => MASK_M1,
        SpecialKey::Super => MASK_M4,
        SpecialKey::Space => 0,
    }
}

/// The bitwise or of the masks of all modifiers in a combination.
pub open spec fn spec_combo_mask(prefixes: Seq<SpecialKey>) -> u16
    decreases prefixes.len(),
{
    if prefixes.len() == 0 {
        0
    } else {
        spec_combo_mask(prefixes.drop_last()) | spec_mod_mask(prefixes.last())
    }
}

/// The modifier mask a key combination requires: the or of its prefixes'
/// bits.
pub fn keycombo_mask(kc: &KeyCombo) -> (r: u16)
    ensures
        r == spec_combo_mask(kc@.prefixes),
{
    let mut mask: u16 = 0;
    let n = kc.prefixes.len();
    let mut i: usize = 0;
    while i < n
        invariant
            i <= n,
            n == kc.prefixes@.len(),
            mask == spec_combo_mask(kc.prefixes@.take(i as int)),
        decreases n - i,
    {
        proof {
            assert(kc.prefixes@.take(i + 1).drop_last() =~= kc.prefixes@.take(i as int));
            assert(kc.prefixes@.take(i + 1).last() == kc.prefixes@[i as int]);
        }
        mask = mask | mod_to_mask(kc.prefixes[i]);
        i += 1;
    }
    assert(kc.prefixes@.take(n as int) =~= kc.prefixes@);
    mask
}

/// A raw event mask with the two lock-like bits cleared.
pub open spec fn spec_normalized(state: u16) -> u16 {
    state & !0x0012u16
}

/// Clears the caps-lock and num-lock bits from a raw event mask, so that a
/// binding matches whatever the lock toggles are.
pub fn normalize_mask(state: u16) -> (r: u16)
    ensures
        r == spec_normalized(state),
{
    state & !IGNORED_MODS
}

/// The four masks a binding is registered under, so the server delivers the
/// press whatever the two lock toggles are: the bare mask and its
/// combinations with each lock bit.
pub fn grab_masks(mask: u16) -> (r: [u16; 4])
    ensures
        r@ == seq![mask, mask | 0x0002u16, mask | 0x0010u16, mask | 0x0012u16],
{
    let r = [mask, mask | MASK_LOCK, mask | MASK_M2, mask | MASK_LOCK | MASK_M2];
    proof {
        assert(mask | 0x0002u16 | 0x0010u16 == mask | 0x0012u16) by (bit_vector);
        assert(r@ =~= seq![mask, mask | 0x0002u16, mask | 0x0010u16, mask | 0x0012u16]);
    }
    r
}

/// Whether one binding matches a key press: its key's code equals the
/// event's code, and its modifier mask equals the normalized event mask
/// exactly.
pub open spec fn spec_bind_matches(
    b: BindingView,
    km: Map<u32, u8>,
    detail: u8,
    state: u16,
) -> bool {
    detail as u32 == spec_lookup(km, spec_keysym(b.combo.key)) && spec_normalized(state)
        == spec_combo_mask(b.combo.prefixes)
}

/// The first binding that matches the press, scanning in registration
/// order.
pub open spec fn spec_first_match(
    binds: Seq<BindingView>,
    km: Map<u32, u8>,
    detail: u8,
    state: u16,
) -> Option<int>
    decreases binds.len(),
{
    if binds.len() == 0 {
        None
    } else if spec_bind_matches(binds[0], km, detail, state) {
        Some(0)
    } else {
        match spec_first_match(binds.drop_first(), km, detail, state) {
            Some(i) => Some(i + 1),
            None => None,
        }
    }
}

/// Resolves a key press against the binding list: the action of the first
/// binding, in registration order, whose key code matches the event's and
/// whose modifier mask equals the event's mask with the lock bits cleared.
/// A press that matches nothing is dropped.
pub fn resolve_binding(binds: &Vec<Binding>, km: &KeyMap, detail: u8, state: u16) -> (r: Option<
    Action,
>)
    ensures
        ({
            let views = binds@.map_values(|b: Binding| b@);
            match spec_first_match(views, km@, detail, state) {
                Some(i) => r == Some(views[i].action),
                None => r is None,
            }
        }),
{
    let ghost views = binds@.map_values(|b: Binding| b@);
    let n = binds.len();
    proof {
        assert(views.skip(0) =~= views);
    }
    let mut i: usize = 0;
    while i < n
        invariant
            i <= n,
            n == binds@.len(),
            views == binds@.map_values(|b: Binding| b@),
            forall|k: int| 0 <= k < i ==> !spec_bind_matches(#[trigger] views[k], km@, detail, state),
            spec_first_match(views, km@, detail, state) == match spec_first_match(
                views.skip(i as int),
                km@,
                detail,
                state,
            ) {
                Some(j) => Some(j + i as int),
                None => None::<int>,
            },
        decreases n - i,
    {
        let b = &binds[i];
        let want_code = km.lookup(b.combo.key.into_x11rb());
        let want_mask = keycombo_mask(&b.combo);
        let actual = normalize_mask(state);
        proof {
            assert(views.skip(i as int).len() > 0);
            assert(views.skip(i as int)[0] == views[i as int]);
            assert(views.skip(i as int).drop_first() =~= views.skip(i + 1));
        }
        if detail as u32 == want_code && actual == want_mask {
            assert(spec_bind_matches(views[i as int], km@, detail, state));
            return Some(b.action);
        }
        assert(!spec_bind_matches(views[i as int], km@, detail, state));
        i += 1;
    }
    proof {
        assert(views.skip(n as int).len() == 0);
    }
    None
}

} // verus!
