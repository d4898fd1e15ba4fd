//! The validated configuration model: settings, key combinations and the
//! ordered binding list that the window manager consumes, together with the
//! textual key-combination syntax (`"Alt-Shift-h"`).

use vstd::prelude::*;

verus! {

/// A modifier key that may prefix a binding.
#[derive(Debug, Clone, Copy, PartialEq, Eq, Structural)]
pub enum SpecialKey {
    Shift,
    Control,
    Alt,
    Super,
    Space,
}

impl Default for SpecialKey {
    fn default() -> (r: SpecialKey)
        ensures
            r == SpecialKey::Shift,
    {
        SpecialKey::Shift
    }
}

/// The base key of a binding.
#[derive(Debug, Clone, Copy, PartialEq, Eq, Structural)]
pub enum Key {
    Char(char),
    Space,
    Return,
    Tab,
    Escape,
}

impl Default for Key {
    fn default() -> (r: Key)
        ensures
            r == Key::Escape,
    {
        Key::Escape
    }
}

/// The action a binding invokes.
#[derive(Debug, Clone, Copy, PartialEq, Eq, Structural)]
pub enum Action {
    FocusLeft,
    FocusRight,
    MoveLeft,
    MoveRight,
    Launcher,
    Terminal,
    CloseWindow,
    NextWs,
    PrevWs,
    ReloadConfig,
}

impl Default for Action {
    fn default() -> (r: Action)
        ensures
            r == Action::FocusLeft,
    {
        Action::FocusLeft
    }
}

/// The abstract value of a key combination.
pub struct KeyComboView {
    pub prefixes: Seq<SpecialKey>,
    pub key: Key,
}

/// An ordered set of modifiers plus one base key.
#[derive(Debug, Clone)]
pub struct KeyCombo {
    pub prefixes: Vec<SpecialKey>,
    pub key: Key,
}

impl View for KeyCombo {
    type V = KeyComboView;

    open spec fn view(&self) -> KeyComboView {
        KeyComboView { prefixes: self.prefixes@, key: self.key }
    }
}

impl Default for KeyCombo {
    fn default() -> (r: KeyCombo)
        ensures
            r@.prefixes == Seq::<SpecialKey>::empty(),
            r@.key == Key::Escape,
    {
        KeyCombo { prefixes: Vec::new(), key: Key::Escape }
    }
}

/// The abstract value of one binding.
pub struct BindingView {
    pub combo: KeyComboView,
    pub action: Action,
}

/// One key binding: a combination and the action it triggers.
#[derive(Debug, Clone)]
pub struct Binding {
    pub combo: KeyCombo,
    pub action: Action,
}

impl View for Binding {
    type V = BindingView;

    open spec fn view(&self) -> BindingView {
        BindingView { combo: self.combo@, action: self.action }
    }
}

/// The abstract value of the settings record.
pub struct SettingsView {
    pub master_key: SpecialKey,
    pub gap: usize,
    pub terminal: Seq<char>,
    pub launcher: Seq<char>,
    pub border_width: usize,
    pub border_active_color: u32,
    pub border_inactive_color: u32,
}

/// The scalar settings: master modifier, gap, commands and border metrics.
#[derive(Debug, Clone)]
pub struct Settings {
    pub master_key: SpecialKey,
    pub gap: usize,
    pub terminal: String,
    pub launcher: String,
    pub border_width: usize,
    pub border_active_color: u32,
    pub border_inactive_color: u32,
}

impl View for Settings {
    type V = SettingsView;

    open spec fn view(&self) -> SettingsView {
        SettingsView {
            master_key: self.master_key,
            gap: self.gap,
            terminal: self.terminal@,
            launcher: self.launcher@,
            border_width: self.border_width,
            border_active_color: self.border_active_color,
            border_inactive_color: self.border_inactive_color,
        }
    }
}

impl Default for Settings {
    fn default() -> (r: Settings)
        ensures
            r@.master_key == SpecialKey::Shift,
            r@.gap == 0,
            r@.terminal == Seq::<char>::empty(),
            r@.launcher == Seq::<char>::empty(),
            r@.border_width == 0,
            r@.border_active_color == 0,
            r@.border_inactive_color == 0,
    {
        Settings {
            master_key: SpecialKey::Shift,
            gap: 0,
            terminal: String::new(),
            launcher: String::new(),
            border_width: 0,
            border_active_color: 0,
            border_inactive_color: 0,
        }
    }
}

/// The abstract value of a full configuration.
pub struct ConfigView {
    pub settings: SettingsView,
    pub binds: Seq<BindingView>,
}

/// A validated configuration: settings plus the ordered binding list.
#[derive(Debug, Clone)]
pub struct Config {
    pub settings: Settings,
    pub binds: Vec<Binding>,
}

impl View for Config {
    type V = ConfigView;

    open spec fn view(&self) -> ConfigView {
        ConfigView {
            settings: self.settings@,
            binds: self.binds@.map_values(|b: Binding| b@),
        }
    }
}

impl Default for Config {
    fn default() -> (r: Config)
        ensures
            r@.settings.master_key == SpecialKey::Shift,
            r@.settings.gap == 0,
            r@.settings.terminal == Seq::<char>::empty(),
            r@.settings.launcher == Seq::<char>::empty(),
            r@.settings.border_width == 0,
            r@.settings.border_active_color == 0,
            r@.settings.border_inactive_color == 0,
            r@.binds == Seq::<BindingView>::empty(),
    {
        Config { settings: Settings::default(), binds: Vec::new() }
    }
}

/// The escape keysym.
pub const XK_ESCAPE: u32 = 0xff1b;

/// The return keysym.
pub const XK_RETURN: u32 = 0xff0d;

/// The tab keysym.
pub const XK_TAB: u32 = 0xff09;

/// The backspace keysym.
pub const XK_BACKSPACE: u32 = 0xff08;

/// The space keysym.
pub const XK_SPACE: u32 = 0x0020;

/// The keysym a base key stands for: named keys use their protocol
/// constants, a character key its code point.
pub open spec fn spec_keysym(k: Key) -> u32 {
    match k {
        Key::Escape => 0xff1b,
        Key::Space => 0x20,
        Key::Return => 0xff0d,
        Key::Tab => 0xff09,
        Key::Char(c) => c as u32,
    }
}

impl Key {
    /// The keysym this key stands for.
    pub fn into_x11rb(self) -> (r: u32)
        ensures
            r == spec_keysym(self),
    {
        match self {
            Key::Escape => XK_ESCAPE,
            Key::Space => 0x20,
            Key::Return => XK_RETURN,
            Key::Tab => XK_TAB,
            Key::Char(c) => c as u32,
        }
    }
}

/// The modifier a name denotes: `Alt`, `Super`, `Shift` or `Control`.
pub open spec fn spec_mod_name(s: Seq<char>) -> Option<SpecialKey> {
    if s.len() == 3 && s[0] == 'A' && s[1] == 'l' && s[2] == 't' {
        Some(SpecialKey::Alt)
    } else if s.len() == 5 && s[0] == 'S' && s[1] == 'u' && s[2] == 'p' && s[3] == 'e' && s[4]
        == 'r' {
        Some(SpecialKey::Super)
    } else if s.len() == 5 && s[0] == 'S' && s[1] == 'h' && s[2] == 'i' && s[3] == 'f' && s[4]
        == 't' {
        Some(SpecialKey::Shift)
    } else if s.len() == 7 && s[0] == 'C' && s[1] == 'o' && s[2] == 'n' && s[3] == 't' && s[4]
        == 'r' && s[5] == 'o' && s[6] == 'l' {
        Some(SpecialKey::Control)
    } else {
        None
    }
}

/// Whether `c` is an ASCII decimal digit.
pub open spec fn spec_is_digit(c: char) -> bool {
    '0' <= c && c <= '9'
}

/// The value of a digit sequence read in base ten.
pub open spec fn spec_digits_val(s: Seq<char>) -> int
    decreases s.len(),
{
    if s.len() == 0 {
        0
    } else {
        spec_digits_val(s.drop_last()) * 10 + (s.last() as int - '0' as int)
    }
}

/// Whether every character of `s` is an ASCII decimal digit.
pub open spec fn spec_all_digits(s: Seq<char>) -> bool {
    forall|i: int| 0 <= i < s.len() ==> spec_is_digit(#[trigger] s[i])
}

/// Whether `s` is accepted by an unsigned 32-bit decimal parse: an optional
/// leading plus sign, then at least one digit, with a value in range.
pub open spec fn spec_parses_as_u32(s: Seq<char>) -> bool {
    let digits = if s.len() > 0 && s[0] == '+' {
        s.drop_first()
    } else {
        s
    };
    digits.len() > 0 && spec_all_digits(digits) && spec_digits_val(digits) <= u32::MAX
}

/// The base key a name denotes: a named key, any single character, or the
/// first character of a number.
pub open spec fn spec_key_name(s: Seq<char>) -> Option<Key> {
    if s.len() == 5 && s[0] == 'S' && s[1] == 'p' && s[2] == 'a' && s[3] == 'c' && s[4] == 'e' {
        Some(Key::Space)
    } else if s.len() == 6 && s[0] == 'R' && s[1] == 'e' && s[2] == 't' && s[3] == 'u' && s[4]
        == 'r' && s[5] == 'n' {
        Some(Key::Return)
    } else if s.len() == 3 && s[0] == 'T' && s[1] == 'a' && s[2] == 'b' {
        Some(Key::Tab)
    } else if s.len() == 6 && s[0] == 'E' && s[1] == 's' && s[2] == 'c' && s[3] == 'a' && s[4]
        == 'p' && s[5] == 'e' {
        Some(Key::Escape)
    } else if s.len() == 1 {
        Some(Key::Char(s[0]))
    } else if spec_parses_as_u32(s) {
        Some(Key::Char(s[0]))
    } else {
        None
    }
}

/// The index of the first dash in `s` at or after `from`, or the length.
pub open spec fn spec_dash_at(s: Seq<char>, from: int) -> int
    decreases s.len() - from,
{
    if from < 0 || from >= s.len() {
        s.len() as int
    } else if s[from] == '-' {
        from
    } else {
        spec_dash_at(s, from + 1)
    }
}

/// The first dash is never before the position the scan starts from.
pub proof fn lemma_dash_at_ge(s: Seq<char>, from: int)
    ensures
        spec_dash_at(s, from) == s.len() || spec_dash_at(s, from) >= from,
    decreases s.len() - from,
{
    if 0 <= from && from < s.len() {
        if s[from] != '-' {
            lemma_dash_at_ge(s, from + 1);
        }
    }
}

/// The parse of a key-combination text from position `from`: every
/// dash-separated part but the last must name a modifier, the last part a
/// base key.
pub open spec fn spec_parse_combo_from(s: Seq<char>, from: int) -> Option<KeyComboView>
    decreases s.len() - from,
    via spec_parse_combo_from_dec
{
    let d = spec_dash_at(s, from);
    if d >= s.len() {
        // No dash left: the remainder is the base key.
        match spec_key_name(s.subrange(from, s.len() as int)) {
            Some(k) => Some(KeyComboView { prefixes: Seq::empty(), key: k }),
            None => None,
        }
    } else {
        match spec_mod_name(s.subrange(from, d)) {
            Some(m) => match spec_parse_combo_from(s, d + 1) {
                Some(rest) => Some(
                    KeyComboView { prefixes: seq![m] + rest.prefixes, key: rest.key },
                ),
                None => None,
            },
            None => None,
        }
    }
}

#[via_fn]
proof fn spec_parse_combo_from_dec(s: Seq<char>, from: int) {
    lemma_dash_at_ge(s, from);
}

/// The parse of a whole key-combination text, such as `Alt-Shift-h`.
pub open spec fn spec_parse_combo(s: Seq<char>) -> Option<KeyComboView> {
    spec_parse_combo_from(s, 0)
}

/// A digit sequence never has a negative value.
pub proof fn lemma_digits_val_nonneg(s: Seq<char>)
    requires
        forall|i: int| 0 <= i < s.len() ==> spec_is_digit(#[trigger] s[i]),
    ensures
        spec_digits_val(s) >= 0,
    decreases s.len(),
{
    if s.len() > 0 {
        lemma_digits_val_nonneg(s.drop_last());
    }
}

/// Reads the characters of `s` into a vector, in order.
pub(crate) fn chars_of(s: &str) -> (r: Vec<char>)
    ensures
        r@ == s@,
{
    let n = s.unicode_len();
    let mut r: Vec<char> = Vec::new();
    let mut i: usize = 0;
    while i < n
        invariant
            i <= n,
            n == s@.len(),
            r@ == s@.take(i as int),
        decreases n - i,
    {
        r.push(s.get_char(i));
        proof {
            assert(s@.take(i as int).push(s@[i as int]) =~= s@.take(i + 1));
        }
        i += 1;
    }
    assert(s@.take(n as int) =~= s@);
    r
}

/// The modifier named by `chars[start..end]`, if any.
fn mod_name(chars: &Vec<char>, start: usize, end: usize) -> (r: Option<SpecialKey>)
    requires
        start <= end <= chars@.len(),
    ensures
        r == spec_mod_name(chars@.subrange(start as int, end as int)),
{
    let len = end - start;
    let ghost part = chars@.subrange(start as int, end as int);
    if len == 3 && chars[start] == 'A' && chars[start + 1] == 'l' && chars[start + 2] == 't' {
        Some(SpecialKey::Alt)
    } else if len == 5 && chars[start] == 'S' && chars[start + 1] == 'u' && chars[start + 2] == 'p'
        && chars[start + 3] == 'e' && chars[start + 4] == 'r' {
        Some(SpecialKey::Super)
    } else if len == 5 && chars[start] == 'S' && chars[start + 1] == 'h' && chars[start + 2] == 'i'
        && chars[start + 3] == 'f' && chars[start + 4] == 't' {
        Some(SpecialKey::Shift)
    } else if len == 7 && chars[start] == 'C' && chars[start + 1] == 'o' && chars[start + 2] == 'n'
        && chars[start + 3] == 't' && chars[start + 4] == 'r' && chars[start + 5] == 'o' && chars[
            start + 6
        ] == 'l' {
        Some(SpecialKey::Control)
    } else {
        assert(spec_mod_name(part) is None);
        None
    }
}

/// Whether `chars[start..end]` is accepted by an unsigned 32-bit decimal
/// parse.
fn parses_as_u32(chars: &Vec<char>, start: usize, end: usize) -> (r: bool)
    requires
        start <= end <= chars@.len(),
    ensures
        r == spec_parses_as_u32(chars@.subrange(start as int, end as int)),
{
    let ghost part = chars@.subrange(start as int, end as int);
    let d0 = if start < end && chars[start] == '+' {
        start + 1
    } else {
        start
    };
    let ghost digits = chars@.subrange(d0 as int, end as int);
    proof {
        if part.len() > 0 && part[0] == '+' {
            assert(part.drop_first() =~= digits);
        } else {
            assert(part =~= digits);
        }
    }
    if d0 == end {
        return false;
    }
    let mut val: u64 = 0;
    let mut big = false;
    let mut i: usize = d0;
    while i < end
        invariant
            start <= d0 <= i <= end <= chars@.len(),
            part == chars@.subrange(start as int, end as int),
            digits == chars@.subrange(d0 as int, end as int),
            d0 == start || (d0 == start + 1 && part.len() > 0 && part[0] == '+'),
            d0 == start ==> !(part.len() > 0 && part[0] == '+'),
            forall|k: int| d0 <= k < i ==> spec_is_digit(#[trigger] chars@[k]),
            !big ==> val == spec_digits_val(chars@.subrange(d0 as int, i as int)) && val
                <= u32::MAX,
            big ==> spec_digits_val(chars@.subrange(d0 as int, i as int)) > u32::MAX,
        decreases end - i,
    {
        let c = chars[i];
        if c < '0' || c > '9' {
            proof {
                let sd = if part.len() > 0 && part[0] == '+' {
                    part.drop_first()
                } else {
                    part
                };
                assert(sd =~= digits);
                assert(!spec_is_digit(sd[i - d0]));
                assert(!spec_all_digits(sd));
                assert(!spec_parses_as_u32(part));
            }
            return false;
        }
        proof {
            assert(chars@.subrange(d0 as int, i + 1).drop_last() =~= chars@.subrange(
                d0 as int,
                i as int,
            ));
            lemma_digits_val_nonneg(chars@.subrange(d0 as int, i as int));
        }
        let d = (c as u32) - ('0' as u32);
        if !big {
            val = val * 10 + d as u64;
            if val > u32::MAX as u64 {
                big = true;
            }
        }
        i += 1;
    }
    assert(chars@.subrange(d0 as int, end as int) =~= digits);
    !big
}

/// The base key named by `chars[start..end]`, if any.
fn key_name(chars: &Vec<char>, start: usize, end: usize) -> (r: Option<Key>)
    requires
        start <= end <= chars@.len(),
    ensures
        r == spec_key_name(chars@.subrange(start as int, end as int)),
{
    let len = end - start;
    let ghost part = chars@.subrange(start as int, end as int);
    if len == 5 && chars[start] == 'S' && chars[start + 1] == 'p' && chars[start + 2] == 'a'
        && chars[start + 3] == 'c' && chars[start + 4] == 'e' {
        Some(Key::Space)
    } else if len == 6 && chars[start] == 'R' && chars[start + 1] == 'e' && chars[start + 2] == 't'
        && chars[start + 3] == 'u' && chars[start + 4] == 'r' && chars[start + 5] == 'n' {
        Some(Key::Return)
    } else if len == 3 && chars[start] == 'T' && chars[start + 1] == 'a' && chars[start + 2]
        == 'b' {
        Some(Key::Tab)
    } else if len == 6 && chars[start] == 'E' && chars[start + 1] == 's' && chars[start + 2] == 'c'
        && chars[start + 3] == 'a' && chars[start + 4] == 'p' && chars[start + 5] == 'e' {
        Some(Key::Escape)
    } else if len == 1 {
        Some(Key::Char(chars[start]))
    } else if parses_as_u32(chars, start, end) {
        assert(part.len() != 1 && part.len() != 0);
        Some(Key::Char(chars[start]))
    } else {
        assert(spec_key_name(part) is None);
        None
    }
}

/// Parses a key-combination text such as `Alt-Shift-h` — dash-separated
/// modifier names followed by one base key, which may be a named key, a
/// single character, or a number (standing for its first digit) — or
/// reports that the text is not a combination.
pub fn try_parse_keycombo(s: &str) -> (r: Option<KeyCombo>)
    ensures
        match spec_parse_combo(s@) {
            Some(cv) => r matches Some(c) && c@.prefixes =~= cv.prefixes && c@.key == cv.key,
            None => r is None,
        },
{
    let chars = chars_of(s);
    let n = chars.len();
    let mut prefixes: Vec<SpecialKey> = Vec::new();
    let mut pos: usize = 0;
    while pos <= n
        invariant
            pos <= n,
            n == chars@.len(),
            chars@ == s@,
            spec_parse_combo(s@) == (match spec_parse_combo_from(s@, pos as int) {
                Some(rest) => Some(
                    KeyComboView { prefixes: prefixes@ + rest.prefixes, key: rest.key },
                ),
                None => None::<KeyComboView>,
            }),
        decreases n - pos,
    {
        // Find the next dash, or the end of the text.
        let mut d: usize = pos;
        while d < n && chars[d] != '-'
            invariant
                pos <= d <= n,
                n == chars@.len(),
                chars@ == s@,
                spec_dash_at(s@, pos as int) == spec_dash_at(s@, d as int),
            decreases n - d,
        {
            d += 1;
        }
        assert(spec_dash_at(s@, pos as int) == d as int);
        if d >= n {
            // The last part: the base key.
            let k = key_name(&chars, pos, n);
            match k {
                Some(key) => {
                    let combo = KeyCombo { prefixes, key };
                    proof {
                        assert(spec_parse_combo_from(s@, pos as int)->Some_0.prefixes
                            =~= Seq::<SpecialKey>::empty());
                        assert(combo@.prefixes =~= spec_parse_combo(s@)->Some_0.prefixes);
                    }
                    return Some(combo);
                },
                None => {
                    proof {
                        assert(spec_parse_combo_from(s@, pos as int) is None);
                    }
                    return None;
                },
            }
        } else {
            let m = mod_name(&chars, pos, d);
            match m {
                Some(modifier) => {
                    proof {
                        match spec_parse_combo_from(s@, d + 1) {
                            Some(rest) => {
                                assert(spec_parse_combo_from(s@, pos as int)->Some_0.prefixes
                                    =~= seq![modifier] + rest.prefixes);
                                assert(prefixes@ + (seq![modifier] + rest.prefixes)
                                    =~= prefixes@.push(modifier) + rest.prefixes);
                            },
                            None => {
                                assert(spec_parse_combo_from(s@, pos as int) is None);
                            },
                        }
                    }
                    prefixes.push(modifier);
                    pos = d + 1;
                },
                None => {
                    proof {
                        assert(spec_parse_combo_from(s@, pos as int) is None);
                    }
                    return None;
                },
            }
        }
    }
    proof {
        // The scan always returns from inside the loop: the position never
        // passes the end of the text.
        assert(false);
    }
    None
}

/// Parses a key-combination text that is known to be well formed.
pub fn parse_keycombo(s: &str) -> (r: Result<KeyCombo, ()>)
    requires
        spec_parse_combo(s@) is Some,
    ensures
        r is Ok,
        r->Ok_0@.prefixes =~= spec_parse_combo(s@)->Some_0.prefixes,
        r->Ok_0@.key == spec_parse_combo(s@)->Some_0.key,
{
    match try_parse_keycombo(s) {
        Some(c) => Ok(c),
        None => {
            proof {
                assert(false);
            }
            Err(())
        },
    }
}

/// Prefixes the configured master modifier to every binding's combination,
/// as the loader does after reading a configuration.
pub fn apply_master_key(conf: &mut Config)
    ensures
        final(conf)@.settings == old(conf)@.settings,
        final(conf)@.binds.len() == old(conf)@.binds.len(),
        forall|i: int|
            0 <= i < old(conf)@.binds.len() ==> {
                let pre = old(conf)@.binds[i];
                let post = #[trigger] final(conf)@.binds[i];
                post.action == pre.action && post.combo.key == pre.combo.key
                    && post.combo.prefixes =~= seq![old(conf)@.settings.master_key]
                    + pre.combo.prefixes
            },
{
    let m_key = conf.settings.master_key;
    let n = conf.binds.len();
    let mut i: usize = 0;
    while i < n
        invariant
            i <= n,
            n == conf.binds@.len(),
            conf.settings == old(conf).settings,
            m_key == old(conf)@.settings.master_key,
            forall|k: int|
                i <= k < n ==> #[trigger] conf.binds@[k]@ == old(conf)@.binds[k],
            forall|k: int|
                0 <= k < i ==> {
                    let pre = old(conf)@.binds[k];
                    let post = #[trigger] conf.binds@[k]@;
                    post.action == pre.action && post.combo.key == pre.combo.key
                        && post.combo.prefixes =~= seq![m_key] + pre.combo.prefixes
                },
        decreases n - i,
    {
        let ghost snapshot = conf.binds@;
        let ghost pre = conf.binds@[i as int]@;
        let b = conf.binds.remove(i);
        let mut prefixes = b.combo.prefixes;
        prefixes.insert(0, m_key);
        let nb = Binding { combo: KeyCombo { prefixes, key: b.combo.key }, action: b.action };
        conf.binds.insert(i, nb);
        proof {
            assert(conf.binds@ =~= snapshot.update(i as int, nb));
            assert(conf.binds@[i as int]@.combo.prefixes =~= seq![m_key] + pre.combo.prefixes);
        }
        i += 1;
    }
}

} // verus!
