//! Tests of the configuration text language and the key-combination
//! syntax.

use nwm::bindings::{grab_masks, keycombo_mask, normalize_mask};
use nwm::cfg::{apply_master_key, parse_keycombo, try_parse_keycombo};
use nwm::config::{
    Action, Config, Key, Lexer, Parser, SpecialKey, Statement, Token, Value, Variable,
};
use nwm::xkeys::{Key as XKey, MaskKey};

#[test]
fn lexer_scans_keywords_numbers_and_words() {
    let tokens = Lexer::new(String::from("Set Gap 8\n")).run();
    assert_eq!(tokens, vec![Token::SetKw, Token::Gap, Token::Number(8)]);
    let tokens = Lexer::new(String::from("Do FocusLeft on Alt-h\n")).run();
    assert_eq!(
        tokens,
        vec![Token::Do, Token::FocusLeft, Token::On, Token::Alt, Token::Hyphen, Token::Char('h')]
    );
    let tokens = Lexer::new(String::from("Set Terminal alacritty\n")).run();
    assert_eq!(
        tokens,
        vec![Token::SetKw, Token::Terminal, Token::Word(String::from("alacritty"))]
    );
}

#[test]
fn lexer_skips_comments() {
    let tokens = Lexer::new(String::from("* a comment line\nSet Gap 1\n")).run();
    assert_eq!(tokens, vec![Token::SetKw, Token::Gap, Token::Number(1)]);
}

#[test]
fn parser_reads_do_and_set() {
    let conf = Config::parse(String::from("Set Gap 8\nDo FocusLeft on Alt-Shift-h\n")).unwrap();
    assert_eq!(conf.0.len(), 2);
    match &conf.0[0] {
        Statement::SetVar { var, value } => {
            assert_eq!(*var, Variable::Gap);
            assert!(matches!(value, Value::Num(8)));
        },
        _ => panic!("expected a Set statement"),
    }
    match &conf.0[1] {
        Statement::Do { action, on } => {
            assert_eq!(*action, Action::FocusLeft);
            assert_eq!(on.prefixes, vec![SpecialKey::Alt, SpecialKey::Shift]);
            assert_eq!(on.key, Key::Char('h'));
        },
        _ => panic!("expected a Do statement"),
    }
}

#[test]
fn parser_reads_named_and_numeric_keys() {
    let conf = Config::parse(String::from("Do Terminal on Alt-Return\nDo NextWs on Alt-2\n"))
        .unwrap();
    match &conf.0[0] {
        Statement::Do { on, .. } => assert_eq!(on.key, Key::Return),
        _ => panic!("expected a Do statement"),
    }
    match &conf.0[1] {
        Statement::Do { on, .. } => assert_eq!(on.key, Key::Char('2')),
        _ => panic!("expected a Do statement"),
    }
    // A multi-digit number stands for its first digit.
    let conf = Config::parse(String::from("Do PrevWs on Alt-12\n")).unwrap();
    match &conf.0[0] {
        Statement::Do { on, .. } => assert_eq!(on.key, Key::Char('1')),
        _ => panic!("expected a Do statement"),
    }
}

#[test]
fn parser_rejects_malformed_statements() {
    // `Do` without an action name.
    assert!(Config::parse(String::from("Do on Alt-h\n")).is_none());
    // A modifier without its hyphen.
    assert!(Config::parse(String::from("Do Terminal on Alt Return\n")).is_none());
    // A stray token at statement level.
    assert!(Config::parse(String::from("Gap 8\n")).is_none());
}

#[test]
fn parser_reads_master_key_setting() {
    let conf = Config::parse(String::from("Set MasterKey Super\n")).unwrap();
    match &conf.0[0] {
        Statement::SetVar { var, value } => {
            assert_eq!(*var, Variable::MasterKey);
            assert!(matches!(value, Value::Key(SpecialKey::Super)));
        },
        _ => panic!("expected a Set statement"),
    }
}

#[test]
fn default_config_matches_stock_bindings() {
    let conf = Config::default();
    assert_eq!(conf.0.len(), 13);
    match &conf.0[1] {
        Statement::SetVar { var, value } => {
            assert_eq!(*var, Variable::Gap);
            assert!(matches!(value, Value::Num(8)));
        },
        _ => panic!("expected a Set statement"),
    }
    match &conf.0[2] {
        Statement::SetVar { var: Variable::Terminal, value: Value::String(s) } => {
            assert_eq!(s, "alacritty");
        },
        _ => panic!("expected the terminal setting"),
    }
    match &conf.0[12] {
        Statement::Do { action, on } => {
            assert_eq!(*action, Action::PrevWs);
            assert_eq!(on.key, Key::Char('1'));
        },
        _ => panic!("expected the last stock binding"),
    }
}

#[test]
fn parser_primitives_step_through_tokens() {
    let mut p = Parser::new(vec![Token::Do, Token::Hyphen]);
    assert!(!p.done());
    assert!(matches!(p.peek(0), Some(Token::Do)));
    assert!(matches!(p.peek(1), Some(Token::Hyphen)));
    assert!(p.peek(2).is_none());
    assert_eq!(p.eat(), Some(Token::Do));
    assert_eq!(p.eat(), Some(Token::Hyphen));
    assert!(p.done());
    assert_eq!(p.eat(), None);
}

#[test]
fn keycombo_text_round_trip() {
    let combo = parse_keycombo("Alt-Shift-h").unwrap();
    assert_eq!(combo.prefixes, vec![nwm::cfg::SpecialKey::Alt, nwm::cfg::SpecialKey::Shift]);
    assert_eq!(combo.key, nwm::cfg::Key::Char('h'));
    let combo = parse_keycombo("Space").unwrap();
    assert!(combo.prefixes.is_empty());
    assert_eq!(combo.key, nwm::cfg::Key::Space);
    let combo = parse_keycombo("Control-Return").unwrap();
    assert_eq!(combo.prefixes, vec![nwm::cfg::SpecialKey::Control]);
    assert_eq!(combo.key, nwm::cfg::Key::Return);
    // A number names its first character.
    let combo = parse_keycombo("Super-12").unwrap();
    assert_eq!(combo.prefixes, vec![nwm::cfg::SpecialKey::Super]);
    assert_eq!(combo.key, nwm::cfg::Key::Char('1'));
}

#[test]
fn malformed_keycombo_text_is_rejected() {
    assert!(try_parse_keycombo("").is_none());
    assert!(try_parse_keycombo("Alt-").is_none());
    assert!(try_parse_keycombo("Alt--h").is_none());
    assert!(try_parse_keycombo("NotAMod-h").is_none());
    assert!(try_parse_keycombo("Alt-hh").is_none());
    assert!(try_parse_keycombo("-h").is_none());
    assert_eq!(
        try_parse_keycombo("Alt-h").map(|c| c.key),
        Some(nwm::cfg::Key::Char('h'))
    );
}

#[test]
fn master_key_is_prefixed_to_every_binding() {
    let mut conf = nwm::cfg::Config {
        settings: nwm::cfg::Settings {
            master_key: nwm::cfg::SpecialKey::Super,
            gap: 0,
            terminal: String::new(),
            launcher: String::new(),
            border_width: 0,
            border_active_color: 0,
            border_inactive_color: 0,
        },
        binds: vec![nwm::cfg::Binding {
            combo: nwm::cfg::KeyCombo {
                prefixes: vec![nwm::cfg::SpecialKey::Shift],
                key: nwm::cfg::Key::Char('h'),
            },
            action: nwm::cfg::Action::MoveLeft,
        }],
    };
    apply_master_key(&mut conf);
    assert_eq!(
        conf.binds[0].combo.prefixes,
        vec![nwm::cfg::SpecialKey::Super, nwm::cfg::SpecialKey::Shift]
    );
}

#[test]
fn modifier_masks_combine_by_or() {
    let combo = nwm::cfg::KeyCombo {
        prefixes: vec![nwm::cfg::SpecialKey::Alt, nwm::cfg::SpecialKey::Shift],
        key: nwm::cfg::Key::Char('h'),
    };
    assert_eq!(keycombo_mask(&combo), 0x8 | 0x1);
    let space_only = nwm::cfg::KeyCombo { prefixes: vec![nwm::cfg::SpecialKey::Space], key: nwm::cfg::Key::Space };
    assert_eq!(keycombo_mask(&space_only), 0);
}

#[test]
fn lock_bits_are_cleared_from_event_masks() {
    assert_eq!(normalize_mask(0x8 | 0x2 | 0x10), 0x8);
    assert_eq!(normalize_mask(0x12), 0);
    assert_eq!(normalize_mask(0x5), 0x5);
}

#[test]
fn grab_masks_cover_all_lock_variants() {
    assert_eq!(grab_masks(0x8), [0x8, 0xa, 0x18, 0x1a]);
}

#[test]
fn config_writes_back_as_text() {
    let conf = Config::parse(String::from("Set Gap 8\nDo FocusLeft on Alt-Shift-h\n")).unwrap();
    // The first modifier prefix is treated as the master key and not
    // written back.
    assert_eq!(conf.to_text(), "Set Gap 8\nDo FocusLeft on Shift-h\n");
    let conf = Config::parse(String::from("Set MasterKey Super\nSet Terminal foot\n")).unwrap();
    assert_eq!(conf.to_text(), "Set MasterKey Super\nSet Terminal foot\n");
    let head: String = Config::default().to_text().chars().take(18).collect();
    assert_eq!(head, "Set MasterKey Alt\n");
    let conf = Config::parse(String::from("Set Gap 123\nDo Terminal on Alt-Return\n")).unwrap();
    assert_eq!(conf.to_text(), "Set Gap 123\nDo Terminal on Return\n");
}

#[test]
fn keysyms_of_named_keys() {
    assert_eq!(nwm::cfg::Key::Return.into_x11rb(), 0xff0d);
    assert_eq!(nwm::cfg::Key::Escape.into_x11rb(), 0xff1b);
    assert_eq!(nwm::cfg::Key::Tab.into_x11rb(), 0xff09);
    assert_eq!(nwm::cfg::Key::Space.into_x11rb(), 0x20);
    assert_eq!(nwm::cfg::Key::Char('a').into_x11rb(), 'a' as u32);
    assert_eq!(XKey::Return.to_x11_keysym(), 0xff0d);
    assert_eq!(XKey::W.to_x11_keysym(), 'w' as u32);
    assert_eq!(MaskKey::Alt.to_x11_mask(), 0x8);
    assert_eq!(MaskKey::Super.to_x11_mask(), 0x40);
}
