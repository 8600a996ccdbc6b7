use umami::event::{Amplitude, ChannelId, Event, EventFlags, EventTime, EventType};
use umami::expr::alias::{AliasTable, ExprAlias};
use umami::expr::lexer::ExprError;
use umami::expr::{is_reserved_name, Expr};

fn neutron(time_ns: i64, channel: u32) -> Event {
    Event::new(EventType::Neutron).with_channel(channel).with_abs_time(EventTime(time_ns))
}

fn ev_with(f: impl FnOnce(&mut Event)) -> Event {
    let mut ev = neutron(0, 0);
    f(&mut ev);
    ev
}

fn eval(src: &str, ev: &Event) -> i64 {
    Expr::parse(src).unwrap().eval(ev)
}

fn alias(name: &str, expr: &str) -> ExprAlias {
    ExprAlias::new(name, expr, "")
}

#[test]
fn test_field_access() {
    let ev = ev_with(|e| {
        e.time = EventTime(100);
        e.rel_time = EventTime(50);
        e.raw = (0xDEAD_BEEF, 0x1234_5678);
        e.channel = ChannelId(42);
        e.ampl = Amplitude(7);
        e.histo.x = 1;
        e.histo.y = 2;
        e.histo.t = 3;
        e.histo.i = 4;
    });
    assert_eq!(eval("time", &ev), 100);
    assert_eq!(eval("rel_time", &ev), 50);
    assert_eq!(eval("raw_0", &ev), 0xDEAD_BEEFu32 as i64);
    assert_eq!(eval("raw_1", &ev), 0x1234_5678);
    assert_eq!(eval("channel", &ev), 42);
    assert_eq!(eval("ampl", &ev), 7);
    assert_eq!(eval("x", &ev), 1);
    assert_eq!(eval("y", &ev), 2);
    assert_eq!(eval("t", &ev), 3);
    assert_eq!(eval("i", &ev), 4);
}

#[test]
fn test_evtype_and_named_constants() {
    let neutron_ev = neutron(0, 0);
    assert_eq!(eval("evtype", &neutron_ev), 0x01);
    assert_eq!(eval("evtype == neutron", &neutron_ev), 1);
    assert_eq!(eval("evtype == monitor", &neutron_ev), 0);

    let tzero = Event::new(EventType::Tzero).with_abs_time(EventTime(0));
    assert_eq!(eval("evtype == tzero", &tzero), 1);

    let aux = Event::new(EventType::AuxSignal { num: 3 }).with_abs_time(EventTime(0));
    assert_eq!(eval("evtype == auxsignal", &aux), 1);
    assert_eq!(eval("auxnum", &aux), 3);
    assert_eq!(eval("auxnum", &neutron_ev), -1);

    let monitor = Event::new(EventType::Monitor { num: 2 }).with_abs_time(EventTime(0));
    assert_eq!(eval("evtype == monitor", &monitor), 1);
    assert_eq!(eval("monnum", &monitor), 2);
    assert_eq!(eval("monnum", &neutron_ev), -1);

    let edge_up = Event::new(EventType::Edge { up: true }).with_channel(0).with_abs_time(EventTime(0));
    assert_eq!(eval("evtype == edge", &edge_up), 1);
    assert_eq!(eval("gateup", &edge_up), 1);
    let gate_down = Event::new(EventType::Gate { up: false }).with_abs_time(EventTime(0));
    assert_eq!(eval("gateup", &gate_down), 0);
    assert_eq!(eval("gateup", &neutron_ev), -1);
}

#[test]
fn test_flags() {
    let mut ev = neutron(0, 0);
    assert_eq!(eval("flags", &ev), 0);
    ev.flags.set(EventFlags::HasRelTime);
    assert_eq!(eval("flags", &ev), 1);
    ev.flags.set(EventFlags::Fake);
    assert_eq!(eval("flags", &ev), 1 | 0x1000);
}

#[test]
fn test_bit_slice_unsigned_and_signed() {
    let enc = |v: i32| -> u32 { (v as u32) & 0xFFF };
    let word = (enc(-1) << 16) | enc(100);
    let ev = ev_with(|e| e.raw = (word, 0));
    assert_eq!(eval("raw_0[0..12]", &ev), 100);
    assert_eq!(eval("raw_0[0..12:signed]", &ev), 100);
    assert_eq!(eval("raw_0[16..28:signed]", &ev), -1);
    assert_eq!(eval("raw_0[16..28]", &ev), 0xFFF);
}

#[test]
fn test_arithmetic_and_precedence() {
    let ev = neutron(0, 0);
    assert_eq!(eval("1 + 2 * 3", &ev), 7);
    assert_eq!(eval("(1 + 2) * 3", &ev), 9);
    assert_eq!(eval("10 / 4", &ev), 2);
    assert_eq!(eval("-5 + 3", &ev), -2);
    assert_eq!(eval("1 << 4", &ev), 16);
    assert_eq!(eval("0xFF & 0x0F", &ev), 0x0F);
}

#[test]
fn test_number_literal_formats() {
    let ev = neutron(0, 0);
    assert_eq!(eval("42", &ev), 42);
    assert_eq!(eval("0x2A", &ev), 42);
    assert_eq!(eval("0b101010", &ev), 42);
}

#[test]
fn test_logical_operators() {
    let n = neutron(0, 0);
    assert_eq!(eval("evtype == neutron && 1 < 2", &n), 1);
    assert_eq!(eval("evtype == neutron && 1 > 2", &n), 0);
    assert_eq!(eval("evtype == monitor || evtype == neutron", &n), 1);
    assert_eq!(eval("!(evtype == neutron)", &n), 0);
    assert_eq!(eval("!(evtype == monitor)", &n), 1);
}

#[test]
fn test_parse_errors() {
    assert!(Expr::parse("bogus_field").is_err());
    assert!(Expr::parse("raw_0[0..40]").is_err());
    assert!(Expr::parse("raw_0[5..2]").is_err());
    assert!(Expr::parse("(1 + 2").is_err());
    assert!(Expr::parse("1 +").is_err());
    assert!(Expr::parse("1 2").is_err());
}

#[test]
fn test_parse_error_kinds() {
    assert_eq!(Expr::parse("bogus_field").unwrap_err(), ExprError::UnknownIdentifier);
    assert_eq!(Expr::parse("raw_0[0..40]").unwrap_err(), ExprError::InvalidBitSlice);
    assert_eq!(Expr::parse("raw_0[5..2]").unwrap_err(), ExprError::InvalidBitSlice);
    assert_eq!(Expr::parse("(1 + 2").unwrap_err(), ExprError::ExpectedOperator);
    assert_eq!(Expr::parse("1 +").unwrap_err(), ExprError::ExpectedValue);
    assert_eq!(Expr::parse("1 2").unwrap_err(), ExprError::TrailingInput);
    assert_eq!(Expr::parse("1 = 2").unwrap_err(), ExprError::UnexpectedCharacter);
    assert_eq!(Expr::parse("0x").unwrap_err(), ExprError::InvalidLiteral);
    assert_eq!(Expr::parse("99999999999999999999").unwrap_err(), ExprError::InvalidLiteral);
    assert_eq!(Expr::parse("raw_0[x..2]").unwrap_err(), ExprError::ExpectedInteger);
    assert_eq!(Expr::parse("raw_0[0..2:unsigned]").unwrap_err(), ExprError::ExpectedSigned);
    assert_eq!(Expr::parse("raw_0[0 2]").unwrap_err(), ExprError::ExpectedOperator);
}

#[test]
fn test_division_by_zero_is_zero_and_try_eval() {
    let ev = neutron(i64::MIN, 0);
    assert_eq!(eval("7 / 0", &ev), 0);
    let e = Expr::parse("-time").unwrap();
    assert_eq!(e.try_eval(&ev), None);
    let e = Expr::parse("0 && -time").unwrap();
    assert_eq!(e.try_eval(&ev), Some(0));
    assert_eq!(Expr::parse("time + 1").unwrap().try_eval(&neutron(5, 0)), Some(6));
}

#[test]
fn test_alias_expansion() {
    let enc = |v: i32| -> u32 { (v as u32) & 0xFFF };
    let word = (enc(-1) << 16) | enc(100);
    let ev = ev_with(|e| e.raw = (word, 0));
    let mut aliases = AliasTable::new();
    aliases.insert("adc0".into(), alias("adc0", "raw_0[0..12:signed]"));
    aliases.insert("adc1".into(), alias("adc1", "raw_0[16..28:signed]"));
    assert_eq!(Expr::parse_with_aliases("adc0", &aliases).unwrap().eval(&ev), 100);
    assert_eq!(Expr::parse_with_aliases("adc1", &aliases).unwrap().eval(&ev), -1);
    assert_eq!(Expr::parse_with_aliases("adc0 + 1", &aliases).unwrap().eval(&ev), 101);
}

#[test]
fn test_alias_referencing_alias() {
    let mut ev = neutron(0, 0);
    ev.channel = ChannelId(20);
    let mut aliases = AliasTable::new();
    aliases.insert("half".into(), alias("half", "channel / 2"));
    aliases.insert("quarter".into(), alias("quarter", "half / 2"));
    assert_eq!(Expr::parse_with_aliases("quarter", &aliases).unwrap().eval(&ev), 5);
}

#[test]
fn test_alias_cycle_is_rejected() {
    let mut aliases = AliasTable::new();
    aliases.insert("a".into(), alias("a", "b"));
    aliases.insert("b".into(), alias("b", "a"));
    assert!(Expr::parse_with_aliases("a", &aliases).is_err());
    assert_eq!(Expr::parse_with_aliases("a", &aliases).unwrap_err(), ExprError::AliasTooDeep);
}

#[test]
fn test_unknown_identifier_with_empty_alias_table_is_still_an_error() {
    assert!(Expr::parse_with_aliases("bogus", &AliasTable::new()).is_err());
}

#[test]
fn test_is_reserved_name() {
    for name in ["time", "raw_0", "x", "evtype", "neutron", "gateup"] {
        assert!(is_reserved_name(name), "{name:?} should be reserved");
    }
    for name in ["adc0", "half", "my_alias"] {
        assert!(!is_reserved_name(name), "{name:?} should not be reserved");
    }
}

#[test]
fn test_alias_table_insert_replaces_and_get() {
    let mut aliases = AliasTable::new();
    assert!(aliases.insert("a".into(), alias("a", "1")).is_none());
    let old = aliases.insert("a".into(), alias("a", "2")).unwrap();
    assert_eq!(old.expr, "1");
    assert_eq!(aliases.len(), 1);
    assert_eq!(aliases.get("a").unwrap().expr, "2");
    assert!(aliases.get("b").is_none());
}

#[test]
fn whitespace_class_matches_std() {
    for c in (0u32..0x1_0000).filter_map(char::from_u32) {
        assert_eq!(umami::text::is_whitespace(c), c.is_whitespace(), "{c:?}");
    }
}
