use able_script::ast::{Span, Stmt, StmtKind};
use able_script::consts::ANSWER;
use able_script::error::ErrorKind;
use able_script::variables::{Abool, Functio, Storage, Value, Variable};

#[test]
fn nul_is_truthy() {
    for _ in 0..50 {
        assert!(Value::Nul.into_bool());
    }
}

#[test]
fn never_is_false_and_always_is_true() {
    for _ in 0..50 {
        assert!(!Value::Abool(Abool::Never).into_bool());
        assert!(Value::Abool(Abool::Always).into_bool());
        assert!(!bool::from(Abool::Never));
        assert!(bool::from(Abool::Always));
    }
}

#[test]
fn sometimes_gives_both_answers() {
    let mut seen_true = false;
    let mut seen_false = false;
    for _ in 0..2000 {
        if Value::Abool(Abool::Sometimes).into_bool() {
            seen_true = true;
        } else {
            seen_false = true;
        }
    }
    assert!(seen_true);
    assert!(seen_false);
}

#[test]
fn sometimes_follows_the_coin() {
    assert!(Value::Abool(Abool::Sometimes).into_bool_with(true));
    assert!(!Value::Abool(Abool::Sometimes).into_bool_with(false));
    assert!(Abool::Sometimes.resolve(true));
    assert!(!Abool::Sometimes.resolve(false));
    assert!(!Abool::Never.resolve(true));
    assert!(Abool::Always.resolve(false));
}

#[test]
fn other_values_have_one_truth() {
    assert!(Value::Bool(true).into_bool());
    assert!(!Value::Bool(false).into_bool());
    assert!(Value::Int(-3).into_bool());
    assert!(!Value::Int(0).into_bool());
    assert!(Value::Str("x".to_string()).into_bool());
    assert!(!Value::Str(String::new()).into_bool());
    assert!(Value::Functio(Functio::BfFunctio { instructions: vec![], tape_len: 0 }).into_bool());
    assert!(Value::Functio(Functio::AbleFunctio { params: vec![], body: vec![] }).into_bool());
}

#[test]
fn text_that_is_a_number_becomes_that_number() {
    assert_eq!(Value::Str("42".to_string()).into_i32(), 42);
    assert_eq!(Value::Str("7".to_string()).into_i32(), 7);
    assert_eq!(Value::Str("-7".to_string()).into_i32(), -7);
    assert_eq!(Value::Str("+5".to_string()).into_i32(), 5);
    assert_eq!(Value::Str("007".to_string()).into_i32(), 7);
    assert_eq!(Value::Str("2147483647".to_string()).into_i32(), i32::MAX);
    assert_eq!(Value::Str("-2147483648".to_string()).into_i32(), i32::MIN);
}

#[test]
fn text_that_is_no_number_becomes_the_answer() {
    assert_eq!(ANSWER, 42);
    assert_eq!(Value::Nul.into_i32(), ANSWER);
    assert_eq!(Value::Str("not a number".to_string()).into_i32(), Value::Nul.into_i32());
    assert_eq!(Value::Str(String::new()).into_i32(), ANSWER);
    assert_eq!(Value::Str("-".to_string()).into_i32(), ANSWER);
    assert_eq!(Value::Str("+".to_string()).into_i32(), ANSWER);
    assert_eq!(Value::Str(" 7".to_string()).into_i32(), ANSWER);
    assert_eq!(Value::Str("7 ".to_string()).into_i32(), ANSWER);
    assert_eq!(Value::Str("1_000".to_string()).into_i32(), ANSWER);
    assert_eq!(Value::Str("2147483648".to_string()).into_i32(), ANSWER);
    assert_eq!(Value::Str("-2147483649".to_string()).into_i32(), ANSWER);
    assert_eq!(Value::Str("١٢".to_string()).into_i32(), ANSWER);
}

#[test]
fn booleans_and_integers_as_integers() {
    assert_eq!(Value::Abool(Abool::Never).into_i32(), -1);
    assert_eq!(Value::Abool(Abool::Sometimes).into_i32(), 0);
    assert_eq!(Value::Abool(Abool::Always).into_i32(), 1);
    assert_eq!(Value::Bool(false).into_i32(), 0);
    assert_eq!(Value::Bool(true).into_i32(), 1);
    assert_eq!(Value::Int(-12345).into_i32(), -12345);
    assert_eq!(Value::Int(7).to_i32(), 7);
}

#[test]
fn callables_as_integers() {
    let tape = Value::Functio(Functio::BfFunctio {
        instructions: vec![b'+', b'-', b'.'],
        tape_len: 30,
    });
    assert_eq!(tape.into_i32(), 33);
    let body = vec![
        Stmt::new(StmtKind::Break, Span::new(0, 6)),
        Stmt::new(StmtKind::HopBack, Span::new(7, 15)),
    ];
    let native = Value::Functio(Functio::AbleFunctio {
        params: vec!["a".to_string(), "b".to_string(), "c".to_string()],
        body,
    });
    assert_eq!(native.into_i32(), 5);
}

#[test]
fn large_tapes_wrap_around() {
    let tape = Value::Functio(Functio::BfFunctio { instructions: vec![0], tape_len: 0x7fff_ffff });
    assert_eq!(tape.into_i32(), i32::MIN);
    let tape =
        Value::Functio(Functio::BfFunctio { instructions: vec![0, 0], tape_len: 0xffff_ffff });
    assert_eq!(tape.into_i32(), 1);
    let tape = Value::Functio(Functio::BfFunctio { instructions: vec![0], tape_len: usize::MAX });
    assert_eq!(tape.into_i32(), 0);
}

#[test]
fn the_low_byte_goes_to_the_tape() {
    let mut stream = vec![9u8];
    Value::Int(65).bf_write(&mut stream);
    Value::Int(300).bf_write(&mut stream);
    Value::Int(-1).bf_write(&mut stream);
    Value::Int(i32::MIN).bf_write(&mut stream);
    Value::Nul.bf_write(&mut stream);
    Value::Str("258".to_string()).bf_write(&mut stream);
    assert_eq!(stream, vec![9, 65, 44, 255, 0, 42, 2]);
}

#[test]
fn plain_values_as_text() {
    assert_eq!(Value::Nul.to_text(), Ok("nul".to_string()));
    assert_eq!(Value::Str("hello".to_string()).to_text(), Ok("hello".to_string()));
    assert_eq!(Value::Int(0).to_text(), Ok("0".to_string()));
    assert_eq!(Value::Int(-17).to_text(), Ok("-17".to_string()));
    assert_eq!(Value::Int(i32::MIN).to_text(), Ok("-2147483648".to_string()));
    assert_eq!(Value::Bool(true).to_text(), Ok("true".to_string()));
    assert_eq!(Value::Bool(false).to_text(), Ok("false".to_string()));
    assert_eq!(Value::Abool(Abool::Never).to_text(), Ok("never".to_string()));
    assert_eq!(Value::Abool(Abool::Sometimes).to_text(), Ok("sometimes".to_string()));
    assert_eq!(Value::Abool(Abool::Always).to_text(), Ok("always".to_string()));
    assert_eq!(Abool::Sometimes.to_text(), "sometimes");
}

#[test]
fn tape_programs_as_text() {
    let tape = Value::Functio(Functio::BfFunctio {
        instructions: b"+[-].".to_vec(),
        tape_len: 30000,
    });
    assert_eq!(tape.to_text(), Ok("(30000) +[-].".to_string()));
    let tape = Value::Functio(Functio::BfFunctio {
        instructions: "né".as_bytes().to_vec(),
        tape_len: 1,
    });
    assert_eq!(tape.to_text(), Ok("(1) né".to_string()));
}

#[test]
fn tape_programs_that_are_not_text_cannot_be_shown() {
    let tape = Value::Functio(Functio::BfFunctio { instructions: vec![0xff, 0xfe], tape_len: 4 });
    assert_eq!(tape.to_text(), Err(ErrorKind::InvalidUtf8));
    let tape = Value::Functio(Functio::BfFunctio { instructions: vec![b'a', 0xc3], tape_len: 4 });
    assert_eq!(tape.to_text(), Err(ErrorKind::InvalidUtf8));
}

#[test]
fn native_functions_as_text() {
    let native = Value::Functio(Functio::AbleFunctio { params: vec![], body: vec![] });
    assert_eq!(native.to_text(), Ok("() -> []".to_string()));
    let native = Value::Functio(Functio::AbleFunctio {
        params: vec!["a".to_string()],
        body: vec![],
    });
    assert_eq!(native.to_text(), Ok("(a) -> []".to_string()));
    let native = Value::Functio(Functio::AbleFunctio {
        params: vec!["a".to_string(), "b".to_string(), "c".to_string()],
        body: vec![Stmt::new(StmtKind::Break, Span::new(0, 6))],
    });
    assert_eq!(
        native.to_text(),
        Ok("(a, b, c) -> [Stmt { kind: Break, span: Span { start: 0, end: 6 } }]".to_string())
    );
}

#[test]
fn a_write_through_one_binding_is_read_through_its_alias() {
    let mut storage = Storage::new();
    let first = Variable::new(&mut storage, Value::Int(1));
    let other = Variable::new(&mut storage, Value::Str("untouched".to_string()));
    let second = first.alias();
    assert_eq!(storage.len(), 2);
    assert_eq!(first.get(&storage), &Value::Int(1));
    assert_eq!(second.get(&storage), &Value::Int(1));
    second.set(&mut storage, Value::Int(2));
    assert_eq!(first.get(&storage), &Value::Int(2));
    assert_eq!(second.get(&storage), &Value::Int(2));
    assert_eq!(other.get(&storage), &Value::Str("untouched".to_string()));
    first.set(&mut storage, Value::Nul);
    assert_eq!(second.get(&storage), &Value::Nul);
}

#[test]
fn a_curse_stays_with_its_binding() {
    let mut storage = Storage::new();
    let mut first = Variable::new(&mut storage, Value::Int(1));
    let second = first.alias();
    assert!(!first.is_cursed());
    first.curse();
    assert!(first.is_cursed());
    assert!(first.melo);
    assert!(!second.is_cursed());
    assert_eq!(first.get(&storage), &Value::Int(1));
    let third = first.alias();
    assert!(!third.is_cursed());
    assert_eq!(third.value, first.value);
}

#[test]
fn storage_knows_its_bindings() {
    let mut storage = Storage::new();
    let stranger = Variable { melo: false, value: 0 };
    assert!(!storage.contains(&stranger));
    let own = Variable::new(&mut storage, Value::Nul);
    assert!(storage.contains(&own));
    assert!(storage.contains(&stranger));
    assert!(!storage.contains(&Variable { melo: true, value: 1 }));
}

#[test]
fn a_copy_equals_what_it_was_made_from() {
    let native = Value::Functio(Functio::AbleFunctio {
        params: vec!["a".to_string(), "b".to_string()],
        body: vec![
            Stmt::new(StmtKind::Break, Span::new(0, 6)),
            Stmt::new(StmtKind::HopBack, Span::new(7, 15)),
        ],
    });
    assert_eq!(native.clone(), native);
    let tape = Value::Functio(Functio::BfFunctio { instructions: vec![1, 2, 3], tape_len: 9 });
    assert_eq!(tape.clone(), tape);
    assert_eq!(Value::Str("text".to_string()).clone(), Value::Str("text".to_string()));
    assert_eq!(Value::Abool(Abool::Sometimes).clone(), Value::Abool(Abool::Sometimes));
}

#[test]
fn the_texts_of_callables_are_put_together() {
    assert_eq!(Functio::bf_text(0, ""), "(0) ");
    assert_eq!(Functio::bf_text(30000, "+[-]."), "(30000) +[-].");
    assert_eq!(Functio::bf_text(7, "né"), "(7) né");
    assert_eq!(Functio::able_text(&vec![], "[]"), "() -> []");
    assert_eq!(Functio::able_text(&vec!["a".to_string()], "body"), "(a) -> body");
    assert_eq!(
        Functio::able_text(&vec!["a".to_string(), "b".to_string(), "c".to_string()], "[Break]"),
        "(a, b, c) -> [Break]"
    );
}

#[test]
fn values_are_equal_by_what_they_hold() {
    let text = |s: &str| Value::Str(s.to_string());
    assert_eq!(text("a"), text("a"));
    assert_ne!(text("a"), text("b"));
    assert_ne!(text("1"), Value::Int(1));
    assert_ne!(Value::Int(1), Value::Int(2));
    assert_ne!(Value::Int(1), Value::Bool(true));
    assert_ne!(Value::Bool(true), Value::Bool(false));
    assert_ne!(Value::Nul, Value::Int(42));
    assert_ne!(Value::Abool(Abool::Always), Value::Abool(Abool::Sometimes));
    assert_ne!(Value::Abool(Abool::Always), Value::Bool(true));
    let tape = |bytes: &[u8], len: usize| {
        Value::Functio(Functio::BfFunctio { instructions: bytes.to_vec(), tape_len: len })
    };
    assert_eq!(tape(b"+-", 3), tape(b"+-", 3));
    assert_ne!(tape(b"+-", 3), tape(b"+-", 4));
    assert_ne!(tape(b"+-", 3), tape(b"++", 3));
    assert_ne!(tape(b"+-", 3), tape(b"+", 3));
    assert_ne!(tape(b"", 3), tape(b"+", 3));
    let native = |params: &[&str], body: Vec<Stmt>| {
        Value::Functio(Functio::AbleFunctio {
            params: params.iter().map(|p| p.to_string()).collect(),
            body,
        })
    };
    let stop = |start: usize| Stmt::new(StmtKind::Break, Span::new(start, start + 6));
    assert_eq!(native(&["a", "b"], vec![stop(0)]), native(&["a", "b"], vec![stop(0)]));
    assert_ne!(native(&["a", "b"], vec![stop(0)]), native(&["a", "c"], vec![stop(0)]));
    assert_ne!(native(&["a", "b"], vec![stop(0)]), native(&["a"], vec![stop(0)]));
    assert_ne!(native(&["a", "b"], vec![stop(0)]), native(&["a", "b"], vec![stop(1)]));
    assert_ne!(native(&["a", "b"], vec![stop(0)]), native(&["a", "b"], vec![]));
    assert_ne!(native(&["a", "b"], vec![stop(0)]), native(&["a", "b"], vec![stop(0), stop(7)]));
    assert_ne!(native(&[], vec![]), tape(b"", 0));
}

#[test]
fn numbers_with_signs_and_leading_zeros() {
    let number = |s: &str| Value::Str(s.to_string()).into_i32();
    assert_eq!(number("0"), 0);
    assert_eq!(number("+0"), 0);
    assert_eq!(number("-0"), 0);
    assert_eq!(number("0000"), 0);
    assert_eq!(number("00000000000000000000000017"), 17);
    assert_eq!(number("-00000000000000000000000017"), -17);
    assert_eq!(number("+2147483647"), i32::MAX);
    assert_eq!(number("+2147483648"), ANSWER);
    assert_eq!(number("+-1"), ANSWER);
    assert_eq!(number("--1"), ANSWER);
    assert_eq!(number("1-"), ANSWER);
    assert_eq!(number("1+1"), ANSWER);
    assert_eq!(number("0x10"), ANSWER);
    assert_eq!(number("1e3"), ANSWER);
    assert_eq!(number("1.0"), ANSWER);
    assert_eq!(number("\u{2212}1"), ANSWER);
    assert_eq!(number("99999999999999999999"), ANSWER);
}

#[test]
fn a_number_written_out_is_read_again() {
    for i in [0, 1, -1, 9, 10, -10, 99, 100, 12345, -67890, i32::MAX, i32::MIN, i32::MIN + 1] {
        let text = Value::Int(i).to_text().unwrap();
        assert_eq!(Value::Str(text).into_i32(), i);
    }
}

#[test]
fn ill_formed_bytes_are_not_text() {
    let shown = |bytes: &[u8]| {
        Value::Functio(Functio::BfFunctio { instructions: bytes.to_vec(), tape_len: 0 }).to_text()
    };
    assert_eq!(shown(&[0x80]), Err(ErrorKind::InvalidUtf8));
    assert_eq!(shown(&[0xc0, 0x80]), Err(ErrorKind::InvalidUtf8));
    assert_eq!(shown(&[0xc1, 0xbf]), Err(ErrorKind::InvalidUtf8));
    assert_eq!(shown(&[0xe0, 0x80, 0x80]), Err(ErrorKind::InvalidUtf8));
    assert_eq!(shown(&[0xed, 0xa0, 0x80]), Err(ErrorKind::InvalidUtf8));
    assert_eq!(shown(&[0xf0, 0x80, 0x80, 0x80]), Err(ErrorKind::InvalidUtf8));
    assert_eq!(shown(&[0xf4, 0x90, 0x80, 0x80]), Err(ErrorKind::InvalidUtf8));
    assert_eq!(shown(&[0xf5, 0x80, 0x80, 0x80]), Err(ErrorKind::InvalidUtf8));
    assert_eq!(shown(&[0xe2, 0x82]), Err(ErrorKind::InvalidUtf8));
    assert_eq!(shown(&[b'a', 0xff, b'b']), Err(ErrorKind::InvalidUtf8));
    assert_eq!(shown(&[0xc2, 0x80]), Ok("(0) \u{80}".to_string()));
    assert_eq!(shown(&[0xe2, 0x82, 0xac]), Ok("(0) \u{20ac}".to_string()));
    assert_eq!(shown(&[0xed, 0x9f, 0xbf]), Ok("(0) \u{d7ff}".to_string()));
    assert_eq!(shown(&[0xf4, 0x8f, 0xbf, 0xbf]), Ok("(0) \u{10ffff}".to_string()));
    assert_eq!(shown(&[]), Ok("(0) ".to_string()));
}
