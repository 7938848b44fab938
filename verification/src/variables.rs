//! The values a program computes with: the tagged value type, the tri-state
//! boolean, and the two kinds of callable.

use vstd::prelude::*;
use vstd::utf8::{decode_utf8, valid_utf8};
use rand::Rng;
use crate::ast::{stmts_view, Stmt, StmtView};
use crate::consts::ANSWER;
use crate::error::ErrorKind;
use crate::text::{
    debug_string, debug_text, decimal_i32, decimal_string, decimal_text, join, joined, parse_i32,
    utf8_string,
};

verus! {

/// A boolean with a third state between the two certain ones.
#[derive(Debug, Clone, Copy, PartialEq, Eq, Structural)]
pub enum Abool {
    Never,
    Sometimes,
    Always,
}

/// A callable: either a tape program carried as raw bytes or a function of
/// the language itself.
#[derive(Debug)]
pub enum Functio {
    BfFunctio { instructions: Vec<u8>, tape_len: usize },
    AbleFunctio { params: Vec<String>, body: Vec<Stmt> },
}

/// A value of the language: exactly one of six kinds.
#[derive(Debug)]
pub enum Value {
    Nul,
    Str(String),
    Int(i32),
    Bool(bool),
    Abool(Abool),
    Functio(Functio),
}

/// What a [`Functio`] holds, as mathematical sequences.
pub enum FunctioView {
    BfFunctio { instructions: Seq<u8>, tape_len: usize },
    AbleFunctio { params: Seq<Seq<char>>, body: Seq<StmtView> },
}

/// What a [`Value`] holds, as mathematical sequences.
pub enum ValueView {
    Nul,
    Str(Seq<char>),
    Int(i32),
    Bool(bool),
    Abool(Abool),
    Functio(FunctioView),
}

/// The texts of a list of names.
pub open spec fn names_view(names: Seq<String>) -> Seq<Seq<char>> {
    Seq::new(names.len(), |i: int| names[i]@)
}

/// What a callable holds.
pub open spec fn functio_view(f: Functio) -> FunctioView
    decreases f,
{
    match f {
        Functio::BfFunctio { instructions, tape_len } => FunctioView::BfFunctio {
            instructions: instructions@,
            tape_len,
        },
        Functio::AbleFunctio { params, body } => FunctioView::AbleFunctio {
            params: names_view(params@),
            body: stmts_view(body),
        },
    }
}

/// What a value holds.
pub open spec fn value_view(v: Value) -> ValueView
    decreases v,
{
    match v {
        Value::Nul => ValueView::Nul,
        Value::Str(s) => ValueView::Str(s@),
        Value::Int(i) => ValueView::Int(i),
        Value::Bool(b) => ValueView::Bool(b),
        Value::Abool(a) => ValueView::Abool(a),
        Value::Functio(f) => ValueView::Functio(functio_view(f)),
    }
}

impl View for Functio {
    type V = FunctioView;

    open spec fn view(&self) -> FunctioView {
        functio_view(*self)
    }
}

impl View for Value {
    type V = ValueView;

    open spec fn view(&self) -> ValueView {
        value_view(*self)
    }
}

impl Abool {
    /// The integer tag of the state: -1, 0 or 1.
    pub open spec fn tag(self) -> int {
        match self {
            Abool::Never => -1,
            Abool::Sometimes => 0,
            Abool::Always => 1,
        }
    }

    /// The boolean that the state resolves to when the coin shows `coin`.
    /// Only `Sometimes` looks at the coin.
    pub open spec fn truth(self, coin: bool) -> bool {
        match self {
            Abool::Never => false,
            Abool::Sometimes => coin,
            Abool::Always => true,
        }
    }

    /// The word for the state.
    pub open spec fn name(self) -> Seq<char> {
        match self {
            Abool::Never => "never"@,
            Abool::Sometimes => "sometimes"@,
            Abool::Always => "always"@,
        }
    }

    /// The integer tag of the state.
    pub fn to_i32(self) -> (tag: i32)
        ensures
            tag == self.tag(),
    {
        match self {
            Abool::Never => -1,
            Abool::Sometimes => 0,
            Abool::Always => 1,
        }
    }

    /// Resolves the state with a coin that the caller has thrown.
    pub fn resolve(self, coin: bool) -> (b: bool)
        ensures
            b == self.truth(coin),
    {
        match self {
            Abool::Never => false,
            Abool::Sometimes => coin,
            Abool::Always => true,
        }
    }

    /// The word that the state is shown as.
    pub fn to_text(&self) -> (text: String)
        ensures
            text@ == self.name(),
    {
        match self {
            Abool::Never => "never".to_string(),
            Abool::Sometimes => "sometimes".to_string(),
            Abool::Always => "always".to_string(),
        }
    }
}

/// Throws a coin with `rand::thread_rng().gen::<bool>()`. Nothing is claimed
/// of the outcome: two throws need not agree.
#[verifier::external_body]
fn flip_coin() -> (coin: bool) {
    rand::thread_rng().gen()
}

impl From<Abool> for bool {
    /// Resolves a tri-state boolean. `Sometimes` throws a fresh coin on every
    /// call, so two conversions of it need not agree.
    fn from(val: Abool) -> (b: bool)
        ensures
            b == val.truth(true) || b == val.truth(false),
    {
        match val {
            Abool::Sometimes => flip_coin(),
            certain => certain.resolve(false),
        }
    }
}

impl vstd::std_specs::convert::FromSpecImpl<Abool> for bool {
    /// The conversion throws a coin, so it is no function of its argument.
    open spec fn obeys_from_spec() -> bool {
        false
    }

    open spec fn from_spec(v: Abool) -> bool {
        v.truth(true)
    }
}

/// The low 32 bits of a number, read as a signed integer.
pub open spec fn wrap_i32(n: int) -> int {
    let low = n % 0x1_0000_0000;
    if low >= 0x8000_0000 {
        low - 0x1_0000_0000
    } else {
        low
    }
}

/// The text of a tape program: the length of its tape in parentheses, then
/// its instructions as text.
pub open spec fn bf_functio_text(tape_len: usize, source: Seq<char>) -> Seq<char> {
    "("@ + decimal_text(tape_len as int) + ") "@ + source
}

/// The text of a function of the language: its parameter names in
/// parentheses with a comma and a blank between each two, an arrow, and the
/// rendering of its body.
pub open spec fn able_functio_text(params: Seq<Seq<char>>, body: Seq<char>) -> Seq<char> {
    "("@ + joined(params, ", "@) + ") -> "@ + body
}

impl ValueView {
    /// The integer that the value is coerced to.
    pub open spec fn as_int(self) -> int {
        match self {
            ValueView::Abool(a) => a.tag(),
            ValueView::Bool(b) => if b {
                1
            } else {
                0
            },
            ValueView::Functio(FunctioView::BfFunctio { instructions, tape_len }) => wrap_i32(
                instructions.len() + tape_len,
            ),
            ValueView::Functio(FunctioView::AbleFunctio { params, body }) => wrap_i32(
                (params.len() + body.len()) as int,
            ),
            ValueView::Int(i) => i as int,
            ValueView::Nul => ANSWER as int,
            ValueView::Str(text) => match decimal_i32(text) {
                Some(i) => i as int,
                None => ANSWER as int,
            },
        }
    }

    /// The boolean that the value is coerced to when the coin shows `coin`.
    /// Only the tri-state `Sometimes` looks at the coin.
    pub open spec fn truth(self, coin: bool) -> bool {
        match self {
            ValueView::Abool(a) => a.truth(coin),
            ValueView::Bool(b) => b,
            ValueView::Functio(_) => true,
            ValueView::Int(i) => i != 0,
            ValueView::Nul => true,
            ValueView::Str(text) => text.len() != 0,
        }
    }

    /// The text that the value is shown as, where it has one: a tape program
    /// whose bytes are not UTF-8 has none.
    pub open spec fn text(self) -> Option<Seq<char>> {
        match self {
            ValueView::Nul => Some("nul"@),
            ValueView::Str(text) => Some(text),
            ValueView::Int(i) => Some(decimal_text(i as int)),
            ValueView::Bool(b) => Some(
                if b {
                    "true"@
                } else {
                    "false"@
                },
            ),
            ValueView::Abool(a) => Some(a.name()),
            ValueView::Functio(FunctioView::BfFunctio { instructions, tape_len }) => if valid_utf8(
                instructions,
            ) {
                Some(bf_functio_text(tape_len, decode_utf8(instructions)))
            } else {
                None
            },
            ValueView::Functio(FunctioView::AbleFunctio { params, body }) => Some(
                able_functio_text(params, debug_text(body)),
            ),
        }
    }
}

/// The low 32 bits of the sum of two sizes, as a signed integer.
fn wrapped_sum(a: usize, b: usize) -> (sum: i32)
    ensures
        sum == wrap_i32(a + b),
{
    let low_a: u64 = (a as u64) % 0x1_0000_0000;
    let low_b: u64 = (b as u64) % 0x1_0000_0000;
    let low: u64 = (low_a + low_b) % 0x1_0000_0000;
    if low >= 0x8000_0000 {
        (low as i64 - 0x1_0000_0000) as i32
    } else {
        low as i32
    }
}

impl Functio {
    /// The text of a tape program whose instructions read as `source`.
    pub fn bf_text(tape_len: usize, source: &str) -> (text: String)
        ensures
            text@ == bf_functio_text(tape_len, source@),
    {
        let mut text = "(".to_string();
        text.append(decimal_string(tape_len as i128).as_str());
        text.append(") ");
        text.append(source);
        text
    }

    /// The text of a function of the language whose body is rendered as
    /// `body`.
    pub fn able_text(params: &Vec<String>, body: &str) -> (text: String)
        ensures
            text@ == able_functio_text(names_view(params@), body@),
    {
        let mut text = "(".to_string();
        text.append(join(params, ", ").as_str());
        text.append(") -> ");
        text.append(body);
        text
    }
}

impl Value {
    /// Coerces a value to an integer, leaving the value in place.
    pub fn to_i32(&self) -> (number: i32)
        ensures
            number == self@.as_int(),
    {
        match self {
            Value::Abool(a) => a.to_i32(),
            Value::Bool(b) => if *b {
                1
            } else {
                0
            },
            Value::Functio(func) => match func {
                Functio::BfFunctio { instructions, tape_len } => wrapped_sum(
                    instructions.len(),
                    *tape_len,
                ),
                Functio::AbleFunctio { params, body } => wrapped_sum(params.len(), body.len()),
            },
            Value::Int(i) => *i,
            Value::Nul => ANSWER,
            Value::Str(text) => match parse_i32(text.as_str()) {
                Some(i) => i,
                None => ANSWER,
            },
        }
    }

    /// Writes the value to a tape machine's input: the value is coerced to an
    /// integer, and the low byte of that integer is appended to `stream`.
    pub fn bf_write(&self, stream: &mut Vec<u8>)
        ensures
            final(stream)@ == old(stream)@.push((self@.as_int() % 256) as u8),
    {
        let number = self.to_i32();
        let byte = ((number as i64 + 0x8000_0000) % 256) as u8;
        stream.push(byte);
    }

    /// Coerces a value to an integer. The coercion cannot fail: what has no
    /// number of its own becomes [`ANSWER`].
    pub fn into_i32(self) -> (number: i32)
        ensures
            number == self@.as_int(),
    {
        self.to_i32()
    }

    /// Coerces a value to a boolean, with a coin that the caller has thrown.
    pub fn into_bool_with(self, coin: bool) -> (b: bool)
        ensures
            b == self@.truth(coin),
    {
        match self {
            Value::Abool(a) => a.resolve(coin),
            Value::Bool(b) => b,
            Value::Functio(_) => true,
            Value::Int(x) => x != 0,
            Value::Nul => true,
            Value::Str(s) => !s.as_str().is_empty(),
        }
    }

    /// Coerces a value to a boolean. The coercion cannot fail. Every value but
    /// the tri-state `Sometimes` has one answer; `Sometimes` throws a fresh
    /// coin on every call.
    pub fn into_bool(self) -> (b: bool)
        ensures
            b == self@.truth(true) || b == self@.truth(false),
    {
        match self {
            Value::Abool(a) => bool::from(a),
            certain => certain.into_bool_with(false),
        }
    }

    /// The text that the value is shown as. A tape program whose bytes are
    /// not UTF-8 cannot be shown.
    pub fn to_text(&self) -> (text: Result<String, ErrorKind>)
        ensures
            match self@.text() {
                Some(t) => text matches Ok(s) && s@ == t,
                None => text == Err::<String, ErrorKind>(ErrorKind::InvalidUtf8),
            },
    {
        match self {
            Value::Nul => Ok("nul".to_string()),
            Value::Str(v) => Ok(v.clone()),
            Value::Int(v) => Ok(decimal_string(*v as i128)),
            Value::Bool(v) => Ok(
                if *v {
                    "true".to_string()
                } else {
                    "false".to_string()
                },
            ),
            Value::Abool(v) => Ok(v.to_text()),
            Value::Functio(v) => match v {
                Functio::BfFunctio { instructions, tape_len } => match utf8_string(instructions) {
                    Some(source) => Ok(Functio::bf_text(*tape_len, source.as_str())),
                    None => Err(ErrorKind::InvalidUtf8),
                },
                Functio::AbleFunctio { params, body } => Ok(
                    Functio::able_text(params, debug_string(body).as_str()),
                ),
            },
        }
    }
}

/// The storage that bindings refer to: a growing row of slots, each holding
/// one value. A slot lives as long as the row, so no binding outlives the
/// storage it refers to.
#[derive(Debug)]
pub struct Storage {
    slots: Vec<Value>,
}

/// A named binding: a flag of its own and a handle to a slot of storage that
/// other bindings may share.
#[derive(Debug)]
pub struct Variable {
    /// Whether this binding is cursed. The flag belongs to the binding, not
    /// to the storage.
    pub melo: bool,
    /// The slot that holds the value.
    pub value: usize,
}

impl View for Storage {
    type V = Seq<ValueView>;

    closed spec fn view(&self) -> Seq<ValueView> {
        Seq::new(self.slots@.len(), |i: int| self.slots@[i]@)
    }
}

impl Storage {
    /// Whether the slot of a binding exists in this storage.
    pub open spec fn holds(&self, variable: &Variable) -> bool {
        variable.value < self@.len()
    }

    /// A storage without slots.
    pub fn new() -> (storage: Storage)
        ensures
            storage@ == Seq::<ValueView>::empty(),
    {
        Storage { slots: Vec::new() }
    }

    /// The number of slots.
    pub fn len(&self) -> (n: usize)
        ensures
            n == self@.len(),
    {
        self.slots.len()
    }

    /// Whether the slot of a binding exists in this storage.
    pub fn contains(&self, variable: &Variable) -> (b: bool)
        ensures
            b == self.holds(variable),
    {
        variable.value < self.slots.len()
    }
}

impl Variable {
    /// What a binding reads from a storage.
    pub open spec fn read(self, storage: Seq<ValueView>) -> ValueView {
        storage[self.value as int]
    }

    /// The storage after a value was written through a binding.
    pub open spec fn written(self, storage: Seq<ValueView>, value: ValueView) -> Seq<ValueView> {
        storage.update(self.value as int, value)
    }

    /// Whether two bindings share one slot.
    pub open spec fn aliases(self, other: Variable) -> bool {
        self.value == other.value
    }

    /// The binding with its flag set.
    pub open spec fn cursed(self) -> Variable {
        Variable { melo: true, value: self.value }
    }

    /// A binding over a fresh slot that holds `value`. The binding is not
    /// cursed, and no other binding shares its slot yet.
    pub fn new(storage: &mut Storage, value: Value) -> (variable: Variable)
        ensures
            !variable.melo,
            variable.value == old(storage)@.len(),
            final(storage)@ == old(storage)@.push(value@),
    {
        let slot = storage.slots.len();
        storage.slots.push(value);
        assert(storage@ =~= old(storage)@.push(value@));
        Variable { melo: false, value: slot }
    }

    /// A second binding over the slot of this one. The new binding is not
    /// cursed, whatever this one is.
    pub fn alias(&self) -> (variable: Variable)
        ensures
            variable.aliases(*self),
            !variable.melo,
    {
        Variable { melo: false, value: self.value }
    }

    /// The value in the slot of this binding.
    pub fn get<'a>(&self, storage: &'a Storage) -> (value: &'a Value)
        requires
            storage.holds(self),
        ensures
            value@ == self.read(storage@),
    {
        &storage.slots[self.value]
    }

    /// Puts a value into the slot of this binding. Every binding that shares
    /// the slot reads the new value from now on; all other slots are left as
    /// they were.
    pub fn set(&self, storage: &mut Storage, value: Value)
        requires
            old(storage).holds(self),
        ensures
            final(storage)@ == self.written(old(storage)@, value@),
    {
        let ghost new_value = value@;
        storage.slots.set(self.value, value);
        assert(storage@ =~= self.written(old(storage)@, new_value));
    }

    /// Sets the cursed flag of this binding and of no other: the flag is a
    /// field of the binding, and the storage is not touched.
    pub fn curse(&mut self)
        ensures
            *final(self) == old(self).cursed(),
    {
        self.melo = true;
    }

    /// Whether this binding is cursed.
    pub fn is_cursed(&self) -> (b: bool)
        ensures
            b == self.melo,
    {
        self.melo
    }
}

/// A value written through one binding is what every binding on the same
/// slot reads afterwards, and bindings on other slots read what they read
/// before.
pub proof fn lemma_write_reaches_aliases(
    storage: Seq<ValueView>,
    writer: Variable,
    reader: Variable,
    value: ValueView,
)
    requires
        writer.value < storage.len(),
        reader.value < storage.len(),
    ensures
        reader.aliases(writer) ==> reader.read(writer.written(storage, value)) == value,
        !reader.aliases(writer) ==> reader.read(writer.written(storage, value)) == reader.read(
            storage,
        ),
        writer.written(storage, value).len() == storage.len(),
{
}

/// A curse stays with its binding: the cursed binding keeps its slot, so it
/// reads what it read before and shares storage with the same bindings as
/// before, and an alias made of it afterwards is not cursed. The flag of no
/// other binding changes, each binding having a flag of its own.
pub proof fn lemma_curse_stays_with_its_binding(
    storage: Seq<ValueView>,
    cursed: Variable,
    other: Variable,
)
    ensures
        cursed.cursed().melo,
        cursed.cursed().aliases(other) == cursed.aliases(other),
        cursed.cursed().read(storage) == cursed.read(storage),
        other.aliases(cursed.cursed()) ==> other.read(storage) == cursed.read(storage),
{
}

} // verus!
