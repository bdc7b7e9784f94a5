//! The fields of an entry that is sent to the journal: how a name and a value
//! are joined, how a number is written, and which fields a message carries.

use crate::record::{
    all_separated, buffers, decoded, field_name, field_value, first_separator_at, has_separator,
    lemma_separator_unique, SEPARATOR,
};
use vstd::prelude::*;

verus! {

/// The decimal digits of `n`, without leading zeros.
pub open spec fn decimal(n: nat) -> Seq<u8>
    decreases n,
{
    if n < 10 {
        seq![(48 + n) as u8]
    } else {
        decimal(n / 10).push((48 + n % 10) as u8)
    }
}

/// A name, the separator and a value in one buffer.
pub open spec fn field(name: Seq<u8>, value: Seq<u8>) -> Seq<u8> {
    name.push(SEPARATOR) + value
}

/// `PRIORITY`
pub open spec fn priority_name() -> Seq<u8> {
    seq![80u8, 82u8, 73u8, 79u8, 82u8, 73u8, 84u8, 89u8]
}

/// `MESSAGE`
pub open spec fn message_name() -> Seq<u8> {
    seq![77u8, 69u8, 83u8, 83u8, 65u8, 71u8, 69u8]
}

/// `CODE_LINE`
pub open spec fn code_line_name() -> Seq<u8> {
    seq![67u8, 79u8, 68u8, 69u8, 95u8, 76u8, 73u8, 78u8, 69u8]
}

/// `CODE_FILE`
pub open spec fn code_file_name() -> Seq<u8> {
    seq![67u8, 79u8, 68u8, 69u8, 95u8, 70u8, 73u8, 76u8, 69u8]
}

/// `CODE_FUNCTION`
pub open spec fn code_function_name() -> Seq<u8> {
    seq![67u8, 79u8, 68u8, 69u8, 95u8, 70u8, 85u8, 78u8, 67u8, 84u8, 73u8, 79u8, 78u8]
}

/// The fields of a plain message of priority `lvl`.
pub open spec fn print_fields(lvl: nat, message: Seq<u8>) -> Seq<Seq<u8>> {
    seq![field(priority_name(), decimal(lvl)), field(message_name(), message)]
}

/// The fields of a log message with the place in the source that it comes from.
pub open spec fn log_fields(
    level: nat,
    line: nat,
    file: Seq<u8>,
    module: Seq<u8>,
    message: Seq<u8>,
) -> Seq<Seq<u8>> {
    seq![
        field(priority_name(), decimal(level)),
        field(message_name(), message),
        field(code_line_name(), decimal(line)),
        field(code_file_name(), file),
        field(code_function_name(), module),
    ]
}

/// Writes `n` in decimal digits.
pub fn format_decimal(n: u64) -> (r: Vec<u8>)
    ensures
        r@ == decimal(n as nat),
    decreases n,
{
    if n < 10 {
        let mut r: Vec<u8> = Vec::new();
        r.push(48u8 + (n as u8));
        assert(r@ =~= decimal(n as nat));
        r
    } else {
        let mut r = format_decimal(n / 10);
        r.push(48u8 + ((n % 10) as u8));
        r
    }
}

/// Joins a name and a value into the buffer of one field.
pub fn encode_field(name: &[u8], value: &[u8]) -> (r: Vec<u8>)
    ensures
        r@ == field(name@, value@),
{
    let mut r: Vec<u8> = Vec::new();
    let mut i: usize = 0;
    while i < name.len()
        invariant
            i <= name@.len(),
            r@ == name@.take(i as int),
        decreases name@.len() - i,
    {
        r.push(name[i]);
        i = i + 1;
        assert(r@ =~= name@.take(i as int));
    }
    assert(name@.take(i as int) =~= name@);
    r.push(SEPARATOR);
    let mut k: usize = 0;
    while k < value.len()
        invariant
            k <= value@.len(),
            r@ == name@.push(SEPARATOR) + value@.take(k as int),
        decreases value@.len() - k,
    {
        r.push(value[k]);
        k = k + 1;
        assert(r@ =~= name@.push(SEPARATOR) + value@.take(k as int));
    }
    assert(value@.take(k as int) =~= value@);
    r
}

/// `name` holds no separator.
pub open spec fn plain_name(name: Seq<u8>) -> bool {
    forall|i: int| 0 <= i < name.len() ==> name[i] != SEPARATOR
}

/// A field whose name holds no separator decodes to that name and that value,
/// whatever the value holds.
pub proof fn lemma_field_round_trip(name: Seq<u8>, value: Seq<u8>)
    requires
        plain_name(name),
    ensures
        has_separator(field(name, value)),
        first_separator_at(field(name, value), name.len() as int),
        field_name(field(name, value)) == name,
        field_value(field(name, value)) == value,
{
    let buf = field(name, value);
    assert(buf[name.len() as int] == SEPARATOR);
    assert forall|j: int| 0 <= j < name.len() implies buf[j] != SEPARATOR by {
        assert(buf[j] == name[j]);
    }
    lemma_separator_unique(buf, name.len() as int);
    assert(field_name(buf) =~= name);
    assert(field_value(buf) =~= value);
}

/// Buffers followed by the field of a plain name decode to what the buffers
/// decode to, with that name mapped to the field's value.
pub proof fn lemma_decoded_with_field(bufs: Seq<Seq<u8>>, name: Seq<u8>, value: Seq<u8>)
    requires
        plain_name(name),
    ensures
        has_separator(field(name, value)),
        decoded(bufs.push(field(name, value))) == decoded(bufs).insert(name, value),
{
    lemma_field_round_trip(name, value);
    let all = bufs.push(field(name, value));
    assert(all.drop_last() =~= bufs);
    assert(all.last() == field(name, value));
}

/// The names of the fields that are sent hold no separator.
pub proof fn lemma_names_plain()
    ensures
        plain_name(priority_name()),
        plain_name(message_name()),
        plain_name(code_line_name()),
        plain_name(code_file_name()),
        plain_name(code_function_name()),
{
}

/// The fields of a plain message decode to its priority, in decimal digits,
/// and its text, whatever the text holds.
pub proof fn lemma_print_fields_decode(lvl: nat, message: Seq<u8>)
    ensures
        all_separated(print_fields(lvl, message)),
        decoded(print_fields(lvl, message)) == Map::<Seq<u8>, Seq<u8>>::empty().insert(
            priority_name(),
            decimal(lvl),
        ).insert(message_name(), message),
{
    lemma_names_plain();
    let none = Seq::<Seq<u8>>::empty();
    let one = none.push(field(priority_name(), decimal(lvl)));
    lemma_decoded_with_field(none, priority_name(), decimal(lvl));
    lemma_decoded_with_field(one, message_name(), message);
    assert(print_fields(lvl, message) =~= one.push(field(message_name(), message)));
}

/// The fields of a log message decode to a record that maps each of the five
/// names to what was sent under it, whatever the text, the file and the
/// module hold.
pub proof fn lemma_log_fields_decode(
    level: nat,
    line: nat,
    file: Seq<u8>,
    module: Seq<u8>,
    message: Seq<u8>,
)
    ensures
        all_separated(log_fields(level, line, file, module, message)),
        decoded(log_fields(level, line, file, module, message)) == Map::<
            Seq<u8>,
            Seq<u8>,
        >::empty().insert(priority_name(), decimal(level)).insert(message_name(), message).insert(
            code_line_name(),
            decimal(line),
        ).insert(code_file_name(), file).insert(code_function_name(), module),
{
    lemma_names_plain();
    let s0 = Seq::<Seq<u8>>::empty();
    let s1 = s0.push(field(priority_name(), decimal(level)));
    let s2 = s1.push(field(message_name(), message));
    let s3 = s2.push(field(code_line_name(), decimal(line)));
    let s4 = s3.push(field(code_file_name(), file));
    let s5 = s4.push(field(code_function_name(), module));
    lemma_decoded_with_field(s0, priority_name(), decimal(level));
    lemma_decoded_with_field(s1, message_name(), message);
    lemma_decoded_with_field(s2, code_line_name(), decimal(line));
    lemma_decoded_with_field(s3, code_file_name(), file);
    lemma_decoded_with_field(s4, code_function_name(), module);
    assert(log_fields(level, line, file, module, message) =~= s5);
}

fn priority_key() -> (r: Vec<u8>)
    ensures
        r@ == priority_name(),
{
    let r = vec![80u8, 82u8, 73u8, 79u8, 82u8, 73u8, 84u8, 89u8];
    assert(r@ =~= priority_name());
    r
}

fn message_key() -> (r: Vec<u8>)
    ensures
        r@ == message_name(),
{
    let r = vec![77u8, 69u8, 83u8, 83u8, 65u8, 71u8, 69u8];
    assert(r@ =~= message_name());
    r
}

fn code_line_key() -> (r: Vec<u8>)
    ensures
        r@ == code_line_name(),
{
    let r = vec![67u8, 79u8, 68u8, 69u8, 95u8, 76u8, 73u8, 78u8, 69u8];
    assert(r@ =~= code_line_name());
    r
}

fn code_file_key() -> (r: Vec<u8>)
    ensures
        r@ == code_file_name(),
{
    let r = vec![67u8, 79u8, 68u8, 69u8, 95u8, 70u8, 73u8, 76u8, 69u8];
    assert(r@ =~= code_file_name());
    r
}

fn code_function_key() -> (r: Vec<u8>)
    ensures
        r@ == code_function_name(),
{
    let r = vec![67u8, 79u8, 68u8, 69u8, 95u8, 70u8, 85u8, 78u8, 67u8, 84u8, 73u8, 79u8, 78u8];
    assert(r@ =~= code_function_name());
    r
}

/// The fields of a simple message: its priority and its text.
pub fn print(lvl: u32, s: &[u8]) -> (r: Vec<Vec<u8>>)
    ensures
        buffers(r@) == print_fields(lvl as nat, s@),
{
    let digits = format_decimal(lvl as u64);
    let mut r: Vec<Vec<u8>> = Vec::new();
    r.push(encode_field(priority_key().as_slice(), digits.as_slice()));
    r.push(encode_field(message_key().as_slice(), s));
    assert(buffers(r@) =~= print_fields(lvl as nat, s@));
    r
}

/// The fields of a log message: priority, text, and the line, file and module
/// that it comes from, in this order.
pub fn log(level: usize, line: u32, file: &[u8], module: &[u8], message: &[u8]) -> (r: Vec<
    Vec<u8>,
>)
    ensures
        buffers(r@) == log_fields(level as nat, line as nat, file@, module@, message@),
{
    let level_digits = format_decimal(level as u64);
    let line_digits = format_decimal(line as u64);
    let mut r: Vec<Vec<u8>> = Vec::new();
    r.push(encode_field(priority_key().as_slice(), level_digits.as_slice()));
    r.push(encode_field(message_key().as_slice(), message));
    r.push(encode_field(code_line_key().as_slice(), line_digits.as_slice()));
    r.push(encode_field(code_file_key().as_slice(), file));
    r.push(encode_field(code_function_key().as_slice(), module));
    assert(buffers(r@) =~= log_fields(level as nat, line as nat, file@, module@, message@));
    r
}

/// How severe a log message is.
#[derive(Clone, Copy, Debug, PartialEq, Eq, Structural)]
pub enum Level {
    Error,
    Warn,
    Info,
    Debug,
    Trace,
}

/// The priority that a message of this level is sent with.
pub open spec fn priority_of(level: Level) -> nat {
    match level {
        Level::Error => 1,
        Level::Warn => 2,
        Level::Info => 3,
        Level::Debug => 4,
        Level::Trace => 5,
    }
}

/// The priority that a message of this level is sent with.
pub fn priority(level: Level) -> (r: usize)
    ensures
        r == priority_of(level),
{
    match level {
        Level::Error => 1,
        Level::Warn => 2,
        Level::Info => 3,
        Level::Debug => 4,
        Level::Trace => 5,
    }
}

/// The fields of a log record of the given level.
pub fn log_record(level: Level, line: u32, file: &[u8], module: &[u8], message: &[u8]) -> (r:
    Vec<Vec<u8>>)
    ensures
        buffers(r@) == log_fields(priority_of(level), line as nat, file@, module@, message@),
{
    self::log(priority(level), line, file, module, message)
}

/// A logger that sends every log record to the journal. It says which
/// records are logged and with which fields; whoever installs it sends them.
#[derive(Clone, Copy, Debug)]
pub struct JournalLog;

impl JournalLog {
    /// Every record is logged, whatever its level.
    pub fn enabled(&self, level: Level) -> (r: bool)
        ensures
            r,
    {
        true
    }

    /// The fields that a record is sent with.
    pub fn log(&self, level: Level, line: u32, file: &[u8], module: &[u8], message: &[u8]) -> (r:
        Vec<Vec<u8>>)
        ensures
            buffers(r@) == log_fields(priority_of(level), line as nat, file@, module@, message@),
    {
        log_record(level, line, file, module, message)
    }
}

} // verus!
