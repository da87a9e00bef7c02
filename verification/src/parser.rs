//! Parsing of single protocol lines: ordinary `name: value` field lines and
//! structured `ACK ...` error lines.
//!
//! Each parser comes with a constructive specification (`spec_parse_*`) that
//! pins down the exact result on every input, and a declarative grammar
//! relation (`is_field_line`, `is_error_line`) that the specification is
//! proved equivalent to, so that round-trip laws can be stated naturally.

use vstd::prelude::*;

verus! {

/// Parse failure for a single protocol line: the line does not match the
/// grammar the protocol promises.
#[derive(Debug, Clone, Copy, PartialEq, Eq, Structural)]
pub struct ParseError {
    /// Character position in the line at which parsing gave up.
    pub at: usize,
}

/// Spec-level version of [`is_field_name_char`].
pub open spec fn spec_field_name_char(c: char) -> bool {
    ('a' <= c && c <= 'z') || ('A' <= c && c <= 'Z') || ('0' <= c && c <= '9') || c == '_'
        || c == '-'
}

/// A character that may appear in a protocol field name: ASCII letters or
/// digits, underscore, or hyphen.
pub fn is_field_name_char(c: char) -> (r: bool)
    ensures
        r == spec_field_name_char(c),
{
    ('a' <= c && c <= 'z') || ('A' <= c && c <= 'Z') || ('0' <= c && c <= '9') || c == '_'
        || c == '-'
}

/// Spec-level version of [`is_command_char`].
pub open spec fn spec_command_char(c: char) -> bool {
    ('a' <= c && c <= 'z') || ('A' <= c && c <= 'Z') || c == '_'
}

/// A character that may appear in a command name inside an error line:
/// ASCII letters or underscore.
pub fn is_command_char(c: char) -> (r: bool)
    ensures
        r == spec_command_char(c),
{
    ('a' <= c && c <= 'z') || ('A' <= c && c <= 'Z') || c == '_'
}

/// A decimal digit.
pub open spec fn spec_is_digit(c: char) -> bool {
    '0' <= c && c <= '9'
}

/// A decimal digit, decided at run time.
pub fn is_digit_char(c: char) -> (r: bool)
    ensures
        r == spec_is_digit(c),
{
    '0' <= c && c <= '9'
}

/// Numeric value of a decimal digit.
pub open spec fn digit_val(c: char) -> int {
    c as int - '0' as int
}

/// Every character of `s` is a decimal digit.
pub open spec fn all_digits(s: Seq<char>) -> bool {
    forall|i: int| 0 <= i < s.len() ==> spec_is_digit(s[i])
}

/// The number written by a sequence of decimal digits, most significant first.
pub open spec fn dec_value(s: Seq<char>) -> int
    decreases s.len(),
{
    if s.len() == 0 {
        0
    } else {
        dec_value(s.drop_last()) * 10 + digit_val(s.last())
    }
}

/// `s` is a non-empty run of digits whose value fits in a `u64`.
pub open spec fn valid_dec_u64(s: Seq<char>) -> bool {
    s.len() > 0 && all_digits(s) && dec_value(s) <= u64::MAX
}

/// Index of the first character at or after `i` that is not a field-name
/// character (or the end of the sequence).
pub open spec fn scan_field_name(s: Seq<char>, i: int) -> int
    decreases s.len() - i,
{
    if i < 0 || i >= s.len() || !spec_field_name_char(s[i]) {
        i
    } else {
        scan_field_name(s, i + 1)
    }
}

/// Index of the first character at or after `i` that is not a digit (or the
/// end of the sequence).
pub open spec fn scan_digits(s: Seq<char>, i: int) -> int
    decreases s.len() - i,
{
    if i < 0 || i >= s.len() || !spec_is_digit(s[i]) {
        i
    } else {
        scan_digits(s, i + 1)
    }
}

/// Index of the first character at or after `i` that is not a command
/// character (or the end of the sequence).
pub open spec fn scan_command(s: Seq<char>, i: int) -> int
    decreases s.len() - i,
{
    if i < 0 || i >= s.len() || !spec_command_char(s[i]) {
        i
    } else {
        scan_command(s, i + 1)
    }
}

proof fn lemma_scan_field_name_bounds(s: Seq<char>, i: int)
    requires
        0 <= i <= s.len(),
    ensures
        i <= scan_field_name(s, i) <= s.len(),
        forall|k: int| i <= k < scan_field_name(s, i) ==> spec_field_name_char(s[k]),
        scan_field_name(s, i) < s.len() ==> !spec_field_name_char(s[scan_field_name(s, i)]),
    decreases s.len() - i,
{
    if i < s.len() && spec_field_name_char(s[i]) {
        lemma_scan_field_name_bounds(s, i + 1);
    }
}

proof fn lemma_scan_field_name_stops(s: Seq<char>, i: int, stop: int)
    requires
        0 <= i <= stop <= s.len(),
        forall|k: int| i <= k < stop ==> spec_field_name_char(s[k]),
        stop == s.len() || !spec_field_name_char(s[stop]),
    ensures
        scan_field_name(s, i) == stop,
    decreases stop - i,
{
    if i < stop {
        lemma_scan_field_name_stops(s, i + 1, stop);
    }
}

pub proof fn lemma_scan_digits_bounds(s: Seq<char>, i: int)
    requires
        0 <= i <= s.len(),
    ensures
        i <= scan_digits(s, i) <= s.len(),
        forall|k: int| i <= k < scan_digits(s, i) ==> spec_is_digit(s[k]),
        scan_digits(s, i) < s.len() ==> !spec_is_digit(s[scan_digits(s, i)]),
    decreases s.len() - i,
{
    if i < s.len() && spec_is_digit(s[i]) {
        lemma_scan_digits_bounds(s, i + 1);
    }
}

proof fn lemma_scan_digits_stops(s: Seq<char>, i: int, stop: int)
    requires
        0 <= i <= stop <= s.len(),
        forall|k: int| i <= k < stop ==> spec_is_digit(s[k]),
        stop == s.len() || !spec_is_digit(s[stop]),
    ensures
        scan_digits(s, i) == stop,
    decreases stop - i,
{
    if i < stop {
        lemma_scan_digits_stops(s, i + 1, stop);
    }
}

proof fn lemma_scan_command_bounds(s: Seq<char>, i: int)
    requires
        0 <= i <= s.len(),
    ensures
        i <= scan_command(s, i) <= s.len(),
        forall|k: int| i <= k < scan_command(s, i) ==> spec_command_char(s[k]),
        scan_command(s, i) < s.len() ==> !spec_command_char(s[scan_command(s, i)]),
    decreases s.len() - i,
{
    if i < s.len() && spec_command_char(s[i]) {
        lemma_scan_command_bounds(s, i + 1);
    }
}

proof fn lemma_scan_command_stops(s: Seq<char>, i: int, stop: int)
    requires
        0 <= i <= stop <= s.len(),
        forall|k: int| i <= k < stop ==> spec_command_char(s[k]),
        stop == s.len() || !spec_command_char(s[stop]),
    ensures
        scan_command(s, i) == stop,
    decreases stop - i,
{
    if i < stop {
        lemma_scan_command_stops(s, i + 1, stop);
    }
}

/// What a well-formed field line `<name>: <value>\n` parses to, if anything:
/// the name is the maximal leading run of field-name characters, followed by
/// `": "`, then the value runs up to a final newline that ends the line.
pub open spec fn spec_parse_field_line(s: Seq<char>) -> Option<(Seq<char>, Seq<char>)> {
    let ne = scan_field_name(s, 0);
    if ne + 2 < s.len() && s[ne] == ':' && s[ne + 1] == ' ' && s[s.len() - 1] == '\n'
        && (forall|j: int| ne + 2 <= j < s.len() - 1 ==> s[j] != '\n') {
        Some((s.take(ne), s.subrange(ne + 2, s.len() - 1)))
    } else {
        None
    }
}

/// Every character of `s` may appear in a field name.
pub open spec fn valid_field_name(s: Seq<char>) -> bool {
    forall|i: int| 0 <= i < s.len() ==> spec_field_name_char(s[i])
}

/// Every character of `s` may appear in a command name.
pub open spec fn valid_command_name(s: Seq<char>) -> bool {
    forall|i: int| 0 <= i < s.len() ==> spec_command_char(s[i])
}

/// The exact text of a field line carrying `name` and `value`.
pub open spec fn field_line_of(name: Seq<char>, value: Seq<char>) -> Seq<char> {
    name + seq![':', ' '] + value + seq!['\n']
}

/// `s` is the field line carrying `name` and `value`.
pub open spec fn is_field_line(s: Seq<char>, name: Seq<char>, value: Seq<char>) -> bool {
    &&& s == field_line_of(name, value)
    &&& valid_field_name(name)
    &&& !value.contains('\n')
}

/// The constructive parser and the grammar relation agree: a line parses to
/// `(name, value)` exactly when it is the field line carrying them.
pub proof fn lemma_field_line_parses(s: Seq<char>, name: Seq<char>, value: Seq<char>)
    ensures
        is_field_line(s, name, value) <==> spec_parse_field_line(s) == Some((name, value)),
{
    if is_field_line(s, name, value) {
        let n = name.len() as int;
        assert forall|k: int| 0 <= k < n implies spec_field_name_char(s[k]) by {
            assert(s[k] == name[k]);
        }
        assert(s[n] == ':');
        assert(!spec_field_name_char(':'));
        lemma_scan_field_name_stops(s, 0, n);
        assert(s[n + 1] == ' ');
        assert(s[s.len() - 1] == '\n');
        assert forall|j: int| n + 2 <= j < s.len() - 1 implies s[j] != '\n' by {
            assert(s[j] == value[j - n - 2]);
            assert(!value.contains('\n'));
        }
        assert(s.take(n) =~= name);
        assert(s.subrange(n + 2, s.len() - 1) =~= value);
    }
    if spec_parse_field_line(s) == Some((name, value)) {
        let ne = scan_field_name(s, 0);
        lemma_scan_field_name_bounds(s, 0);
        assert(name =~= s.take(ne));
        assert(value =~= s.subrange(ne + 2, s.len() - 1));
        assert(s =~= field_line_of(name, value));
        assert forall|j: int| 0 <= j < value.len() implies value[j] != '\n' by {
            assert(value[j] == s[ne + 2 + j]);
        }
        assert(!value.contains('\n'));
    }
}

/// Round trip: rendering a well-formed name and newline-free value as a field
/// line and parsing it back yields the pair unchanged.
pub proof fn lemma_field_line_round_trip(name: Seq<char>, value: Seq<char>)
    requires
        valid_field_name(name),
        !value.contains('\n'),
    ensures
        spec_parse_field_line(field_line_of(name, value)) == Some((name, value)),
{
    lemma_field_line_parses(field_line_of(name, value), name, value);
}

/// Parse one `<name>: <value>\n` field line. Returns the name and value
/// exactly when the line matches the grammar, and a parse failure otherwise.
pub fn parse_line(i: &str) -> (r: Result<(String, String), ParseError>)
    ensures
        match r {
            Ok(nv) => spec_parse_field_line(i@) == Some((nv.0@, nv.1@)),
            Err(_) => spec_parse_field_line(i@) is None,
        },
{
    let n: usize = i.unicode_len();
    let ghost s = i@;
    let mut idx: usize = 0;
    while idx < n && is_field_name_char(i.get_char(idx))
        invariant
            0 <= idx <= n,
            n == s.len(),
            s == i@,
            scan_field_name(s, 0) == scan_field_name(s, idx as int),
        decreases n - idx,
    {
        idx = idx + 1;
    }
    assert(scan_field_name(s, idx as int) == idx as int);
    let ne = idx;
    if n < 3 || ne >= n - 2 {
        return Err(ParseError { at: ne });
    }
    if !(i.get_char(ne) == ':' && i.get_char(ne + 1) == ' ') {
        return Err(ParseError { at: ne });
    }
    if i.get_char(n - 1) != '\n' {
        return Err(ParseError { at: n - 1 });
    }
    let mut j: usize = ne + 2;
    while j < n - 1
        invariant
            ne + 2 <= j <= n - 1,
            n == s.len(),
            s == i@,
            ne + 2 < n,
            scan_field_name(s, 0) == ne as int,
            forall|k: int| ne + 2 <= k < j ==> s[k] != '\n',
        decreases n - 1 - j,
    {
        if i.get_char(j) == '\n' {
            return Err(ParseError { at: j });
        }
        j = j + 1;
    }
    let name = i.substring_char(0, ne).to_owned();
    let value = i.substring_char(ne + 2, n - 1).to_owned();
    Ok((name, value))
}

/// The closed enumeration of backend error codes.
#[derive(Debug, Clone, Copy, PartialEq, Eq, Structural)]
pub enum MpdErrorType {
    /// Any code outside the named ones, carried verbatim.
    Unknown(u64),
    /// Code 1.
    NotList,
    /// Code 2.
    BadArgument,
    /// Code 3.
    BadPassword,
    /// Code 4.
    Permission,
    /// Code 50.
    NoExist,
}

/// The closed mapping from numeric backend error codes to [`MpdErrorType`].
pub open spec fn spec_error_type_of(code: u64) -> MpdErrorType {
    if code == 1 {
        MpdErrorType::NotList
    } else if code == 2 {
        MpdErrorType::BadArgument
    } else if code == 3 {
        MpdErrorType::BadPassword
    } else if code == 4 {
        MpdErrorType::Permission
    } else if code == 50 {
        MpdErrorType::NoExist
    } else {
        MpdErrorType::Unknown(code)
    }
}

impl From<u64> for MpdErrorType {
    /// Map a numeric backend error code to its named variant.
    fn from(e: u64) -> (r: MpdErrorType) {
        match e {
            1u64 => MpdErrorType::NotList,
            2u64 => MpdErrorType::BadArgument,
            3u64 => MpdErrorType::BadPassword,
            4u64 => MpdErrorType::Permission,
            50u64 => MpdErrorType::NoExist,
            _ => MpdErrorType::Unknown(e),
        }
    }
}

impl vstd::std_specs::convert::FromSpecImpl<u64> for MpdErrorType {
    open spec fn obeys_from_spec() -> bool {
        true
    }

    open spec fn from_spec(e: u64) -> MpdErrorType {
        spec_error_type_of(e)
    }
}

/// A structured error reported by the backend on an `ACK` line.
#[derive(Debug, Clone, PartialEq, Eq)]
pub struct MpdError {
    /// The error code, mapped through the closed enumeration.
    pub source: MpdErrorType,
    /// The free-form message text.
    pub msg: String,
    /// 0-based index of the failing command within a command list.
    pub command_list_no: u64,
    /// Name of the failing command.
    pub current_command: String,
}

/// The exact text of an error line carrying the four components.
pub open spec fn error_line_of(
    code: Seq<char>,
    lidx: Seq<char>,
    cmd: Seq<char>,
    msg: Seq<char>,
) -> Seq<char> {
    seq!['A', 'C', 'K', ' ', '['] + code + seq!['@'] + lidx + seq![']', ' ', '{'] + cmd
        + seq!['}', ' '] + msg + seq!['\n']
}

/// `s` is the error line `ACK [<code>@<lidx>] {<cmd>} <msg>\n` carrying the
/// four components.
pub open spec fn is_error_line(
    s: Seq<char>,
    code: Seq<char>,
    lidx: Seq<char>,
    cmd: Seq<char>,
    msg: Seq<char>,
) -> bool {
    &&& s == error_line_of(code, lidx, cmd, msg)
    &&& code.len() > 0 && all_digits(code)
    &&& lidx.len() > 0 && all_digits(lidx)
    &&& valid_command_name(cmd)
    &&& !msg.contains('\n')
}

/// What a well-formed error line parses to, if anything: the digit runs for
/// the code and the list index, the command name, and the message up to the
/// final newline.
pub open spec fn spec_parse_error_line(s: Seq<char>) -> Option<
    (Seq<char>, Seq<char>, Seq<char>, Seq<char>),
> {
    if s.len() >= 5 && s[0] == 'A' && s[1] == 'C' && s[2] == 'K' && s[3] == ' ' && s[4] == '[' {
        let ce = scan_digits(s, 5);
        if ce > 5 && ce < s.len() && s[ce] == '@' {
            let le = scan_digits(s, ce + 1);
            if le > ce + 1 && le + 2 < s.len() && s[le] == ']' && s[le + 1] == ' '
                && s[le + 2] == '{' {
                let cme = scan_command(s, le + 3);
                if cme + 2 < s.len() && s[cme] == '}' && s[cme + 1] == ' '
                    && s[s.len() - 1] == '\n'
                    && (forall|j: int| cme + 2 <= j < s.len() - 1 ==> s[j] != '\n') {
                    Some(
                        (
                            s.subrange(5, ce),
                            s.subrange(ce + 1, le),
                            s.subrange(le + 3, cme),
                            s.subrange(cme + 2, s.len() - 1),
                        ),
                    )
                } else {
                    None
                }
            } else {
                None
            }
        } else {
            None
        }
    } else {
        None
    }
}

/// The constructive parser and the grammar relation agree: a line parses to
/// the four components exactly when it is the error line carrying them.
pub proof fn lemma_error_line_parses(
    s: Seq<char>,
    code: Seq<char>,
    lidx: Seq<char>,
    cmd: Seq<char>,
    msg: Seq<char>,
)
    ensures
        is_error_line(s, code, lidx, cmd, msg) <==> spec_parse_error_line(s) == Some(
            (code, lidx, cmd, msg),
        ),
{
    if is_error_line(s, code, lidx, cmd, msg) {
        let ce = 5 + code.len() as int;
        let le = ce + 1 + lidx.len() as int;
        let cme = le + 3 + cmd.len() as int;
        assert(s.len() == cme + 3 + msg.len());
        assert forall|k: int| 5 <= k < ce implies spec_is_digit(s[k]) by {
            assert(s[k] == code[k - 5]);
        }
        assert(s[ce] == '@');
        assert(!spec_is_digit('@'));
        lemma_scan_digits_stops(s, 5, ce);
        assert forall|k: int| ce + 1 <= k < le implies spec_is_digit(s[k]) by {
            assert(s[k] == lidx[k - ce - 1]);
        }
        assert(s[le] == ']');
        assert(!spec_is_digit(']'));
        lemma_scan_digits_stops(s, ce + 1, le);
        assert(s[le + 1] == ' ');
        assert(s[le + 2] == '{');
        assert forall|k: int| le + 3 <= k < cme implies spec_command_char(s[k]) by {
            assert(s[k] == cmd[k - le - 3]);
        }
        assert(s[cme] == '}');
        assert(!spec_command_char('}'));
        lemma_scan_command_stops(s, le + 3, cme);
        assert(s[cme + 1] == ' ');
        assert(s[s.len() - 1] == '\n');
        assert forall|j: int| cme + 2 <= j < s.len() - 1 implies s[j] != '\n' by {
            assert(s[j] == msg[j - cme - 2]);
            assert(!msg.contains('\n'));
        }
        assert(s.subrange(5, ce) =~= code);
        assert(s.subrange(ce + 1, le) =~= lidx);
        assert(s.subrange(le + 3, cme) =~= cmd);
        assert(s.subrange(cme + 2, s.len() - 1) =~= msg);
    }
    if spec_parse_error_line(s) == Some((code, lidx, cmd, msg)) {
        let ce = scan_digits(s, 5);
        lemma_scan_digits_bounds(s, 5);
        let le = scan_digits(s, ce + 1);
        lemma_scan_digits_bounds(s, ce + 1);
        let cme = scan_command(s, le + 3);
        lemma_scan_command_bounds(s, le + 3);
        assert(code =~= s.subrange(5, ce));
        assert(lidx =~= s.subrange(ce + 1, le));
        assert(cmd =~= s.subrange(le + 3, cme));
        assert(msg =~= s.subrange(cme + 2, s.len() - 1));
        assert forall|k: int| 0 <= k < code.len() implies spec_is_digit(code[k]) by {
            assert(code[k] == s[5 + k]);
        }
        assert forall|k: int| 0 <= k < lidx.len() implies spec_is_digit(lidx[k]) by {
            assert(lidx[k] == s[ce + 1 + k]);
        }
        assert forall|k: int| 0 <= k < cmd.len() implies spec_command_char(cmd[k]) by {
            assert(cmd[k] == s[le + 3 + k]);
        }
        assert forall|j: int| 0 <= j < msg.len() implies msg[j] != '\n' by {
            assert(msg[j] == s[cme + 2 + j]);
        }
        assert(!msg.contains('\n'));
        assert(s =~= error_line_of(code, lidx, cmd, msg));
    }
}

/// Round trip: rendering four well-formed components as an error line and
/// parsing it back yields them unchanged.
pub proof fn lemma_error_line_round_trip(
    code: Seq<char>,
    lidx: Seq<char>,
    cmd: Seq<char>,
    msg: Seq<char>,
)
    requires
        code.len() > 0 && all_digits(code),
        lidx.len() > 0 && all_digits(lidx),
        valid_command_name(cmd),
        !msg.contains('\n'),
    ensures
        spec_parse_error_line(error_line_of(code, lidx, cmd, msg)) == Some(
            (code, lidx, cmd, msg),
        ),
{
    lemma_error_line_parses(error_line_of(code, lidx, cmd, msg), code, lidx, cmd, msg);
}

proof fn lemma_dec_value_take_step(s: Seq<char>, i: int)
    requires
        0 <= i < s.len(),
    ensures
        dec_value(s.take(i + 1)) == dec_value(s.take(i)) * 10 + digit_val(s[i]),
{
    assert(s.take(i + 1).drop_last() =~= s.take(i));
    assert(s.take(i + 1).last() == s[i]);
}

pub proof fn lemma_dec_value_nonneg(s: Seq<char>)
    requires
        all_digits(s),
    ensures
        dec_value(s) >= 0,
    decreases s.len(),
{
    if s.len() > 0 {
        assert(all_digits(s.drop_last()));
        lemma_dec_value_nonneg(s.drop_last());
    }
}

proof fn lemma_dec_value_prefix_grows(s: Seq<char>, i: int)
    requires
        all_digits(s),
        0 <= i <= s.len(),
    ensures
        dec_value(s) >= dec_value(s.take(i)),
    decreases s.len() - i,
{
    if i == s.len() {
        assert(s.take(i) =~= s);
    } else {
        lemma_dec_value_take_step(s, i);
        assert(all_digits(s.take(i)));
        lemma_dec_value_nonneg(s.take(i));
        lemma_dec_value_prefix_grows(s, i + 1);
    }
}

/// Parse a non-empty all-digit string as a `u64`, most significant digit
/// first. Returns the value exactly when the string is such a numeral and
/// its value fits.
pub fn parse_u64(s: &str) -> (r: Option<u64>)
    ensures
        match r {
            Some(v) => valid_dec_u64(s@) && v as int == dec_value(s@),
            None => !valid_dec_u64(s@),
        },
{
    let n: usize = s.unicode_len();
    if n == 0 {
        return None;
    }
    let mut acc: u64 = 0;
    let mut i: usize = 0;
    while i < n
        invariant
            0 <= i <= n,
            n == s@.len(),
            all_digits(s@.take(i as int)),
            acc as int == dec_value(s@.take(i as int)),
        decreases n - i,
    {
        let c = s.get_char(i);
        if !is_digit_char(c) {
            return None;
        }
        let d: u64 = (c as u32 - '0' as u32) as u64;
        proof {
            lemma_dec_value_take_step(s@, i as int);
        }
        if acc > (u64::MAX - d) / 10 {
            proof {
                let t = s@.take(i as int + 1);
                assert(dec_value(t) == acc * 10 + d);
                assert(acc * 10 + d > u64::MAX) by {
                    let q = (u64::MAX - d) / 10;
                    assert(u64::MAX - d == 10 * q + (u64::MAX - d) % 10);
                }
                if all_digits(s@) {
                    lemma_dec_value_prefix_grows(s@, i as int + 1);
                }
            }
            return None;
        }
        acc = acc * 10 + d;
        i = i + 1;
    }
    assert(s@.take(n as int) =~= s@);
    Some(acc)
}

/// Parse one `ACK [<code>@<list_no>] {<command>} <message>\n` error line.
/// Succeeds exactly when the line matches the grammar and both numerals fit
/// in a `u64`; the code is mapped through the closed enumeration.
pub fn parse_error_line(i: &str) -> (r: Result<MpdError, ParseError>)
    ensures
        match r {
            Ok(e) => {
                &&& spec_parse_error_line(i@) matches Some(t)
                &&& spec_parse_error_line(i@) matches Some(t) ==> {
                    &&& valid_dec_u64(t.0) && e.source == spec_error_type_of(
                        dec_value(t.0) as u64,
                    )
                    &&& valid_dec_u64(t.1) && e.command_list_no as int == dec_value(t.1)
                    &&& e.current_command@ == t.2
                    &&& e.msg@ == t.3
                }
            },
            Err(_) => match spec_parse_error_line(i@) {
                Some(t) => dec_value(t.0) > u64::MAX || dec_value(t.1) > u64::MAX,
                None => true,
            },
        },
{
    let n: usize = i.unicode_len();
    let ghost s = i@;
    if n < 5 || i.get_char(0) != 'A' || i.get_char(1) != 'C' || i.get_char(2) != 'K'
        || i.get_char(3) != ' ' || i.get_char(4) != '[' {
        return Err(ParseError { at: 0 });
    }
    // Digit run for the error code.
    let mut ce: usize = 5;
    while ce < n && is_digit_char(i.get_char(ce))
        invariant
            5 <= ce <= n,
            n == s.len(),
            s == i@,
            scan_digits(s, 5) == scan_digits(s, ce as int),
        decreases n - ce,
    {
        ce = ce + 1;
    }
    assert(scan_digits(s, ce as int) == ce as int);
    if ce == 5 || ce >= n || i.get_char(ce) != '@' {
        return Err(ParseError { at: ce });
    }
    // Digit run for the command-list index.
    let mut le: usize = ce + 1;
    while le < n && is_digit_char(i.get_char(le))
        invariant
            ce + 1 <= le <= n,
            n == s.len(),
            s == i@,
            scan_digits(s, ce as int + 1) == scan_digits(s, le as int),
        decreases n - le,
    {
        le = le + 1;
    }
    assert(scan_digits(s, le as int) == le as int);
    if le == ce + 1 || n < 3 || le >= n - 2 {
        return Err(ParseError { at: le });
    }
    if !(i.get_char(le) == ']' && i.get_char(le + 1) == ' ' && i.get_char(le + 2) == '{') {
        return Err(ParseError { at: le });
    }
    // Command-character run for the command name.
    let mut cme: usize = le + 3;
    while cme < n && is_command_char(i.get_char(cme))
        invariant
            le + 3 <= cme <= n,
            n == s.len(),
            s == i@,
            scan_command(s, le as int + 3) == scan_command(s, cme as int),
        decreases n - cme,
    {
        cme = cme + 1;
    }
    assert(scan_command(s, cme as int) == cme as int);
    if cme >= n - 2 {
        return Err(ParseError { at: cme });
    }
    if !(i.get_char(cme) == '}' && i.get_char(cme + 1) == ' ') {
        return Err(ParseError { at: cme });
    }
    if i.get_char(n - 1) != '\n' {
        return Err(ParseError { at: n - 1 });
    }
    let mut j: usize = cme + 2;
    while j < n - 1
        invariant
            cme + 2 <= j <= n - 1,
            n == s.len(),
            s == i@,
            cme + 2 < n,
            n >= 5 && s[0] == 'A' && s[1] == 'C' && s[2] == 'K' && s[3] == ' ' && s[4] == '[',
            scan_digits(s, 5) == ce as int,
            5 < ce < n && s[ce as int] == '@',
            scan_digits(s, ce as int + 1) == le as int,
            ce + 1 < le && le + 2 < n && s[le as int] == ']' && s[le as int + 1] == ' '
                && s[le as int + 2] == '{',
            scan_command(s, le as int + 3) == cme as int,
            s[cme as int] == '}' && s[cme as int + 1] == ' ',
            s[n - 1] == '\n',
            forall|k: int| cme + 2 <= k < j ==> s[k] != '\n',
        decreases n - 1 - j,
    {
        if i.get_char(j) == '\n' {
            return Err(ParseError { at: j });
        }
        j = j + 1;
    }
    let code_str = i.substring_char(5, ce);
    let lidx_str = i.substring_char(ce + 1, le);
    let cmd = i.substring_char(le + 3, cme).to_owned();
    let msg = i.substring_char(cme + 2, n - 1).to_owned();
    proof {
        lemma_scan_digits_bounds(s, 5);
        lemma_scan_digits_bounds(s, ce as int + 1);
    }
    let code = match parse_u64(code_str) {
        Some(v) => v,
        None => {
            return Err(ParseError { at: 5 });
        },
    };
    let lidx = match parse_u64(lidx_str) {
        Some(v) => v,
        None => {
            return Err(ParseError { at: ce + 1 });
        },
    };
    Ok(MpdError {
        source: MpdErrorType::from(code),
        msg,
        command_list_no: lidx,
        current_command: cmd,
    })
}

} // verus!
