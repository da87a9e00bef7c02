//! One protocol response: ordered fields plus an optional binary payload,
//! and the framing algorithm that assembles a response from a stream of
//! lines with an embedded length-prefixed binary chunk.

use vstd::prelude::*;

use crate::parser::{
    dec_value, parse_error_line, parse_line, spec_error_type_of, spec_parse_error_line,
    spec_parse_field_line, valid_dec_u64, MpdError, ParseError,
};

verus! {

/// A list of fields plus optional binary data, exactly as received: the
/// order of fields matters and duplicate names are preserved.
#[derive(Debug)]
pub struct MpdResponse {
    /// The `(name, value)` pairs, in the order they arrived.
    pub fields: Vec<(String, String)>,
    /// The raw binary payload, if the response carried one.
    pub binary: Option<Vec<u8>>,
}

/// The view of a field list: each `(name, value)` pair as character
/// sequences.
pub open spec fn fields_view(fields: Seq<(String, String)>) -> Seq<(Seq<char>, Seq<char>)> {
    Seq::new(fields.len(), |i: int| (fields[i].0@, fields[i].1@))
}

/// First value carried by a field named `name`, scanning from the front.
pub open spec fn spec_first_field(
    fields: Seq<(Seq<char>, Seq<char>)>,
    name: Seq<char>,
) -> Option<Seq<char>>
    decreases fields.len(),
{
    if fields.len() == 0 {
        None
    } else {
        let prefix = spec_first_field(fields.drop_last(), name);
        if prefix is Some {
            prefix
        } else if fields.last().0 == name {
            Some(fields.last().1)
        } else {
            None
        }
    }
}

/// All values carried by fields named `name`, in arrival order.
pub open spec fn spec_field_values(
    fields: Seq<(Seq<char>, Seq<char>)>,
    name: Seq<char>,
) -> Seq<Seq<char>>
    decreases fields.len(),
{
    if fields.len() == 0 {
        Seq::empty()
    } else {
        let prefix = spec_field_values(fields.drop_last(), name);
        if fields.last().0 == name {
            prefix.push(fields.last().1)
        } else {
            prefix
        }
    }
}

/// Compare two string slices by their character sequences.
pub fn str_eq(a: &str, b: &str) -> (r: bool)
    ensures
        r == (a@ == b@),
{
    let x = a.to_owned();
    let y = b.to_owned();
    x == y
}

impl MpdResponse {
    /// The view of this response's fields.
    pub open spec fn fields_v(&self) -> Seq<(Seq<char>, Seq<char>)> {
        fields_view(self.fields@)
    }

    /// Whether some field is named `name`.
    pub fn has_field(&self, name: &str) -> (r: bool)
        ensures
            r == (spec_first_field(self.fields_v(), name@) is Some),
    {
        self.first_field_value(name).is_some()
    }

    /// The value of the first field named `name`, if any.
    pub fn first_field_value(&self, name: &str) -> (r: Option<&String>)
        ensures
            match r {
                Some(v) => spec_first_field(self.fields_v(), name@) == Some(v@),
                None => spec_first_field(self.fields_v(), name@) is None,
            },
    {
        let n = self.fields.len();
        let mut i: usize = 0;
        while i < n
            invariant
                0 <= i <= n,
                n == self.fields@.len(),
                spec_first_field(fields_view(self.fields@.take(i as int)), name@) is None,
            decreases n - i,
        {
            proof {
                assert(fields_view(self.fields@.take(i as int + 1)).drop_last() =~= fields_view(
                    self.fields@.take(i as int),
                ));
            }
            if str_eq(self.fields[i].0.as_str(), name) {
                assert(fields_view(self.fields@.take(i as int + 1)).last().0 == name@);
                assert(self.fields@.take(n as int) =~= self.fields@);
                proof {
                    assert(self.fields_v().take(i as int + 1) =~= fields_view(
                        self.fields@.take(i as int + 1),
                    ));
                    lemma_first_field_extend(
                        self.fields_v(),
                        name@,
                        i as int + 1,
                    );
                }
                return Some(&self.fields[i].1);
            }
            assert(fields_view(self.fields@.take(i as int + 1)).last().0 != name@);
            i = i + 1;
        }
        assert(self.fields@.take(n as int) =~= self.fields@);
        None
    }

    /// All values of fields named `name`, in arrival order.
    pub fn field_values(&self, name: &str) -> (r: Vec<String>)
        ensures
            strings_view(r@) == spec_field_values(self.fields_v(), name@),
    {
        let n = self.fields.len();
        let mut out: Vec<String> = Vec::new();
        let mut i: usize = 0;
        while i < n
            invariant
                0 <= i <= n,
                n == self.fields@.len(),
                strings_view(out@) =~= spec_field_values(
                    fields_view(self.fields@.take(i as int)),
                    name@,
                ),
            decreases n - i,
        {
            proof {
                assert(fields_view(self.fields@.take(i as int + 1)).drop_last() =~= fields_view(
                    self.fields@.take(i as int),
                ));
            }
            if str_eq(self.fields[i].0.as_str(), name) {
                assert(fields_view(self.fields@.take(i as int + 1)).last().0 == name@);
                let v = self.fields[i].1.clone();
                out.push(v);
            } else {
                assert(fields_view(self.fields@.take(i as int + 1)).last().0 != name@);
            }
            i = i + 1;
        }
        assert(self.fields@.take(n as int) =~= self.fields@);
        assert(strings_view(out@) =~= spec_field_values(self.fields_v(), name@));
        out
    }
}

/// The view of a list of strings: each as its character sequence.
pub open spec fn strings_view(v: Seq<String>) -> Seq<Seq<char>> {
    Seq::new(v.len(), |i: int| v[i]@)
}

/// Once the first-match scan has found a hit at position `hit`, later fields
/// cannot change the result.
proof fn lemma_first_field_extend(fields: Seq<(Seq<char>, Seq<char>)>, name: Seq<char>, hit: int)
    requires
        0 < hit <= fields.len(),
        spec_first_field(fields.take(hit), name) is Some,
    ensures
        spec_first_field(fields, name) == spec_first_field(fields.take(hit), name),
    decreases fields.len(),
{
    if hit < fields.len() {
        assert(fields.drop_last().take(hit) =~= fields.take(hit));
        lemma_first_field_extend(fields.drop_last(), name, hit);
    } else {
        assert(fields.take(hit) =~= fields);
    }
}

/// The line begins with `OK`.
pub open spec fn spec_starts_ok(s: Seq<char>) -> bool {
    s.len() >= 2 && s[0] == 'O' && s[1] == 'K'
}

/// The line begins with `ACK`.
pub open spec fn spec_starts_ack(s: Seq<char>) -> bool {
    s.len() >= 3 && s[0] == 'A' && s[1] == 'C' && s[2] == 'K'
}

/// Whether the line begins with `OK`, decided at run time.
pub fn starts_with_ok(s: &str) -> (r: bool)
    ensures
        r == spec_starts_ok(s@),
{
    let n: usize = s.unicode_len();
    n >= 2 && s.get_char(0) == 'O' && s.get_char(1) == 'K'
}

/// Whether the line begins with `ACK`, decided at run time.
pub fn starts_with_ack(s: &str) -> (r: bool)
    ensures
        r == spec_starts_ack(s@),
{
    let n: usize = s.unicode_len();
    n >= 3 && s.get_char(0) == 'A' && s.get_char(1) == 'C' && s.get_char(2) == 'K'
}

/// The field name that introduces a binary chunk.
pub open spec fn binary_field_name() -> Seq<char> {
    "binary"@
}

/// Where the framing algorithm stands between lines.
#[derive(Debug, Clone, Copy, PartialEq, Eq, Structural)]
pub enum FrameState {
    /// Reading field lines; `OK` or `ACK` may end the response.
    Lines,
    /// A `binary` field announced this many raw bytes (plus one newline).
    Binary(usize),
    /// The binary chunk arrived; only a final `OK` line is acceptable.
    FinalOk,
    /// The response is complete.
    Done,
}

/// What one fed line means, at the specification level.
pub enum SpecStep {
    /// An ordinary field was accumulated.
    Continue,
    /// A `binary` field announced this many raw bytes.
    NeedBinary(int),
    /// An `OK` line completed the response.
    Complete,
    /// A well-formed `ACK` line: the backend rejected the command.
    Backend,
    /// The line matches no acceptable shape in this state.
    Malformed,
}

/// The framing algorithm's reaction to one line, in the given state: `OK`
/// completes; `ACK` carries a structured failure; a field named `binary`
/// announces a chunk; any other field is accumulated. After a chunk only
/// `OK` is acceptable.
pub open spec fn spec_line_outcome(state: FrameState, line: Seq<char>) -> SpecStep {
    if state is FinalOk {
        if spec_starts_ok(line) {
            SpecStep::Complete
        } else {
            SpecStep::Malformed
        }
    } else {
        if spec_starts_ok(line) {
            SpecStep::Complete
        } else if spec_starts_ack(line) {
            match spec_parse_error_line(line) {
                Some(t) => if dec_value(t.0) <= u64::MAX && dec_value(t.1) <= u64::MAX {
                    SpecStep::Backend
                } else {
                    SpecStep::Malformed
                },
                None => SpecStep::Malformed,
            }
        } else {
            match spec_parse_field_line(line) {
                Some(nv) => if nv.0 == binary_field_name() {
                    if valid_dec_u64(nv.1) && dec_value(nv.1) <= usize::MAX {
                        SpecStep::NeedBinary(dec_value(nv.1))
                    } else {
                        SpecStep::Malformed
                    }
                } else {
                    SpecStep::Continue
                },
                None => SpecStep::Malformed,
            }
        }
    }
}

/// What a fed line produced, at run time.
#[derive(Debug, Clone, Copy, PartialEq, Eq, Structural)]
pub enum FeedOutcome {
    /// An ordinary field was accumulated; feed the next line.
    Continue,
    /// Read exactly this many raw bytes (then one newline) and feed them.
    NeedBinary(usize),
    /// The response is complete.
    Complete,
}

/// Why the framing of a response failed.
#[derive(Debug, Clone, PartialEq, Eq)]
pub enum FrameError {
    /// A line violated the protocol grammar or the framing rules.
    Malformed(ParseError),
    /// The backend rejected the command with a structured error.
    Backend(MpdError),
}

/// Assembles one response from fed lines and an optional fed binary chunk.
pub struct ResponseBuilder {
    /// The fields accumulated so far, in arrival order.
    pub fields: Vec<(String, String)>,
    /// The binary chunk, once fed.
    pub binary: Option<Vec<u8>>,
    /// Where the framing algorithm stands.
    pub state: FrameState,
}

impl ResponseBuilder {
    /// The view of the fields accumulated so far.
    pub open spec fn fields_v(&self) -> Seq<(Seq<char>, Seq<char>)> {
        fields_view(self.fields@)
    }

    /// A fresh builder, ready for the first line of a response.
    pub fn new() -> (r: ResponseBuilder)
        ensures
            r.fields@.len() == 0,
            r.binary is None,
            r.state == FrameState::Lines,
    {
        ResponseBuilder { fields: Vec::new(), binary: None, state: FrameState::Lines }
    }

    /// Feed one line. The reaction follows [`spec_line_outcome`] exactly:
    /// fields are accumulated in order, `binary` announces a chunk, `OK`
    /// completes, `ACK` surfaces the backend's structured error, and
    /// anything else is a framing violation that leaves the builder
    /// unchanged.
    pub fn feed_line(&mut self, line: &str) -> (r: Result<FeedOutcome, FrameError>)
        requires
            old(self).state is Lines || old(self).state is FinalOk,
        ensures
            match spec_line_outcome(old(self).state, line@) {
                SpecStep::Continue => {
                    &&& spec_parse_field_line(line@) matches Some(nv) && final(self).fields_v()
                        == old(self).fields_v().push(nv)
                    &&& r == Ok::<FeedOutcome, FrameError>(FeedOutcome::Continue)
                    &&& final(self).state == old(self).state
                    &&& final(self).binary == old(self).binary
                },
                SpecStep::NeedBinary(len) => {
                    &&& spec_parse_field_line(line@) matches Some(nv) && final(self).fields_v()
                        == old(self).fields_v().push(nv)
                    &&& r == Ok::<FeedOutcome, FrameError>(FeedOutcome::NeedBinary(len as usize))
                    &&& final(self).state == FrameState::Binary(len as usize)
                    &&& final(self).binary == old(self).binary
                },
                SpecStep::Complete => {
                    &&& r == Ok::<FeedOutcome, FrameError>(FeedOutcome::Complete)
                    &&& final(self).state == FrameState::Done
                    &&& final(self).fields == old(self).fields
                    &&& final(self).binary == old(self).binary
                },
                SpecStep::Backend => {
                    &&& r matches Err(FrameError::Backend(e)) && {
                        let t = spec_parse_error_line(line@)->Some_0;
                        &&& e.source == spec_error_type_of(dec_value(t.0) as u64)
                        &&& e.command_list_no as int == dec_value(t.1)
                        &&& e.current_command@ == t.2
                        &&& e.msg@ == t.3
                    }
                    &&& final(self).state == old(self).state
                    &&& final(self).fields == old(self).fields
                    &&& final(self).binary == old(self).binary
                },
                SpecStep::Malformed => {
                    &&& r matches Err(FrameError::Malformed(_))
                    &&& final(self).state == old(self).state
                    &&& final(self).fields == old(self).fields
                    &&& final(self).binary == old(self).binary
                },
            },
    {
        match self.state {
            FrameState::FinalOk => {
                if starts_with_ok(line) {
                    self.state = FrameState::Done;
                    Ok(FeedOutcome::Complete)
                } else {
                    Err(FrameError::Malformed(ParseError { at: 0 }))
                }
            },
            _ => {
                if starts_with_ok(line) {
                    self.state = FrameState::Done;
                    return Ok(FeedOutcome::Complete);
                }
                if starts_with_ack(line) {
                    return match parse_error_line(line) {
                        Ok(e) => Err(FrameError::Backend(e)),
                        Err(p) => Err(FrameError::Malformed(p)),
                    };
                }
                let (name, value) = match parse_line(line) {
                    Ok(nv) => nv,
                    Err(p) => {
                        return Err(FrameError::Malformed(p));
                    },
                };
                if str_eq(name.as_str(), "binary") {
                    let len64 = match crate::parser::parse_u64(value.as_str()) {
                        Some(v) => v,
                        None => {
                            return Err(FrameError::Malformed(ParseError { at: 0 }));
                        },
                    };
                    if len64 > usize::MAX as u64 {
                        return Err(FrameError::Malformed(ParseError { at: 0 }));
                    }
                    let len: usize = len64 as usize;
                    proof {
                        assert(fields_view(old(self).fields@.push((name, value))) =~= old(
                            self,
                        ).fields_v().push((name@, value@)));
                    }
                    self.fields.push((name, value));
                    self.state = FrameState::Binary(len);
                    Ok(FeedOutcome::NeedBinary(len))
                } else {
                    proof {
                        assert(fields_view(old(self).fields@.push((name, value))) =~= old(
                            self,
                        ).fields_v().push((name@, value@)));
                    }
                    self.fields.push((name, value));
                    Ok(FeedOutcome::Continue)
                }
            },
        }
    }

    /// Feed the announced binary chunk. The builder then accepts only the
    /// final `OK` line.
    pub fn feed_binary(&mut self, data: Vec<u8>)
        requires
            old(self).state matches FrameState::Binary(n) && data@.len() == n,
        ensures
            final(self).fields == old(self).fields,
            final(self).binary == Some(data),
            final(self).state == FrameState::FinalOk,
    {
        self.binary = Some(data);
        self.state = FrameState::FinalOk;
    }

    /// Hand out the completed response.
    pub fn take_response(self) -> (r: MpdResponse)
        requires
            self.state is Done,
        ensures
            r.fields == self.fields,
            r.binary == self.binary,
    {
        MpdResponse { fields: self.fields, binary: self.binary }
    }
}

} // verus!

verus! {

/// Index of the first newline byte at or after `i` (or the end of the
/// stream).
pub open spec fn scan_to_nl(b: Seq<u8>, i: int) -> int
    decreases b.len() - i,
{
    if i < 0 || i >= b.len() || b[i] == 10 {
        i
    } else {
        scan_to_nl(b, i + 1)
    }
}

pub proof fn lemma_scan_to_nl_bounds(b: Seq<u8>, i: int)
    requires
        0 <= i <= b.len(),
    ensures
        i <= scan_to_nl(b, i) <= b.len(),
        forall|k: int| i <= k < scan_to_nl(b, i) ==> b[k] != 10,
        scan_to_nl(b, i) < b.len() ==> b[scan_to_nl(b, i)] == 10,
    decreases b.len() - i,
{
    if i < b.len() && b[i] != 10 {
        lemma_scan_to_nl_bounds(b, i + 1);
    }
}

/// The outcome of running the framing algorithm over a byte stream from a
/// given position and machine state.
pub enum SpecRun {
    /// A complete response: its fields, its payload, and how many bytes of
    /// the stream it consumed.
    Success { fields: Seq<(Seq<char>, Seq<char>)>, binary: Option<Seq<u8>>, used: int },
    /// A well-formed `ACK` line ended the response: its four components.
    Backend { err: (Seq<char>, Seq<char>, Seq<char>, Seq<char>) },
    /// A line violated the grammar, the framing rules, or UTF-8.
    Malformed,
    /// The stream ended before the response was complete.
    Incomplete,
}

/// Run the framing algorithm over `b` starting at `pos`: split off one line
/// at a time at each newline, react to it as [`spec_line_outcome`] says, and
/// after a `binary` field consume the announced chunk plus its trailing
/// newline before expecting the final `OK` line.
pub open spec fn spec_stream_run(
    b: Seq<u8>,
    pos: int,
    state: FrameState,
    fields: Seq<(Seq<char>, Seq<char>)>,
    binary: Option<Seq<u8>>,
) -> SpecRun
    decreases b.len() - pos,
        via spec_stream_run_decreases
{
    if pos < 0 || pos > b.len() {
        SpecRun::Incomplete
    } else if state is Binary {
        let n = state->Binary_0 as int;
        if pos + n + 1 <= b.len() {
            spec_stream_run(
                b,
                pos + n + 1,
                FrameState::FinalOk,
                fields,
                Some(b.subrange(pos, pos + n)),
            )
        } else {
            SpecRun::Incomplete
        }
    } else if state is Done {
        // A completed machine is fed no further input.
        SpecRun::Malformed
    } else {
        let nl = scan_to_nl(b, pos);
        if nl >= b.len() {
            SpecRun::Incomplete
        } else {
            let lineb = b.subrange(pos, nl + 1);
            if !vstd::utf8::valid_utf8(lineb) {
                SpecRun::Malformed
            } else {
                let line = vstd::utf8::decode_utf8(lineb);
                match spec_line_outcome(state, line) {
                    SpecStep::Continue => spec_stream_run(
                        b,
                        nl + 1,
                        state,
                        fields.push(spec_parse_field_line(line)->Some_0),
                        binary,
                    ),
                    SpecStep::NeedBinary(len) => spec_stream_run(
                        b,
                        nl + 1,
                        FrameState::Binary(len as usize),
                        fields.push(spec_parse_field_line(line)->Some_0),
                        binary,
                    ),
                    SpecStep::Complete => SpecRun::Success { fields, binary, used: nl + 1 },
                    SpecStep::Backend => SpecRun::Backend {
                        err: spec_parse_error_line(line)->Some_0,
                    },
                    SpecStep::Malformed => SpecRun::Malformed,
                }
            }
        }
    }
}

#[via_fn]
proof fn spec_stream_run_decreases(
    b: Seq<u8>,
    pos: int,
    state: FrameState,
    fields: Seq<(Seq<char>, Seq<char>)>,
    binary: Option<Seq<u8>>,
) {
    if 0 <= pos <= b.len() && !(state is Binary) && !(state is Done) {
        lemma_scan_to_nl_bounds(b, pos);
    }
}

/// The view of an optional byte payload.
pub open spec fn binary_view(b: Option<Vec<u8>>) -> Option<Seq<u8>> {
    match b {
        Some(v) => Some(v@),
        None => None,
    }
}

/// Relies on `String::from_utf8`: it succeeds exactly on valid UTF-8 input
/// and decodes the bytes to their character sequence.
#[verifier::external_body]
fn string_from_utf8(v: Vec<u8>) -> (r: Option<String>)
    ensures
        match r {
            Some(s) => vstd::utf8::valid_utf8(v@) && s@ == vstd::utf8::decode_utf8(v@),
            None => !vstd::utf8::valid_utf8(v@),
        },
{
    String::from_utf8(v).ok()
}

/// Why a byte stream did not yield a complete response.
#[derive(Debug, Clone, PartialEq, Eq)]
pub enum StreamError {
    /// A line violated the grammar, the framing rules, or UTF-8.
    Malformed,
    /// The backend rejected the command with a structured error.
    Backend(MpdError),
    /// The stream ended before the response was complete.
    Incomplete,
}

/// Parse one complete response from the front of a byte stream. The result
/// is exactly what [`spec_stream_run`] says of the stream: the fields in
/// order, the binary payload if a chunk was framed, and the number of bytes
/// consumed; or the structured backend error; or why it failed.
pub fn parse_response_bytes(input: &[u8]) -> (r: Result<(MpdResponse, usize), StreamError>)
    ensures
        ({
            let run = spec_stream_run(input@, 0, FrameState::Lines, Seq::empty(), None);
            match r {
                Ok(ru) => run == (SpecRun::Success {
                    fields: ru.0.fields_v(),
                    binary: binary_view(ru.0.binary),
                    used: ru.1 as int,
                }),
                Err(StreamError::Backend(e)) => run matches SpecRun::Backend { err: t } && {
                    &&& e.source == spec_error_type_of(dec_value(t.0) as u64)
                    &&& e.command_list_no as int == dec_value(t.1)
                    &&& e.current_command@ == t.2
                    &&& e.msg@ == t.3
                },
                Err(StreamError::Malformed) => run is Malformed,
                Err(StreamError::Incomplete) => run is Incomplete,
            }
        }),
{
    let n: usize = input.len();
    let ghost b = input@;
    let mut builder = ResponseBuilder::new();
    let mut pos: usize = 0;
    assert(builder.fields_v() =~= Seq::<(Seq<char>, Seq<char>)>::empty());
    loop
        invariant
            0 <= pos <= n,
            n == b.len(),
            b == input@,
            builder.state is Lines || builder.state is FinalOk,
            spec_stream_run(b, 0, FrameState::Lines, Seq::empty(), None) == spec_stream_run(
                b,
                pos as int,
                builder.state,
                builder.fields_v(),
                binary_view(builder.binary),
            ),
        decreases n - pos,
    {
        // Find the end of the current line.
        let mut nl: usize = pos;
        while nl < n && input[nl] != 10u8
            invariant
                pos <= nl <= n,
                n == b.len(),
                b == input@,
                scan_to_nl(b, pos as int) == scan_to_nl(b, nl as int),
            decreases n - nl,
        {
            nl = nl + 1;
        }
        assert(scan_to_nl(b, nl as int) == nl as int);
        if nl == n {
            proof {
                reveal_with_fuel(spec_stream_run, 2);
                assert(spec_stream_run(
                    b,
                    pos as int,
                    builder.state,
                    builder.fields_v(),
                    binary_view(builder.binary),
                ) is Incomplete);
            }
            return Err(StreamError::Incomplete);
        }
        let line_bytes = vstd::slice::slice_subrange(input, pos, nl + 1);
        let line = match string_from_utf8(vstd::slice::slice_to_vec(line_bytes)) {
            Some(s) => s,
            None => {
                return Err(StreamError::Malformed);
            },
        };
        match builder.feed_line(line.as_str()) {
            Ok(FeedOutcome::Complete) => {
                proof {
                    reveal_with_fuel(spec_stream_run, 2);
                }
                let used = nl + 1;
                let resp = builder.take_response();
                return Ok((resp, used));
            },
            Ok(FeedOutcome::Continue) => {
                proof {
                    reveal_with_fuel(spec_stream_run, 2);
                }
                pos = nl + 1;
            },
            Ok(FeedOutcome::NeedBinary(len)) => {
                let start = nl + 1;
                let avail = n - start;
                if avail == 0 || len > avail - 1 {
                    proof {
                        reveal_with_fuel(spec_stream_run, 3);
                    }
                    return Err(StreamError::Incomplete);
                }
                let chunk = vstd::slice::slice_subrange(input, start, start + len);
                builder.feed_binary(vstd::slice::slice_to_vec(chunk));
                proof {
                    reveal_with_fuel(spec_stream_run, 3);
                }
                // Skip the chunk and the single trailing newline.
                pos = start + len + 1;
            },
            Err(FrameError::Backend(e)) => {
                proof {
                    reveal_with_fuel(spec_stream_run, 2);
                }
                return Err(StreamError::Backend(e));
            },
            Err(FrameError::Malformed(_)) => {
                proof {
                    reveal_with_fuel(spec_stream_run, 2);
                }
                return Err(StreamError::Malformed);
            },
        }
    }
}

} // verus!

verus! {

/// A mapping from field name to the ordered list of values carried under
/// that name, built from a response's field list.
#[derive(Debug, Clone)]
pub struct FieldMap {
    /// One entry per distinct field name, in order of first appearance.
    pub entries: Vec<(String, Vec<String>)>,
}

/// The view of a field map's entries.
pub open spec fn entries_view(entries: Seq<(String, Vec<String>)>) -> Seq<
    (Seq<char>, Seq<Seq<char>>),
> {
    Seq::new(entries.len(), |i: int| (entries[i].0@, strings_view(entries[i].1@)))
}

/// First-match association lookup among a field map's entries.
pub open spec fn spec_map_get(
    entries: Seq<(Seq<char>, Seq<Seq<char>>)>,
    name: Seq<char>,
) -> Option<Seq<Seq<char>>>
    decreases entries.len(),
{
    if entries.len() == 0 {
        None
    } else {
        let prefix = spec_map_get(entries.drop_last(), name);
        if prefix is Some {
            prefix
        } else if entries.last().0 == name {
            Some(entries.last().1)
        } else {
            None
        }
    }
}

impl FieldMap {
    /// The view of this map's entries.
    pub open spec fn entries_v(&self) -> Seq<(Seq<char>, Seq<Seq<char>>)> {
        entries_view(self.entries@)
    }

    /// Lookup by name, at the specification level.
    pub open spec fn spec_get(&self, name: Seq<char>) -> Option<Seq<Seq<char>>> {
        spec_map_get(self.entries_v(), name)
    }

    /// This map is the field map of a response with the given fields: a name
    /// maps to the ordered list of its values, and absent names to nothing.
    pub open spec fn agrees_with(&self, fields: Seq<(Seq<char>, Seq<char>)>) -> bool {
        forall|nm: Seq<char>| #[trigger] self.spec_get(nm) == (if spec_first_field(fields, nm)
            is Some {
            Some(spec_field_values(fields, nm))
        } else {
            None::<Seq<Seq<char>>>
        })
    }

    /// An empty map.
    pub fn new() -> (r: FieldMap)
        ensures
            r.entries@.len() == 0,
            r.agrees_with(Seq::empty()),
    {
        let r = FieldMap { entries: Vec::new() };
        proof {
            assert forall|nm: Seq<char>| #[trigger] r.spec_get(nm) == None::<Seq<Seq<char>>> by {
                assert(r.entries_v().len() == 0);
            }
        }
        r
    }

    /// The ordered values under `name`, if any field carried that name.
    pub fn get(&self, name: &str) -> (r: Option<&Vec<String>>)
        ensures
            match r {
                Some(v) => self.spec_get(name@) == Some(strings_view(v@)),
                None => self.spec_get(name@) is None,
            },
    {
        let n = self.entries.len();
        let mut i: usize = 0;
        while i < n
            invariant
                0 <= i <= n,
                n == self.entries@.len(),
                spec_map_get(entries_view(self.entries@.take(i as int)), name@) is None,
            decreases n - i,
        {
            proof {
                assert(entries_view(self.entries@.take(i as int + 1)).drop_last() =~= entries_view(
                    self.entries@.take(i as int),
                ));
            }
            if str_eq(self.entries[i].0.as_str(), name) {
                assert(entries_view(self.entries@.take(i as int + 1)).last().0 == name@);
                proof {
                    assert(self.entries_v().take(i as int + 1) =~= entries_view(
                        self.entries@.take(i as int + 1),
                    ));
                    lemma_map_get_extend(self.entries_v(), name@, i as int + 1);
                }
                return Some(&self.entries[i].1);
            }
            assert(entries_view(self.entries@.take(i as int + 1)).last().0 != name@);
            i = i + 1;
        }
        assert(self.entries@.take(n as int) =~= self.entries@);
        None
    }

    /// The first value under `name`, if any.
    pub fn first(&self, name: &str) -> (r: Option<&String>)
        ensures
            match r {
                Some(v) => {
                    &&& self.spec_get(name@) matches Some(vals)
                    &&& self.spec_get(name@) matches Some(vals) ==> vals.len() > 0 && vals[0]
                        == v@
                },
                None => match self.spec_get(name@) {
                    Some(vals) => vals.len() == 0,
                    None => true,
                },
            },
    {
        match self.get(name) {
            Some(vals) => {
                if vals.len() > 0 {
                    Some(&vals[0])
                } else {
                    None
                }
            },
            None => None,
        }
    }
}

/// Once the first-match scan has found a hit at position `hit`, later
/// entries cannot change the result.
proof fn lemma_map_get_extend(
    entries: Seq<(Seq<char>, Seq<Seq<char>>)>,
    name: Seq<char>,
    hit: int,
)
    requires
        0 < hit <= entries.len(),
        spec_map_get(entries.take(hit), name) is Some,
    ensures
        spec_map_get(entries, name) == spec_map_get(entries.take(hit), name),
    decreases entries.len(),
{
    if hit < entries.len() {
        assert(entries.drop_last().take(hit) =~= entries.take(hit));
        lemma_map_get_extend(entries.drop_last(), name, hit);
    } else {
        assert(entries.take(hit) =~= entries);
    }
}

impl MpdResponse {
    /// Group this response's fields by name: each distinct name maps to the
    /// ordered list of all values it carried.
    pub fn field_map(&self) -> (r: FieldMap)
        ensures
            r.agrees_with(self.fields_v()),
    {
        let n = self.fields.len();
        let mut fm = FieldMap::new();
        let ghost full = self.fields_v();
        let mut i: usize = 0;
        while i < n
            invariant
                0 <= i <= n,
                n == self.fields@.len(),
                full == self.fields_v(),
                forall|nm: Seq<char>| #[trigger] fm.spec_get(nm) == (if spec_first_field(
                    fields_view(self.fields@.take(i as int)),
                    nm,
                ) is Some {
                    Some(spec_field_values(full, nm))
                } else {
                    None::<Seq<Seq<char>>>
                }),
            decreases n - i,
        {
            let ghost pre = fields_view(self.fields@.take(i as int));
            let ghost post = fields_view(self.fields@.take(i as int + 1));
            proof {
                assert(post.drop_last() =~= pre);
            }
            let name = self.fields[i].0.clone();
            assert(post.last().0 == name@);
            let present = fm.get(name.as_str()).is_some();
            if !present {
                let vals = self.field_values(name.as_str());
                let ghost before = fm.entries_v();
                proof {
                    assert forall|nm: Seq<char>| #[trigger] spec_map_get(before, nm) == (
                    if spec_first_field(pre, nm) is Some {
                        Some(spec_field_values(full, nm))
                    } else {
                        None::<Seq<Seq<char>>>
                    }) by {
                        assert(fm.spec_get(nm) == spec_map_get(before, nm));
                    }
                }
                fm.entries.push((name, vals));
                proof {
                    assert(fm.entries_v().drop_last() =~= before);
                    assert(fm.entries_v().last().0 == post.last().0);
                    assert forall|nm: Seq<char>| #[trigger] fm.spec_get(nm) == (
                    if spec_first_field(post, nm) is Some {
                        Some(spec_field_values(full, nm))
                    } else {
                        None::<Seq<Seq<char>>>
                    }) by {
                        assert(spec_map_get(before, nm) == (if spec_first_field(pre, nm)
                            is Some {
                            Some(spec_field_values(full, nm))
                        } else {
                            None::<Seq<Seq<char>>>
                        }));
                    }
                }
            } else {
                proof {
                    assert forall|nm: Seq<char>| #[trigger] fm.spec_get(nm) == (
                    if spec_first_field(post, nm) is Some {
                        Some(spec_field_values(full, nm))
                    } else {
                        None::<Seq<Seq<char>>>
                    }) by {
                        assert(fm.spec_get(nm) == (if spec_first_field(pre, nm)
                            is Some {
                            Some(spec_field_values(full, nm))
                        } else {
                            None::<Seq<Seq<char>>>
                        }));
                    }
                }
            }
            i = i + 1;
        }
        assert(self.fields@.take(n as int) =~= self.fields@);
        fm
    }
}

} // verus!
