//! Building the JSON payloads of outgoing requests.
//!
//! Every request the client sends is a JSON object with a sequence number,
//! the fixed type tag `request`, a command name, and an arguments object.
//! The payload bytes are specified exactly: fixed ASCII pieces, decimal
//! renderings of numbers, and JSON-escaped UTF-8 for caller-supplied paths.

use vstd::prelude::*;
use crate::frame::dec_rep;

verus! {

/// The bytes of an ASCII character sequence, one byte per character.
pub open spec fn ascii_seq(s: Seq<char>) -> Seq<u8> {
    Seq::new(s.len(), |i: int| s[i] as u8)
}

/// Append `src`'s bytes to `out`.
fn append_ascii(out: &mut Vec<u8>, s: &str)
    requires
        vstd::utf8::is_ascii_chars(s@),
    ensures
        final(out)@ == old(out)@ + ascii_seq(s@),
{
    let mut bytes = s.as_bytes_vec();
    proof {
        vstd::utf8::is_ascii_chars_encode_utf8(s@);
        assert(bytes@ =~= ascii_seq(s@));
    }
    out.append(&mut bytes);
}

/// Lowercase hex digit byte for a value below sixteen.
pub open spec fn hex_digit(n: u8) -> u8 {
    if n < 10 {
        (48 + n) as u8
    } else {
        (87 + n) as u8
    }
}

/// JSON escaping of one byte of UTF-8 text: quote, backslash and control
/// bytes are escaped; every other byte, continuation bytes included, passes
/// through unchanged.
pub open spec fn esc_byte(b: u8) -> Seq<u8> {
    if b == 34 {
        seq![92u8, 34u8]
    } else if b == 92 {
        seq![92u8, 92u8]
    } else if b == 10 {
        seq![92u8, 110u8]
    } else if b == 13 {
        seq![92u8, 114u8]
    } else if b == 9 {
        seq![92u8, 116u8]
    } else if b < 32 {
        seq![92u8, 117u8, 48u8, 48u8, hex_digit(b / 16), hex_digit(b % 16)]
    } else {
        seq![b]
    }
}

/// JSON escaping of a byte string.
pub open spec fn esc_bytes(s: Seq<u8>) -> Seq<u8>
    decreases s.len(),
{
    if s.len() == 0 {
        Seq::empty()
    } else {
        esc_bytes(s.drop_last()) + esc_byte(s.last())
    }
}

/// The JSON-escaped bytes of a string's UTF-8 encoding.
pub open spec fn esc_str(s: Seq<char>) -> Seq<u8> {
    esc_bytes(vstd::utf8::encode_utf8(s))
}

/// Append the JSON-escaped UTF-8 bytes of `s` to `out`.
fn append_escaped(out: &mut Vec<u8>, s: &str)
    ensures
        final(out)@ == old(out)@ + esc_str(s@),
{
    let bytes = s.as_bytes_vec();
    let mut i: usize = 0;
    while i < bytes.len()
        invariant
            i <= bytes@.len(),
            out@ == old(out)@ + esc_bytes(bytes@.take(i as int)),
        decreases bytes@.len() - i,
    {
        let b = bytes[i];
        if b == 34 {
            out.push(92);
            out.push(34);
        } else if b == 92 {
            out.push(92);
            out.push(92);
        } else if b == 10 {
            out.push(92);
            out.push(110);
        } else if b == 13 {
            out.push(92);
            out.push(114);
        } else if b == 9 {
            out.push(92);
            out.push(116);
        } else if b < 32 {
            out.push(92);
            out.push(117);
            out.push(48);
            out.push(48);
            let hi = b / 16;
            let lo = b % 16;
            out.push(if hi < 10 { 48 + hi } else { 87 + hi });
            out.push(if lo < 10 { 48 + lo } else { 87 + lo });
        } else {
            out.push(b);
        }
        i = i + 1;
        proof {
            assert(bytes@.take(i as int).drop_last() =~= bytes@.take(i - 1));
            assert(bytes@.take(i as int).last() == b);
            assert(out@ =~= old(out)@ + esc_bytes(bytes@.take(i as int)));
        }
    }
    proof {
        assert(bytes@.take(bytes@.len() as int) =~= bytes@);
    }
}

/// Render `n` in decimal.
pub fn fmt_decimal_u64(n: u64) -> (r: Vec<u8>)
    ensures
        r@ == dec_rep(n as nat),
    decreases n,
{
    if n < 10 {
        let mut v: Vec<u8> = Vec::new();
        v.push(48 + n as u8);
        proof {
            assert(v@ =~= dec_rep(n as nat));
        }
        v
    } else {
        let mut v = fmt_decimal_u64(n / 10);
        v.push(48 + (n % 10) as u8);
        proof {
            assert(v@ =~= dec_rep(n as nat));
        }
        v
    }
}

/// The JSON payload of one request: its sequence number, the fixed type tag,
/// the command, and its arguments object.
pub open spec fn payload_of(seq_no: u64, command: Seq<char>, args: Seq<u8>) -> Seq<u8> {
    ascii_seq("{\"seq\":"@) + dec_rep(seq_no as nat) + ascii_seq(
        ",\"type\":\"request\",\"command\":\""@,
    ) + ascii_seq(command) + ascii_seq("\",\"arguments\":"@) + args + ascii_seq("}"@)
}

/// Build the payload bytes for request number `seq_no` carrying `command`
/// and the given arguments object.
pub fn build_payload(seq_no: u64, command: &str, args: &Vec<u8>) -> (r: Vec<u8>)
    requires
        vstd::utf8::is_ascii_chars(command@),
    ensures
        r@ == payload_of(seq_no, command@, args@),
{
    proof {
        reveal_strlit("{\"seq\":");
        reveal_strlit(",\"type\":\"request\",\"command\":\"");
        reveal_strlit("\",\"arguments\":");
        reveal_strlit("}");
        assert(vstd::utf8::is_ascii_chars("{\"seq\":"@));
        assert(vstd::utf8::is_ascii_chars(",\"type\":\"request\",\"command\":\""@));
        assert(vstd::utf8::is_ascii_chars("\",\"arguments\":"@));
        assert(vstd::utf8::is_ascii_chars("}"@));
    }
    let mut out: Vec<u8> = Vec::new();
    append_ascii(&mut out, "{\"seq\":");
    let mut digits = fmt_decimal_u64(seq_no);
    out.append(&mut digits);
    append_ascii(&mut out, ",\"type\":\"request\",\"command\":\"");
    append_ascii(&mut out, command);
    append_ascii(&mut out, "\",\"arguments\":");
    let mut args_bytes = args.clone();
    out.append(&mut args_bytes);
    append_ascii(&mut out, "}");
    proof {
        assert(out@ =~= payload_of(seq_no, command@, args@));
    }
    out
}

/// The empty arguments object.
pub fn args_empty() -> (r: Vec<u8>)
    ensures
        r@ == ascii_seq("{}"@),
{
    proof {
        reveal_strlit("{}");
        assert(vstd::utf8::is_ascii_chars("{}"@));
    }
    let mut out: Vec<u8> = Vec::new();
    append_ascii(&mut out, "{}");
    proof {
        assert(out@ =~= ascii_seq("{}"@));
    }
    out
}

/// An arguments object with a single unsigned integer field.
pub open spec fn uint_args_of(key: Seq<char>, value: u64) -> Seq<u8> {
    ascii_seq("{\""@) + ascii_seq(key) + ascii_seq("\":"@) + dec_rep(value as nat) + ascii_seq(
        "}"@,
    )
}

/// Build `{"<key>":<value>}`, the arguments shape of every control and
/// inspection request.
pub fn args_uint(key: &str, value: u64) -> (r: Vec<u8>)
    requires
        vstd::utf8::is_ascii_chars(key@),
    ensures
        r@ == uint_args_of(key@, value),
{
    proof {
        reveal_strlit("{\"");
        reveal_strlit("\":");
        reveal_strlit("}");
        assert(vstd::utf8::is_ascii_chars("{\""@));
        assert(vstd::utf8::is_ascii_chars("\":"@));
        assert(vstd::utf8::is_ascii_chars("}"@));
    }
    let mut out: Vec<u8> = Vec::new();
    append_ascii(&mut out, "{\"");
    append_ascii(&mut out, key);
    append_ascii(&mut out, "\":");
    let mut digits = fmt_decimal_u64(value);
    out.append(&mut digits);
    append_ascii(&mut out, "}");
    proof {
        assert(out@ =~= uint_args_of(key@, value));
    }
    out
}

/// The fixed arguments of the `initialize` request: the client announces
/// itself and the capabilities it expects.
pub open spec fn initialize_args() -> Seq<u8> {
    ascii_seq(
        "{\"clientID\":\"pyra\",\"clientName\":\"Pyra IDE\",\"adapterID\":\"python\",\"pathFormat\":\"path\",\"linesStartAt1\":true,\"columnsStartAt1\":true,\"supportsVariableType\":true,\"supportsVariablePaging\":false,\"supportsRunInTerminalRequest\":false}"@,
    )
}

/// Build the `initialize` arguments object.
pub fn args_initialize() -> (r: Vec<u8>)
    ensures
        r@ == initialize_args(),
{
    proof {
        reveal_strlit(
            "{\"clientID\":\"pyra\",\"clientName\":\"Pyra IDE\",\"adapterID\":\"python\",\"pathFormat\":\"path\",\"linesStartAt1\":true,\"columnsStartAt1\":true,\"supportsVariableType\":true,\"supportsVariablePaging\":false,\"supportsRunInTerminalRequest\":false}",
        );
        assert(vstd::utf8::is_ascii_chars(
            "{\"clientID\":\"pyra\",\"clientName\":\"Pyra IDE\",\"adapterID\":\"python\",\"pathFormat\":\"path\",\"linesStartAt1\":true,\"columnsStartAt1\":true,\"supportsVariableType\":true,\"supportsVariablePaging\":false,\"supportsRunInTerminalRequest\":false}"@,
        ));
    }
    let mut out: Vec<u8> = Vec::new();
    append_ascii(
        &mut out,
        "{\"clientID\":\"pyra\",\"clientName\":\"Pyra IDE\",\"adapterID\":\"python\",\"pathFormat\":\"path\",\"linesStartAt1\":true,\"columnsStartAt1\":true,\"supportsVariableType\":true,\"supportsVariablePaging\":false,\"supportsRunInTerminalRequest\":false}",
    );
    proof {
        assert(out@ =~= initialize_args());
    }
    out
}

/// The arguments of the `launch` request: the fixed launch profile plus the
/// script to run and the directory to run it in.
pub open spec fn launch_args_of(program: Seq<char>, cwd: Seq<char>) -> Seq<u8> {
    ascii_seq(
        "{\"name\":\"Python: Current File\",\"type\":\"python\",\"request\":\"launch\",\"program\":\""@,
    ) + esc_str(program) + ascii_seq("\",\"cwd\":\""@) + esc_str(cwd) + ascii_seq(
        "\",\"console\":\"integratedTerminal\",\"justMyCode\":true,\"stopOnEntry\":false}"@,
    )
}

/// Build the `launch` arguments object for `program` run inside `cwd`.
pub fn args_launch(program: &str, cwd: &str) -> (r: Vec<u8>)
    ensures
        r@ == launch_args_of(program@, cwd@),
{
    proof {
        reveal_strlit(
            "{\"name\":\"Python: Current File\",\"type\":\"python\",\"request\":\"launch\",\"program\":\"",
        );
        reveal_strlit("\",\"cwd\":\"");
        reveal_strlit("\",\"console\":\"integratedTerminal\",\"justMyCode\":true,\"stopOnEntry\":false}");
        assert(vstd::utf8::is_ascii_chars(
            "{\"name\":\"Python: Current File\",\"type\":\"python\",\"request\":\"launch\",\"program\":\""@,
        ));
        assert(vstd::utf8::is_ascii_chars("\",\"cwd\":\""@));
        assert(vstd::utf8::is_ascii_chars(
            "\",\"console\":\"integratedTerminal\",\"justMyCode\":true,\"stopOnEntry\":false}"@,
        ));
    }
    let mut out: Vec<u8> = Vec::new();
    append_ascii(
        &mut out,
        "{\"name\":\"Python: Current File\",\"type\":\"python\",\"request\":\"launch\",\"program\":\"",
    );
    append_escaped(&mut out, program);
    append_ascii(&mut out, "\",\"cwd\":\"");
    append_escaped(&mut out, cwd);
    append_ascii(
        &mut out,
        "\",\"console\":\"integratedTerminal\",\"justMyCode\":true,\"stopOnEntry\":false}",
    );
    proof {
        assert(out@ =~= launch_args_of(program@, cwd@));
    }
    out
}

/// One `{"line":<n>}` record of a `setBreakpoints` request.
pub open spec fn breakpoint_item(line: u32) -> Seq<u8> {
    ascii_seq("{\"line\":"@) + dec_rep(line as nat) + ascii_seq("}"@)
}

/// The comma-separated breakpoint records, in caller order.
pub open spec fn breakpoint_items(lines: Seq<u32>) -> Seq<u8>
    decreases lines.len(),
{
    if lines.len() == 0 {
        Seq::empty()
    } else if lines.len() == 1 {
        breakpoint_item(lines[0])
    } else {
        breakpoint_items(lines.drop_last()) + ascii_seq(","@) + breakpoint_item(lines.last())
    }
}

/// The arguments of a `setBreakpoints` request: the source file and one
/// record per requested line.
pub open spec fn set_breakpoints_args_of(path: Seq<char>, lines: Seq<u32>) -> Seq<u8> {
    ascii_seq("{\"source\":{\"path\":\""@) + esc_str(path) + ascii_seq("\"},\"breakpoints\":["@)
        + breakpoint_items(lines) + ascii_seq("]}"@)
}

/// Build the `setBreakpoints` arguments object for `path` and `lines`.
pub fn args_set_breakpoints(path: &str, lines: &Vec<u32>) -> (r: Vec<u8>)
    ensures
        r@ == set_breakpoints_args_of(path@, lines@),
{
    proof {
        reveal_strlit("{\"source\":{\"path\":\"");
        reveal_strlit("\"},\"breakpoints\":[");
        reveal_strlit("]}");
        reveal_strlit("{\"line\":");
        reveal_strlit("}");
        reveal_strlit(",");
        assert(vstd::utf8::is_ascii_chars("{\"source\":{\"path\":\""@));
        assert(vstd::utf8::is_ascii_chars("\"},\"breakpoints\":["@));
        assert(vstd::utf8::is_ascii_chars("]}"@));
        assert(vstd::utf8::is_ascii_chars("{\"line\":"@));
        assert(vstd::utf8::is_ascii_chars("}"@));
        assert(vstd::utf8::is_ascii_chars(","@));
    }
    let mut out: Vec<u8> = Vec::new();
    append_ascii(&mut out, "{\"source\":{\"path\":\"");
    append_escaped(&mut out, path);
    append_ascii(&mut out, "\"},\"breakpoints\":[");
    let ghost head = out@;
    let mut i: usize = 0;
    while i < lines.len()
        invariant
            i <= lines@.len(),
            out@ == head + breakpoint_items(lines@.take(i as int)),
            vstd::utf8::is_ascii_chars("{\"line\":"@),
            vstd::utf8::is_ascii_chars("}"@),
            vstd::utf8::is_ascii_chars(","@),
        decreases lines@.len() - i,
    {
        if i > 0 {
            append_ascii(&mut out, ",");
        }
        append_ascii(&mut out, "{\"line\":");
        let mut digits = fmt_decimal_u64(lines[i] as u64);
        out.append(&mut digits);
        append_ascii(&mut out, "}");
        i = i + 1;
        proof {
            let pre = lines@.take(i as int);
            assert(pre.drop_last() =~= lines@.take(i - 1));
            assert(pre.last() == lines@[i - 1]);
            assert(out@ =~= head + breakpoint_items(pre));
        }
    }
    proof {
        assert(lines@.take(lines@.len() as int) =~= lines@);
    }
    append_ascii(&mut out, "]}");
    proof {
        assert(out@ =~= set_breakpoints_args_of(path@, lines@));
    }
    out
}

} // verus!
