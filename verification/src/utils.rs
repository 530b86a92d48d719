//! Byte-level helpers shared by the canonical envelope builder: protocol
//! constants, fixed-width little-endian integer encoding, and the escaped
//! rendering of byte strings used by the text serialization.
use vstd::prelude::*;
use vstd::string::StringExecFns;

verus! {

/// Chain identifier carried in every relay envelope.
pub fn lava_chain_id() -> (r: String)
    ensures
        r@ == "lava-testnet-2"@,
{
    String::from_str("lava-testnet-2")
}

/// Specification identifier of the relayed API.
pub fn spec_id() -> (r: String)
    ensures
        r@ == "ETH1"@,
{
    String::from_str("ETH1")
}

/// Human-readable prefix of consumer addresses on the chain.
pub fn lava_chain_prefix() -> (r: String)
    ensures
        r@ == "lava@"@,
{
    String::from_str("lava@")
}

/// API interface name used for relayed JSONRPC payloads.
pub fn jsonrpc_interface() -> (r: String)
    ensures
        r@ == "jsonrpc"@,
{
    String::from_str("jsonrpc")
}

/// The little-endian byte rendering of a 64-bit integer: byte `i` holds bits
/// `8*i .. 8*i+8` of the value.
pub open spec fn u64_le_bytes(v: u64) -> Seq<u8> {
    seq![
        (v & 0xff) as u8,
        ((v >> 8) & 0xff) as u8,
        ((v >> 16) & 0xff) as u8,
        ((v >> 24) & 0xff) as u8,
        ((v >> 32) & 0xff) as u8,
        ((v >> 40) & 0xff) as u8,
        ((v >> 48) & 0xff) as u8,
        ((v >> 56) & 0xff) as u8,
    ]
}

/// Encode a 64-bit integer as exactly 8 little-endian bytes.
pub fn encode_uint64(value: u64) -> (r: Vec<u8>)
    ensures
        r@ == u64_le_bytes(value),
        r@.len() == 8,
{
    let mut buf: Vec<u8> = Vec::new();
    buf.push((value & 0xff) as u8);
    buf.push(((value >> 8) & 0xff) as u8);
    buf.push(((value >> 16) & 0xff) as u8);
    buf.push(((value >> 24) & 0xff) as u8);
    buf.push(((value >> 32) & 0xff) as u8);
    buf.push(((value >> 40) & 0xff) as u8);
    buf.push(((value >> 48) & 0xff) as u8);
    buf.push(((value >> 56) & 0xff) as u8);
    proof {
        assert(buf@ =~= u64_le_bytes(value));
    }
    buf
}

/// The digit character for a value below ten.
pub open spec fn decimal_char(d: u8) -> char {
    ((d + 0x30) as u8) as char
}

/// How one byte renders inside a quoted byte-string field: tab, newline,
/// carriage return and backslash as two-character escapes, printable ASCII
/// verbatim, a double quote escaped only on request, and every other byte as a
/// backslash followed by three octal digits.
pub open spec fn escaped_byte(b: u8, escape_quotes: bool) -> Seq<char> {
    if b == 0x09 {
        seq!['\\', 't']
    } else if b == 0x0a {
        seq!['\\', 'n']
    } else if b == 0x0d {
        seq!['\\', 'r']
    } else if b == 0x5c {
        seq!['\\', '\\']
    } else if b == 0x22 && escape_quotes {
        seq!['\\', '"']
    } else if 0x20 <= b && b <= 0x7e {
        seq![b as char]
    } else {
        seq![
            '\\',
            decimal_char((b / 64) % 8),
            decimal_char((b / 8) % 8),
            decimal_char(b % 8),
        ]
    }
}

/// The escaped rendering of a whole byte string, byte by byte in order.
pub open spec fn escaped_bytes(s: Seq<u8>, escape_quotes: bool) -> Seq<char>
    decreases s.len(),
{
    if s.len() == 0 {
        Seq::empty()
    } else {
        escaped_bytes(s.drop_last(), escape_quotes) + escaped_byte(s.last(), escape_quotes)
    }
}

/// Appending one byte to the input appends its escape to the output.
proof fn lemma_escaped_bytes_push(s: Seq<u8>, b: u8, escape_quotes: bool)
    ensures
        escaped_bytes(s.push(b), escape_quotes) == escaped_bytes(s, escape_quotes) + escaped_byte(
            b,
            escape_quotes,
        ),
{
    assert(s.push(b).drop_last() =~= s);
    assert(s.push(b).last() == b);
}

/// Append a byte slice to a byte vector.
pub fn append_bytes(dst: &mut Vec<u8>, src: &[u8])
    ensures
        final(dst)@ == old(dst)@ + src@,
{
    let len = src.len();
    assert(old(dst)@ + src@.take(0) =~= old(dst)@);
    for i in 0..len
        invariant
            len == src@.len(),
            dst@ == old(dst)@ + src@.take(i as int),
    {
        dst.push(src[i]);
        proof {
            assert(dst@ =~= old(dst)@ + src@.take(i + 1));
        }
    }
    proof {
        assert(src@.take(len as int) =~= src@);
    }
}

/// Relies on String::push: appends exactly the given character.
#[verifier::external_body]
pub(crate) fn push_char(s: &mut String, c: char)
    ensures
        final(s)@ == old(s)@.push(c),
{
    s.push(c);
}

/// Render a byte string in the escaped text form of [`escaped_bytes`].
pub fn byte_array_to_string(array: &[u8], replace_double_quotes: bool) -> (res: String)
    ensures
        res@ == escaped_bytes(array@, replace_double_quotes),
{
    let mut res = String::new();
    let len = array.len();
    assert(array@.take(0) =~= Seq::<u8>::empty());
    for i in 0..len
        invariant
            len == array@.len(),
            res@ == escaped_bytes(array@.take(i as int), replace_double_quotes),
    {
        let byte = array[i];
        let ghost prefix = array@.take(i as int);
        proof {
            lemma_escaped_bytes_push(prefix, byte, replace_double_quotes);
            assert(array@.take(i + 1) =~= prefix.push(byte));
        }
        if byte == 0x09 {
            push_char(&mut res, '\\');
            push_char(&mut res, 't');
        } else if byte == 0x0a {
            push_char(&mut res, '\\');
            push_char(&mut res, 'n');
        } else if byte == 0x0d {
            push_char(&mut res, '\\');
            push_char(&mut res, 'r');
        } else if byte == 0x5c {
            push_char(&mut res, '\\');
            push_char(&mut res, '\\');
        } else if byte == 0x22 && replace_double_quotes {
            push_char(&mut res, '\\');
            push_char(&mut res, '"');
        } else if 0x20 <= byte && byte <= 0x7e {
            push_char(&mut res, byte as char);
        } else {
            push_char(&mut res, '\\');
            push_char(&mut res, (((byte / 64) % 8) + 0x30) as char);
            push_char(&mut res, (((byte / 8) % 8) + 0x30) as char);
            push_char(&mut res, ((byte % 8) + 0x30) as char);
        }
        proof {
            assert(res@ =~= escaped_bytes(array@.take(i + 1), replace_double_quotes));
        }
    }
    proof {
        assert(array@.take(len as int) =~= array@);
    }
    res
}

} // verus!
