//! The wire encoding of a sync request: the canonical JSON text
//! `{"account_id":<integer>,"keep":[<string>...],"remove":[<string>...]}`,
//! built over UTF-8 bytes with the usual JSON string escapes.

use vstd::prelude::*;
use vstd::utf8::encode_utf8;

use crate::types::{SyncRequest, str_views};

verus! {

/// The byte standing for one hexadecimal digit, lower case.
pub open spec fn hex_digit(d: nat) -> u8 {
    if d < 10 {
        (0x30 + d) as u8
    } else {
        (0x61 + (d - 10)) as u8
    }
}

/// The JSON escape of one byte of a UTF-8 string: quote and backslash are
/// escaped, the named control characters shortly, other control characters
/// as `\u00..`, and everything else stands for itself.
pub open spec fn escape_byte(b: u8) -> Seq<u8> {
    if b == 0x22 {
        seq![0x5c, 0x22]
    } else if b == 0x5c {
        seq![0x5c, 0x5c]
    } else if b == 0x08 {
        seq![0x5c, 0x62]
    } else if b == 0x09 {
        seq![0x5c, 0x74]
    } else if b == 0x0a {
        seq![0x5c, 0x6e]
    } else if b == 0x0c {
        seq![0x5c, 0x66]
    } else if b == 0x0d {
        seq![0x5c, 0x72]
    } else if b < 0x20 {
        seq![0x5c, 0x75, 0x30, 0x30, hex_digit((b / 16) as nat), hex_digit((b % 16) as nat)]
    } else {
        seq![b]
    }
}

/// A byte sequence with every byte escaped.
pub open spec fn escaped(bs: Seq<u8>) -> Seq<u8>
    decreases bs.len(),
{
    if bs.len() == 0 {
        Seq::empty()
    } else {
        escaped(bs.drop_last()) + escape_byte(bs.last())
    }
}

/// A JSON string literal: the escaped UTF-8 bytes between quotes.
pub open spec fn json_str(s: Seq<char>) -> Seq<u8> {
    seq![0x22] + escaped(encode_utf8(s)) + seq![0x22]
}

/// The decimal digits of a natural number.
pub open spec fn dec_digits(n: nat) -> Seq<u8>
    decreases n,
{
    if n < 10 {
        seq![(0x30 + n) as u8]
    } else {
        dec_digits(n / 10) + seq![(0x30 + n % 10) as u8]
    }
}

/// The decimal rendering of an integer, with a leading minus when negative.
pub open spec fn dec_int(v: int) -> Seq<u8> {
    if v < 0 {
        seq![0x2d] + dec_digits((-v) as nat)
    } else {
        dec_digits(v as nat)
    }
}

/// The comma-separated items of a JSON array of strings.
pub open spec fn json_str_items(ss: Seq<Seq<char>>) -> Seq<u8>
    decreases ss.len(),
{
    if ss.len() == 0 {
        Seq::empty()
    } else if ss.len() == 1 {
        json_str(ss[0])
    } else {
        json_str_items(ss.drop_last()) + seq![0x2c] + json_str(ss.last())
    }
}

/// A JSON array of strings.
pub open spec fn json_str_array(ss: Seq<Seq<char>>) -> Seq<u8> {
    seq![0x5b] + json_str_items(ss) + seq![0x5d]
}

/// `{"account_id":` — the opening of the request object.
pub open spec fn obj_head() -> Seq<u8> {
    seq![0x7b, 0x22, 0x61, 0x63, 0x63, 0x6f, 0x75, 0x6e, 0x74, 0x5f, 0x69, 0x64, 0x22, 0x3a]
}

/// `,"keep":` — the key of the retained identifiers.
pub open spec fn keep_key() -> Seq<u8> {
    seq![0x2c, 0x22, 0x6b, 0x65, 0x65, 0x70, 0x22, 0x3a]
}

/// `,"remove":` — the key of the revoked identifiers.
pub open spec fn remove_key() -> Seq<u8> {
    seq![0x2c, 0x22, 0x72, 0x65, 0x6d, 0x6f, 0x76, 0x65, 0x22, 0x3a]
}

/// The full body of a sync request.
pub open spec fn sync_request_bytes(
    account_id: int,
    keep: Seq<Seq<char>>,
    remove: Seq<Seq<char>>,
) -> Seq<u8> {
    obj_head() + dec_int(account_id) + keep_key() + json_str_array(keep) + remove_key()
        + json_str_array(remove) + seq![0x7d]
}

proof fn lemma_escaped_take_step(bs: Seq<u8>, i: int)
    requires
        0 <= i < bs.len(),
    ensures
        escaped(bs.take(i + 1)) == escaped(bs.take(i)) + escape_byte(bs[i]),
{
    assert(bs.take(i + 1).drop_last() =~= bs.take(i));
    assert(bs.take(i + 1).last() == bs[i]);
}

proof fn lemma_items_take_step(ss: Seq<Seq<char>>, i: int)
    requires
        0 <= i < ss.len(),
    ensures
        json_str_items(ss.take(i + 1)) == (if i == 0 {
            json_str(ss[0])
        } else {
            json_str_items(ss.take(i)) + seq![0x2c] + json_str(ss[i])
        }),
{
    assert(ss.take(i + 1).drop_last() =~= ss.take(i));
    assert(ss.take(i + 1).last() == ss[i]);
    if i == 0 {
        assert(ss.take(1).len() == 1);
        assert(ss.take(1)[0] == ss[0]);
    }
}

/// Appends the decimal digits of `n`.
fn push_dec_u32(out: &mut Vec<u8>, n: u32)
    ensures
        final(out)@ == old(out)@ + dec_digits(n as nat),
    decreases n,
{
    if n >= 10 {
        push_dec_u32(out, n / 10);
    }
    let d: u8 = 0x30 + (n % 10) as u8;
    out.push(d);
    proof {
        if n < 10 {
            assert(out@ =~= old(out)@ + dec_digits(n as nat));
        } else {
            assert(dec_digits(n as nat) == dec_digits((n / 10) as nat) + seq![
                (0x30 + (n as nat) % 10) as u8,
            ]);
            assert(out@ =~= old(out)@ + dec_digits(n as nat));
        }
    }
}

/// Appends the decimal rendering of `v`.
fn push_dec_i32(out: &mut Vec<u8>, v: i32)
    ensures
        final(out)@ == old(out)@ + dec_int(v as int),
{
    if v < 0 {
        out.push(0x2d);
        let m: u32 = (-(v as i64)) as u32;
        proof {
            assert(m as nat == (-(v as int)) as nat);
        }
        push_dec_u32(out, m);
        proof {
            assert(out@ =~= old(out)@ + dec_int(v as int));
        }
    } else {
        push_dec_u32(out, v as u32);
    }
}

/// Appends the JSON escape of one byte.
fn push_escaped_byte(out: &mut Vec<u8>, b: u8)
    ensures
        final(out)@ == old(out)@ + escape_byte(b),
{
    if b == 0x22 {
        out.push(0x5c);
        out.push(0x22);
    } else if b == 0x5c {
        out.push(0x5c);
        out.push(0x5c);
    } else if b == 0x08 {
        out.push(0x5c);
        out.push(0x62);
    } else if b == 0x09 {
        out.push(0x5c);
        out.push(0x74);
    } else if b == 0x0a {
        out.push(0x5c);
        out.push(0x6e);
    } else if b == 0x0c {
        out.push(0x5c);
        out.push(0x66);
    } else if b == 0x0d {
        out.push(0x5c);
        out.push(0x72);
    } else if b < 0x20 {
        out.push(0x5c);
        out.push(0x75);
        out.push(0x30);
        out.push(0x30);
        let hi = b / 16;
        let lo = b % 16;
        let dh: u8 = if hi < 10 {
            0x30 + hi
        } else {
            0x61 + (hi - 10)
        };
        let dl: u8 = if lo < 10 {
            0x30 + lo
        } else {
            0x61 + (lo - 10)
        };
        out.push(dh);
        out.push(dl);
    } else {
        out.push(b);
    }
    proof {
        assert(out@ =~= old(out)@ + escape_byte(b));
    }
}

/// Appends a JSON string literal holding the given text.
fn push_json_str(out: &mut Vec<u8>, s: &str)
    ensures
        final(out)@ == old(out)@ + json_str(s@),
{
    out.push(0x22);
    let bs = s.as_bytes();
    let n = bs.len();
    let mut i: usize = 0;
    while i < n
        invariant
            n == bs@.len(),
            i <= n,
            out@ == old(out)@ + seq![0x22u8] + escaped(bs@.take(i as int)),
        decreases n - i,
    {
        push_escaped_byte(out, bs[i]);
        proof {
            lemma_escaped_take_step(bs@, i as int);
        }
        i = i + 1;
    }
    out.push(0x22);
    proof {
        assert(bs@.take(n as int) =~= bs@);
        assert(bs@ == encode_utf8(s@));
        assert(out@ =~= old(out)@ + json_str(s@));
    }
}

/// Appends a JSON array holding the given strings, in order.
fn push_json_str_array(out: &mut Vec<u8>, ss: &Vec<String>)
    ensures
        final(out)@ == old(out)@ + json_str_array(str_views(ss@)),
{
    out.push(0x5b);
    let n = ss.len();
    let mut i: usize = 0;
    while i < n
        invariant
            n == ss@.len(),
            i <= n,
            out@ == old(out)@ + seq![0x5bu8] + json_str_items(str_views(ss@).take(i as int)),
        decreases n - i,
    {
        if i > 0 {
            out.push(0x2c);
        }
        push_json_str(out, ss[i].as_str());
        proof {
            lemma_items_take_step(str_views(ss@), i as int);
            assert(str_views(ss@)[i as int] == ss@[i as int]@);
            assert(out@ =~= old(out)@ + seq![0x5bu8] + json_str_items(
                str_views(ss@).take(i as int + 1),
            ));
        }
        i = i + 1;
    }
    out.push(0x5d);
    proof {
        assert(str_views(ss@).take(n as int) =~= str_views(ss@));
        assert(out@ =~= old(out)@ + json_str_array(str_views(ss@)));
    }
}

/// Serializes a sync request to its canonical JSON body.
pub fn encode_sync_request(req: &SyncRequest) -> (r: Vec<u8>)
    ensures
        r@ == sync_request_bytes(req.account_id as int, str_views(req.keep@), str_views(req.remove@)),
{
    let mut out: Vec<u8> = Vec::new();
    out.push(0x7b);
    out.push(0x22);
    out.push(0x61);
    out.push(0x63);
    out.push(0x63);
    out.push(0x6f);
    out.push(0x75);
    out.push(0x6e);
    out.push(0x74);
    out.push(0x5f);
    out.push(0x69);
    out.push(0x64);
    out.push(0x22);
    out.push(0x3a);
    proof {
        assert(out@ =~= obj_head());
    }
    push_dec_i32(&mut out, req.account_id);
    out.push(0x2c);
    out.push(0x22);
    out.push(0x6b);
    out.push(0x65);
    out.push(0x65);
    out.push(0x70);
    out.push(0x22);
    out.push(0x3a);
    proof {
        assert(out@ =~= obj_head() + dec_int(req.account_id as int) + keep_key());
    }
    push_json_str_array(&mut out, &req.keep);
    out.push(0x2c);
    out.push(0x22);
    out.push(0x72);
    out.push(0x65);
    out.push(0x6d);
    out.push(0x6f);
    out.push(0x76);
    out.push(0x65);
    out.push(0x22);
    out.push(0x3a);
    proof {
        assert(out@ =~= obj_head() + dec_int(req.account_id as int) + keep_key() + json_str_array(
            str_views(req.keep@),
        ) + remove_key());
    }
    push_json_str_array(&mut out, &req.remove);
    out.push(0x7d);
    proof {
        assert(out@ =~= sync_request_bytes(
            req.account_id as int,
            str_views(req.keep@),
            str_views(req.remove@),
        ));
    }
    out
}

} // verus!
