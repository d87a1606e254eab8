//! The executable wire codec. `encode_*` produces exactly the byte string
//! of the specification-level encoding; `decode_*` returns a message
//! exactly when its input is such an encoding. Together with the
//! injectivity of the encoding this gives the round-trip identity:
//! decoding an encoded message yields the message back.

#![verifier::loop_isolation(false)]

use vstd::prelude::*;

verus! {

use crate::message::ClientMessage;
use crate::message::LoginStatus;
use crate::message::ServerInfo;
use crate::message::ServerMessage;
use crate::message::client_message_equiv;
use crate::message::dec_le;
use crate::message::enc_bytes;
use crate::message::enc_compatibility;
use crate::message::enc_direction;
use crate::message::enc_le;
use crate::message::enc_login_status;
use crate::message::pow256;
use crate::message::server_message_equiv;
use crate::message::spec_encode_client;
use crate::message::spec_encode_server;
use crate::message::valid_client_message;
use crate::message::valid_server_message;
use crate::util::Direction;
use crate::version::Compatibility;

proof fn lemma_dec_le_bound(s: Seq<u8>)
    ensures
        dec_le(s) < pow256(s.len() as nat),
    decreases s.len(),
{
    if s.len() > 0 {
        lemma_dec_le_bound(s.drop_first());
    }
}

/// Reading a little-endian byte string and writing the value back gives
/// the same bytes.
proof fn lemma_enc_dec_id(s: Seq<u8>)
    ensures
        enc_le(dec_le(s), s.len() as nat) == s,
    decreases s.len(),
{
    if s.len() == 0 {
        assert(enc_le(dec_le(s), 0) =~= s);
    } else {
        let rest = s.drop_first();
        lemma_enc_dec_id(rest);
        lemma_dec_le_bound(rest);
        assert(dec_le(s) == s[0] + 256 * dec_le(rest));
        assert(dec_le(s) % 256 == s[0] && dec_le(s) / 256 == dec_le(rest)) by {
            vstd::arithmetic::div_mod::lemma_fundamental_div_mod_converse(
                dec_le(s) as int,
                256,
                dec_le(rest) as int,
                s[0] as int,
            );
        }
        assert(enc_le(dec_le(s), s.len() as nat) =~= s);
    }
}

/// Appends the two little-endian bytes of `x`.
fn write_le2(out: &mut Vec<u8>, x: u16)
    ensures
        final(out)@ == old(out)@ + enc_le(x as nat, 2),
{
    let b0 = (x % 256) as u8;
    let b1 = ((x / 256) % 256) as u8;
    out.push(b0);
    out.push(b1);
    proof {
        let x1 = (x as nat) / 256;
        assert(x1 < 256) by {
            vstd::arithmetic::div_mod::lemma_multiply_divide_lt(x as int, 256, 256);
        }
        vstd::arithmetic::div_mod::lemma_small_mod(x1, 256);
        assert(x1 / 256 == 0) by {
            vstd::arithmetic::div_mod::lemma_basic_div(x1 as int, 256);
        }
        assert(enc_le(x1 / 256, 0) == Seq::<u8>::empty());
        assert(enc_le(x1, 1) =~= seq![b1]);
        assert(enc_le(x as nat, 2) =~= seq![b0] + enc_le(x1, 1));
        assert(out@ =~= old(out)@ + enc_le(x as nat, 2));
    }
}

/// Appends the eight little-endian bytes of `x`.
fn write_le8(out: &mut Vec<u8>, x: u64)
    ensures
        final(out)@ == old(out)@ + enc_le(x as nat, 8),
{
    let b0 = (x % 256) as u8;
    let x1 = x / 256;
    let b1 = (x1 % 256) as u8;
    let x2 = x1 / 256;
    let b2 = (x2 % 256) as u8;
    let x3 = x2 / 256;
    let b3 = (x3 % 256) as u8;
    let x4 = x3 / 256;
    let b4 = (x4 % 256) as u8;
    let x5 = x4 / 256;
    let b5 = (x5 % 256) as u8;
    let x6 = x5 / 256;
    let b6 = (x6 % 256) as u8;
    let x7 = x6 / 256;
    let b7 = (x7 % 256) as u8;
    out.push(b0);
    out.push(b1);
    out.push(b2);
    out.push(b3);
    out.push(b4);
    out.push(b5);
    out.push(b6);
    out.push(b7);
    proof {
        lemma_pow256_values();
        assert(x1 < 0x100000000000000) by {
            vstd::arithmetic::div_mod::lemma_multiply_divide_lt(x as int, 256, 0x100000000000000);
        }
        assert(x2 < 0x1000000000000) by {
            vstd::arithmetic::div_mod::lemma_multiply_divide_lt(x1 as int, 256, 0x1000000000000);
        }
        assert(x3 < 0x10000000000) by {
            vstd::arithmetic::div_mod::lemma_multiply_divide_lt(x2 as int, 256, 0x10000000000);
        }
        assert(x4 < 0x100000000) by {
            vstd::arithmetic::div_mod::lemma_multiply_divide_lt(x3 as int, 256, 0x100000000);
        }
        assert(x5 < 0x1000000) by {
            vstd::arithmetic::div_mod::lemma_multiply_divide_lt(x4 as int, 256, 0x1000000);
        }
        assert(x6 < 0x10000) by {
            vstd::arithmetic::div_mod::lemma_multiply_divide_lt(x5 as int, 256, 0x10000);
        }
        assert(x7 < 0x100) by {
            vstd::arithmetic::div_mod::lemma_multiply_divide_lt(x6 as int, 256, 0x100);
        }
        vstd::arithmetic::div_mod::lemma_small_mod(x7 as nat, 256);
        assert(x7 as nat / 256 == 0) by {
            vstd::arithmetic::div_mod::lemma_basic_div(x7 as int, 256);
        }
        assert(enc_le(x7 as nat / 256, 0) == Seq::<u8>::empty());
        assert(enc_le(x7 as nat, 1) =~= seq![b7]);
        assert(enc_le(x6 as nat, 2) =~= seq![b6] + enc_le(x7 as nat, 1));
        assert(enc_le(x5 as nat, 3) =~= seq![b5] + enc_le(x6 as nat, 2));
        assert(enc_le(x4 as nat, 4) =~= seq![b4] + enc_le(x5 as nat, 3));
        assert(enc_le(x3 as nat, 5) =~= seq![b3] + enc_le(x4 as nat, 4));
        assert(enc_le(x2 as nat, 6) =~= seq![b2] + enc_le(x3 as nat, 5));
        assert(enc_le(x1 as nat, 7) =~= seq![b1] + enc_le(x2 as nat, 6));
        assert(enc_le(x as nat, 8) =~= seq![b0] + enc_le(x1 as nat, 7));
        assert(out@ =~= old(out)@ + enc_le(x as nat, 8));
    }
}

/// Reads the two-byte little-endian value at `off`.
fn read_le2(bytes: &[u8], off: usize) -> (r: u16)
    requires
        off + 2 <= bytes@.len(),
    ensures
        r as nat == dec_le(bytes@.subrange(off as int, off as int + 2)),
{
    let b0 = bytes[off];
    let b1 = bytes[off + 1];
    let r = (b0 as u16) + 256 * (b1 as u16);
    proof {
        let s = bytes@.subrange(off as int, off as int + 2);
        assert(s.drop_first() =~= bytes@.subrange(off as int + 1, off as int + 2));
        assert(s.drop_first().drop_first() =~= Seq::<u8>::empty());
        assert(s.drop_first()[0] == b1);
        assert(s[0] == b0);
        assert(dec_le(Seq::<u8>::empty()) == 0);
        assert(dec_le(s.drop_first()) == b1 as nat);
        assert(dec_le(s) == b0 + 256 * (b1 as nat));
    }
    r
}

/// Reads the eight-byte little-endian value at `off`.
fn read_le8(bytes: &[u8], off: usize) -> (r: u64)
    requires
        off + 8 <= bytes@.len(),
    ensures
        r as nat == dec_le(bytes@.subrange(off as int, off as int + 8)),
{
    let ghost s = bytes@.subrange(off as int, off as int + 8);
    let n = bytes.len();
    proof {
        assert(off + 8 <= n);
    }
    let mut acc: u64 = 0;
    let mut i: usize = 8;
    while i > 0
        invariant
            i <= 8,
            off + 8 <= n,
            n == bytes@.len(),
            s == bytes@.subrange(off as int, off as int + 8),
            acc as nat == dec_le(s.skip(i as int)),
        decreases i,
    {
        proof {
            lemma_pow256_values();
            lemma_dec_le_bound(s.skip(i as int));
            assert(s.skip(i as int - 1).drop_first() =~= s.skip(i as int));
            assert(s.skip(i as int - 1)[0] == bytes@[off + i - 1]);
            assert(pow256((8 - i) as nat) <= pow256(7)) by {
                lemma_pow256_mono((8 - i) as nat, 7);
            }
            assert(acc < 0x100000000000000);
        }
        i -= 1;
        acc = (bytes[off + i] as u64) + 256 * acc;
    }
    proof {
        assert(s.skip(0) =~= s);
    }
    acc
}

/// The concrete powers of 256 the codec uses.
proof fn lemma_pow256_values()
    ensures
        pow256(0) == 1,
        pow256(1) == 0x100,
        pow256(2) == 0x10000,
        pow256(7) == 0x100000000000000,
        pow256(8) == 0x10000000000000000,
{
    assert(pow256(0) == 1);
    assert(pow256(1) == 0x100);
    assert(pow256(2) == 0x10000);
    assert(pow256(3) == 0x1000000);
    assert(pow256(4) == 0x100000000);
    assert(pow256(5) == 0x10000000000);
    assert(pow256(6) == 0x1000000000000);
    assert(pow256(7) == 0x100000000000000);
    assert(pow256(8) == 0x10000000000000000);
}

proof fn lemma_pow256_mono(a: nat, b: nat)
    requires
        a <= b,
    ensures
        pow256(a) <= pow256(b),
    decreases b,
{
    if a < b {
        lemma_pow256_mono(a, (b - 1) as nat);
    }
}

/// Appends a length-prefixed byte vector.
fn write_bytes(out: &mut Vec<u8>, v: &Vec<u8>)
    requires
        v@.len() <= 65535,
    ensures
        final(out)@ == old(out)@ + enc_bytes(v@),
{
    write_le2(out, v.len() as u16);
    let mut i: usize = 0;
    while i < v.len()
        invariant
            i <= v@.len(),
            out@ == old(out)@ + enc_le(v@.len() as nat, 2) + v@.take(i as int),
        decreases v@.len() - i,
    {
        out.push(v[i]);
        proof {
            assert(v@.take(i as int + 1) =~= v@.take(i as int).push(v@[i as int]));
            assert(out@ =~= old(out)@ + enc_le(v@.len() as nat, 2) + v@.take(i as int + 1));
        }
        i += 1;
    }
    proof {
        assert(v@.take(v@.len() as int) =~= v@);
        assert(out@ =~= old(out)@ + enc_bytes(v@));
    }
}

/// Copies `bytes[from..to]` into a fresh vector.
fn read_bytes(bytes: &[u8], from: usize, to: usize) -> (r: Vec<u8>)
    requires
        from <= to <= bytes@.len(),
    ensures
        r@ == bytes@.subrange(from as int, to as int),
{
    let mut r: Vec<u8> = Vec::new();
    let mut i: usize = from;
    while i < to
        invariant
            from <= i <= to,
            r@ == bytes@.subrange(from as int, i as int),
        decreases to - i,
    {
        r.push(bytes[i]);
        proof {
            assert(bytes@.subrange(from as int, i as int + 1) =~= bytes@.subrange(
                from as int,
                i as int,
            ).push(bytes@[i as int]));
        }
        i += 1;
    }
    r
}

/// Encodes a client message into its unique byte string.
pub fn encode_client_message(m: &ClientMessage) -> (r: Vec<u8>)
    requires
        valid_client_message(*m),
    ensures
        r@ == spec_encode_client(*m),
{
    let mut out: Vec<u8> = Vec::new();
    match m {
        ClientMessage::Version(v) => {
            out.push(1);
            write_bytes(&mut out, v);
            proof {
                assert(out@ =~= spec_encode_client(*m));
            }
        },
        ClientMessage::RequestServerInfo => {
            out.push(2);
            proof {
                assert(out@ =~= spec_encode_client(*m));
            }
        },
        ClientMessage::Login(name) => {
            out.push(3);
            write_bytes(&mut out, name);
            proof {
                assert(out@ =~= spec_encode_client(*m));
            }
        },
        ClientMessage::Move(d) => {
            out.push(4);
            let b = match d {
                Direction::Up => 0,
                Direction::Down => 1,
                Direction::Left => 2,
                Direction::Right => 3,
                Direction::Still => 4,
            };
            out.push(b);
            proof {
                assert(out@ =~= spec_encode_client(*m));
            }
        },
        ClientMessage::Skill(id) => {
            out.push(5);
            write_le8(&mut out, *id);
            proof {
                assert(out@ =~= spec_encode_client(*m));
            }
        },
    }
    out
}

/// Decodes a client message: `Some` exactly when `bytes` is the encoding
/// of a defined client message, and then of the returned one.
pub fn decode_client_message(bytes: &[u8]) -> (r: Option<ClientMessage>)
    ensures
        match r {
            Some(m) => valid_client_message(m) && spec_encode_client(m) == bytes@,
            None => forall|m: ClientMessage|
                valid_client_message(m) ==> spec_encode_client(m) != bytes@,
        },
{
    if bytes.len() == 0 {
        proof {
            assert forall|m: ClientMessage|
                valid_client_message(m) implies spec_encode_client(m) != bytes@ by {
                assert(spec_encode_client(m).len() >= 1);
            }
        }
        return None;
    }
    let tag = bytes[0];
    if tag == 1 || tag == 3 {
        // Version / Login: a length-prefixed byte payload.
        if bytes.len() < 3 {
            proof {
                lemma_client_no_match(bytes@);
            }
            return None;
        }
        let l = read_le2(bytes, 1);
        if bytes.len() != 3 + (l as usize) {
            proof {
                lemma_client_no_match(bytes@);
            }
            return None;
        }
        let payload = read_bytes(bytes, 3, bytes.len());
        let m = if tag == 1 {
            ClientMessage::Version(payload)
        } else {
            ClientMessage::Login(payload)
        };
        proof {
            lemma_enc_dec_id(bytes@.subrange(1, 3));
            assert(spec_encode_client(m) =~= bytes@);
        }
        Some(m)
    } else if tag == 2 {
        if bytes.len() != 1 {
            proof {
                lemma_client_no_match(bytes@);
            }
            return None;
        }
        proof {
            assert(spec_encode_client(ClientMessage::RequestServerInfo) =~= bytes@);
        }
        Some(ClientMessage::RequestServerInfo)
    } else if tag == 4 {
        if bytes.len() != 2 {
            proof {
                lemma_client_no_match(bytes@);
            }
            return None;
        }
        let d = match bytes[1] {
            0 => Direction::Up,
            1 => Direction::Down,
            2 => Direction::Left,
            3 => Direction::Right,
            4 => Direction::Still,
            _ => {
                proof {
                    lemma_client_no_match(bytes@);
                }
                return None;
            },
        };
        proof {
            assert(spec_encode_client(ClientMessage::Move(d)) =~= bytes@);
        }
        Some(ClientMessage::Move(d))
    } else if tag == 5 {
        if bytes.len() != 9 {
            proof {
                lemma_client_no_match(bytes@);
            }
            return None;
        }
        let id = read_le8(bytes, 1);
        proof {
            lemma_enc_dec_id(bytes@.subrange(1, 9));
            assert(spec_encode_client(ClientMessage::Skill(id)) =~= bytes@);
        }
        Some(ClientMessage::Skill(id))
    } else {
        proof {
            lemma_client_no_match(bytes@);
        }
        None
    }
}

/// At every rejection point of the client decoder, no defined client
/// message encodes to the rejected bytes.
proof fn lemma_client_no_match(bytes: Seq<u8>)
    requires
        bytes.len() >= 1,
        ({
            ||| (bytes[0] != 1 && bytes[0] != 2 && bytes[0] != 3 && bytes[0] != 4 && bytes[0]
                != 5)
            ||| (bytes[0] == 2 && bytes.len() != 1)
            ||| ((bytes[0] == 1 || bytes[0] == 3) && bytes.len() < 3)
            ||| ((bytes[0] == 1 || bytes[0] == 3) && bytes.len() >= 3 && bytes.len() != 3
                + dec_le(bytes.subrange(1, 3)))
            ||| (bytes[0] == 4 && bytes.len() != 2)
            ||| (bytes[0] == 4 && bytes.len() == 2 && bytes[1] > 4)
            ||| (bytes[0] == 5 && bytes.len() != 9)
        }),
    ensures
        forall|m: ClientMessage| valid_client_message(m) ==> spec_encode_client(m) != bytes,
{
    lemma_pow256_values();
    assert forall|m: ClientMessage|
        valid_client_message(m) && spec_encode_client(m) == bytes implies false by {
        match m {
            ClientMessage::Version(v) => {
                crate::message::lemma_enc_le_len(v@.len() as nat, 2);
                assert(spec_encode_client(m).len() == 3 + v@.len());
                assert(spec_encode_client(m)[0] == 1);
                assert(bytes.subrange(1, 3) =~= enc_le(v@.len() as nat, 2));
                crate::message::lemma_le_round_trip(v@.len() as nat, 2);
            },
            ClientMessage::RequestServerInfo => {
                assert(spec_encode_client(m).len() == 1);
                assert(spec_encode_client(m)[0] == 2);
            },
            ClientMessage::Login(name) => {
                crate::message::lemma_enc_le_len(name@.len() as nat, 2);
                assert(spec_encode_client(m).len() == 3 + name@.len());
                assert(spec_encode_client(m)[0] == 3);
                assert(bytes.subrange(1, 3) =~= enc_le(name@.len() as nat, 2));
                crate::message::lemma_le_round_trip(name@.len() as nat, 2);
            },
            ClientMessage::Move(d) => {
                assert(spec_encode_client(m).len() == 2);
                assert(spec_encode_client(m)[0] == 4);
                assert(spec_encode_client(m)[1] == enc_direction(d));
                assert(enc_direction(d) <= 4);
            },
            ClientMessage::Skill(id) => {
                crate::message::lemma_enc_le_len(id as nat, 8);
                assert(spec_encode_client(m).len() == 9);
                assert(spec_encode_client(m)[0] == 5);
            },
        }
    }
}

/// The tag byte of a client message's encoding.
pub open spec fn client_tag(m: ClientMessage) -> u8 {
    match m {
        ClientMessage::Version(_) => 1u8,
        ClientMessage::RequestServerInfo => 2u8,
        ClientMessage::Login(_) => 3u8,
        ClientMessage::Move(_) => 4u8,
        ClientMessage::Skill(_) => 5u8,
    }
}

/// Every client encoding starts with its variant's tag byte.
proof fn lemma_client_tag(m: ClientMessage)
    ensures
        spec_encode_client(m).len() >= 1,
        spec_encode_client(m)[0] == client_tag(m),
{
}

/// The client encoding is injective: two defined messages with the same
/// bytes carry the same payloads. Together with the decoder's contract
/// this is the round-trip identity: decoding an encoding of `a` yields a
/// message equivalent to `a`.
pub proof fn lemma_client_encoding_injective(a: ClientMessage, b: ClientMessage)
    requires
        valid_client_message(a),
        valid_client_message(b),
        spec_encode_client(a) == spec_encode_client(b),
    ensures
        client_message_equiv(a, b),
{
    lemma_pow256_values();
    lemma_client_tag(a);
    lemma_client_tag(b);
    assert(client_tag(a) == client_tag(b));
    let s = spec_encode_client(a);
    match a {
        ClientMessage::Version(v) => {
            crate::message::lemma_enc_le_len(v@.len() as nat, 2);
            crate::message::lemma_le_round_trip(v@.len() as nat, 2);
            match b {
                ClientMessage::Version(w) => {
                    crate::message::lemma_enc_le_len(w@.len() as nat, 2);
                    crate::message::lemma_le_round_trip(w@.len() as nat, 2);
                    assert(s.subrange(1, 3) =~= enc_le(v@.len() as nat, 2));
                    assert(spec_encode_client(b).subrange(1, 3) =~= enc_le(w@.len() as nat, 2));
                    assert(v@.len() == w@.len());
                    assert(v@ =~= s.subrange(3, s.len() as int));
                    assert(w@ =~= s.subrange(3, s.len() as int));
                },
                _ => {},
            }
        },
        ClientMessage::RequestServerInfo => {},
        ClientMessage::Login(v) => {
            crate::message::lemma_enc_le_len(v@.len() as nat, 2);
            crate::message::lemma_le_round_trip(v@.len() as nat, 2);
            match b {
                ClientMessage::Login(w) => {
                    crate::message::lemma_enc_le_len(w@.len() as nat, 2);
                    crate::message::lemma_le_round_trip(w@.len() as nat, 2);
                    assert(s.subrange(1, 3) =~= enc_le(v@.len() as nat, 2));
                    assert(spec_encode_client(b).subrange(1, 3) =~= enc_le(w@.len() as nat, 2));
                    assert(v@.len() == w@.len());
                    assert(v@ =~= s.subrange(3, s.len() as int));
                    assert(w@ =~= s.subrange(3, s.len() as int));
                },
                _ => {},
            }
        },
        ClientMessage::Move(d) => {
            match b {
                ClientMessage::Move(e) => {
                    assert(s[1] == enc_direction(d));
                    assert(spec_encode_client(b)[1] == enc_direction(e));
                },
                _ => {},
            }
        },
        ClientMessage::Skill(x) => {
            crate::message::lemma_enc_le_len(x as nat, 8);
            crate::message::lemma_le_round_trip(x as nat, 8);
            match b {
                ClientMessage::Skill(y) => {
                    crate::message::lemma_enc_le_len(y as nat, 8);
                    crate::message::lemma_le_round_trip(y as nat, 8);
                    assert(s.subrange(1, 9) =~= enc_le(x as nat, 8));
                    assert(spec_encode_client(b).subrange(1, 9) =~= enc_le(y as nat, 8));
                },
                _ => {},
            }
        },
    }
}

/// Encodes a server message into its unique byte string.
pub fn encode_server_message(m: &ServerMessage) -> (r: Vec<u8>)
    requires
        valid_server_message(*m),
    ensures
        r@ == spec_encode_server(*m),
{
    let mut out: Vec<u8> = Vec::new();
    match m {
        ServerMessage::Version(v, c) => {
            out.push(1);
            write_bytes(&mut out, v);
            let cb = match c {
                Compatibility::Fully => 0,
                Compatibility::OkOutdated => 1,
                Compatibility::Incompatible => 2,
            };
            out.push(cb);
            proof {
                assert(out@ =~= spec_encode_server(*m));
            }
        },
        ServerMessage::ServerInfo(info) => {
            out.push(2);
            write_le2(&mut out, info.udp_port);
            out.push(info.players_number);
            write_le2(&mut out, info.map_size);
            write_le2(&mut out, info.winner_points);
            write_bytes(&mut out, &info.logged_players);
            proof {
                assert(out@ =~= spec_encode_server(*m));
            }
        },
        ServerMessage::PlayerListUpdated(names) => {
            out.push(3);
            write_bytes(&mut out, names);
            proof {
                assert(out@ =~= spec_encode_server(*m));
            }
        },
        ServerMessage::LoginStatus(s) => {
            out.push(4);
            match s {
                LoginStatus::Logged(t) => {
                    out.push(0);
                    write_le8(&mut out, *t);
                },
                LoginStatus::Reconnected(t) => {
                    out.push(1);
                    write_le8(&mut out, *t);
                },
                LoginStatus::InvalidPlayerName => {
                    out.push(2);
                },
                LoginStatus::AlreadyLogged => {
                    out.push(3);
                },
                LoginStatus::PlayerLimit => {
                    out.push(4);
                },
            }
            proof {
                assert(out@ =~= spec_encode_server(*m));
            }
        },
        ServerMessage::UdpReachable(b) => {
            out.push(5);
            out.push(if *b {
                1
            } else {
                0
            });
            proof {
                assert(out@ =~= spec_encode_server(*m));
            }
        },
        ServerMessage::StartGame => {
            out.push(6);
            proof {
                assert(out@ =~= spec_encode_server(*m));
            }
        },
        ServerMessage::EndGame => {
            out.push(7);
            proof {
                assert(out@ =~= spec_encode_server(*m));
            }
        },
        ServerMessage::PrepareArena(ms) => {
            out.push(8);
            write_le8(&mut out, *ms);
            proof {
                assert(out@ =~= spec_encode_server(*m));
            }
        },
        ServerMessage::StartArena(n) => {
            out.push(9);
            write_le8(&mut out, *n);
            proof {
                assert(out@ =~= spec_encode_server(*m));
            }
        },
        ServerMessage::EndArena => {
            out.push(10);
            proof {
                assert(out@ =~= spec_encode_server(*m));
            }
        },
        ServerMessage::Step => {
            out.push(11);
            proof {
                assert(out@ =~= spec_encode_server(*m));
            }
        },
    }
    out
}

/// The tag byte of a server message's encoding.
pub open spec fn server_tag(m: ServerMessage) -> u8 {
    match m {
        ServerMessage::Version(_, _) => 1u8,
        ServerMessage::ServerInfo(_) => 2u8,
        ServerMessage::PlayerListUpdated(_) => 3u8,
        ServerMessage::LoginStatus(_) => 4u8,
        ServerMessage::UdpReachable(_) => 5u8,
        ServerMessage::StartGame => 6u8,
        ServerMessage::EndGame => 7u8,
        ServerMessage::PrepareArena(_) => 8u8,
        ServerMessage::StartArena(_) => 9u8,
        ServerMessage::EndArena => 10u8,
        ServerMessage::Step => 11u8,
    }
}

/// The shape facts of every server encoding: its tag byte and its length.
proof fn lemma_server_shape(m: ServerMessage)
    ensures
        spec_encode_server(m).len() >= 1,
        spec_encode_server(m)[0] == server_tag(m),
        m matches ServerMessage::Version(v, c) ==> spec_encode_server(m).len() == 4 + v@.len()
            && spec_encode_server(m).subrange(1, 3) == enc_le(v@.len() as nat, 2)
            && spec_encode_server(m).last() == enc_compatibility(c),
        m matches ServerMessage::ServerInfo(info) ==> spec_encode_server(m).len() == 10
            + info.logged_players@.len() && spec_encode_server(m).subrange(8, 10) == enc_le(
            info.logged_players@.len() as nat,
            2,
        ),
        m matches ServerMessage::PlayerListUpdated(names) ==> spec_encode_server(m).len() == 3
            + names@.len() && spec_encode_server(m).subrange(1, 3) == enc_le(
            names@.len() as nat,
            2,
        ),
        m matches ServerMessage::LoginStatus(s) ==> (s.spec_is_logged()
            ==> spec_encode_server(m).len() == 10) && (!s.spec_is_logged()
            ==> spec_encode_server(m).len() == 2) && spec_encode_server(m)[1]
            == enc_login_status(s)[0] && enc_login_status(s)[0] <= 4,
        m matches ServerMessage::UdpReachable(b) ==> spec_encode_server(m).len() == 2
            && spec_encode_server(m)[1] <= 1,
        m is StartGame || m is EndGame || m is EndArena || m is Step ==> spec_encode_server(
            m,
        ).len() == 1,
        m matches ServerMessage::PrepareArena(x) ==> spec_encode_server(m).len() == 9,
        m matches ServerMessage::StartArena(x) ==> spec_encode_server(m).len() == 9,
{
    match m {
        ServerMessage::Version(v, c) => {
            crate::message::lemma_enc_le_len(v@.len() as nat, 2);
            assert(spec_encode_server(m).subrange(1, 3) =~= enc_le(v@.len() as nat, 2));
        },
        ServerMessage::ServerInfo(info) => {
            crate::message::lemma_enc_le_len(info.udp_port as nat, 2);
            crate::message::lemma_enc_le_len(info.map_size as nat, 2);
            crate::message::lemma_enc_le_len(info.winner_points as nat, 2);
            crate::message::lemma_enc_le_len(info.logged_players@.len() as nat, 2);
            assert(spec_encode_server(m).subrange(8, 10) =~= enc_le(
                info.logged_players@.len() as nat,
                2,
            ));
        },
        ServerMessage::PlayerListUpdated(names) => {
            crate::message::lemma_enc_le_len(names@.len() as nat, 2);
            assert(spec_encode_server(m).subrange(1, 3) =~= enc_le(names@.len() as nat, 2));
        },
        ServerMessage::LoginStatus(s) => {
            match s {
                LoginStatus::Logged(t) => {
                    crate::message::lemma_enc_le_len(t as nat, 8);
                },
                LoginStatus::Reconnected(t) => {
                    crate::message::lemma_enc_le_len(t as nat, 8);
                },
                _ => {},
            }
        },
        ServerMessage::PrepareArena(x) => {
            crate::message::lemma_enc_le_len(x as nat, 8);
        },
        ServerMessage::StartArena(x) => {
            crate::message::lemma_enc_le_len(x as nat, 8);
        },
        _ => {},
    }
}

/// At every rejection point of the server decoder, no defined server
/// message encodes to the rejected bytes.
proof fn lemma_server_no_match(bytes: Seq<u8>)
    requires
        bytes.len() >= 1,
        ({
            ||| (bytes[0] < 1 || bytes[0] > 11)
            ||| (bytes[0] == 1 && (bytes.len() < 4 || bytes.len() != 4 + dec_le(
                bytes.subrange(1, 3),
            ) || bytes.last() > 2))
            ||| (bytes[0] == 2 && (bytes.len() < 10 || bytes.len() != 10 + dec_le(
                bytes.subrange(8, 10),
            )))
            ||| (bytes[0] == 3 && (bytes.len() < 3 || bytes.len() != 3 + dec_le(
                bytes.subrange(1, 3),
            )))
            ||| (bytes[0] == 4 && (bytes.len() < 2 || bytes[1] > 4 || (bytes[1] <= 1
                && bytes.len() != 10) || (bytes[1] >= 2 && bytes.len() != 2)))
            ||| (bytes[0] == 5 && (bytes.len() != 2 || bytes[1] > 1))
            ||| ((bytes[0] == 6 || bytes[0] == 7 || bytes[0] == 10 || bytes[0] == 11)
                && bytes.len() != 1)
            ||| ((bytes[0] == 8 || bytes[0] == 9) && bytes.len() != 9)
        }),
    ensures
        forall|m: ServerMessage| valid_server_message(m) ==> spec_encode_server(m) != bytes,
{
    lemma_pow256_values();
    assert forall|m: ServerMessage|
        valid_server_message(m) && spec_encode_server(m) == bytes implies false by {
        lemma_server_shape(m);
        match m {
            ServerMessage::Version(v, c) => {
                crate::message::lemma_le_round_trip(v@.len() as nat, 2);
                assert(enc_compatibility(c) <= 2);
            },
            ServerMessage::ServerInfo(info) => {
                crate::message::lemma_le_round_trip(info.logged_players@.len() as nat, 2);
            },
            ServerMessage::PlayerListUpdated(names) => {
                crate::message::lemma_le_round_trip(names@.len() as nat, 2);
            },
            _ => {},
        }
    }
}

/// Decodes a server message: `Some` exactly when `bytes` is the encoding
/// of a defined server message, and then of the returned one.
pub fn decode_server_message(bytes: &[u8]) -> (r: Option<ServerMessage>)
    ensures
        match r {
            Some(m) => valid_server_message(m) && spec_encode_server(m) == bytes@,
            None => forall|m: ServerMessage|
                valid_server_message(m) ==> spec_encode_server(m) != bytes@,
        },
{
    if bytes.len() == 0 {
        proof {
            assert forall|m: ServerMessage|
                valid_server_message(m) implies spec_encode_server(m) != bytes@ by {
                lemma_server_shape(m);
            }
        }
        return None;
    }
    let tag = bytes[0];
    if tag == 1 {
        if bytes.len() < 4 {
            proof {
                lemma_server_no_match(bytes@);
            }
            return None;
        }
        let l = read_le2(bytes, 1);
        if bytes.len() != 4 + (l as usize) {
            proof {
                lemma_server_no_match(bytes@);
            }
            return None;
        }
        let cb = bytes[bytes.len() - 1];
        let c = if cb == 0 {
            Compatibility::Fully
        } else if cb == 1 {
            Compatibility::OkOutdated
        } else if cb == 2 {
            Compatibility::Incompatible
        } else {
            proof {
                lemma_server_no_match(bytes@);
            }
            return None;
        };
        let payload = read_bytes(bytes, 3, bytes.len() - 1);
        let m = ServerMessage::Version(payload, c);
        proof {
            lemma_enc_dec_id(bytes@.subrange(1, 3));
            assert(spec_encode_server(m) =~= bytes@);
        }
        Some(m)
    } else if tag == 2 {
        if bytes.len() < 10 {
            proof {
                lemma_server_no_match(bytes@);
            }
            return None;
        }
        let l = read_le2(bytes, 8);
        if bytes.len() != 10 + (l as usize) {
            proof {
                lemma_server_no_match(bytes@);
            }
            return None;
        }
        let udp_port = read_le2(bytes, 1);
        let players_number = bytes[3];
        let map_size = read_le2(bytes, 4);
        let winner_points = read_le2(bytes, 6);
        let logged_players = read_bytes(bytes, 10, bytes.len());
        let m = ServerMessage::ServerInfo(
            ServerInfo { udp_port, players_number, map_size, winner_points, logged_players },
        );
        proof {
            lemma_enc_dec_id(bytes@.subrange(1, 3));
            lemma_enc_dec_id(bytes@.subrange(4, 6));
            lemma_enc_dec_id(bytes@.subrange(6, 8));
            lemma_enc_dec_id(bytes@.subrange(8, 10));
            assert(spec_encode_server(m) =~= bytes@);
        }
        Some(m)
    } else if tag == 3 {
        if bytes.len() < 3 {
            proof {
                lemma_server_no_match(bytes@);
            }
            return None;
        }
        let l = read_le2(bytes, 1);
        if bytes.len() != 3 + (l as usize) {
            proof {
                lemma_server_no_match(bytes@);
            }
            return None;
        }
        let payload = read_bytes(bytes, 3, bytes.len());
        let m = ServerMessage::PlayerListUpdated(payload);
        proof {
            lemma_enc_dec_id(bytes@.subrange(1, 3));
            assert(spec_encode_server(m) =~= bytes@);
        }
        Some(m)
    } else if tag == 4 {
        if bytes.len() < 2 {
            proof {
                lemma_server_no_match(bytes@);
            }
            return None;
        }
        let sb = bytes[1];
        if sb <= 1 {
            if bytes.len() != 10 {
                proof {
                    lemma_server_no_match(bytes@);
                }
                return None;
            }
            let t = read_le8(bytes, 2);
            let s = if sb == 0 {
                LoginStatus::Logged(t)
            } else {
                LoginStatus::Reconnected(t)
            };
            let m = ServerMessage::LoginStatus(s);
            proof {
                lemma_enc_dec_id(bytes@.subrange(2, 10));
                assert(spec_encode_server(m) =~= bytes@);
            }
            Some(m)
        } else if sb <= 4 {
            if bytes.len() != 2 {
                proof {
                    lemma_server_no_match(bytes@);
                }
                return None;
            }
            let s = if sb == 2 {
                LoginStatus::InvalidPlayerName
            } else if sb == 3 {
                LoginStatus::AlreadyLogged
            } else {
                LoginStatus::PlayerLimit
            };
            let m = ServerMessage::LoginStatus(s);
            proof {
                assert(spec_encode_server(m) =~= bytes@);
            }
            Some(m)
        } else {
            proof {
                lemma_server_no_match(bytes@);
            }
            None
        }
    } else if tag == 5 {
        if bytes.len() != 2 || bytes[1] > 1 {
            proof {
                lemma_server_no_match(bytes@);
            }
            return None;
        }
        let m = ServerMessage::UdpReachable(bytes[1] == 1);
        proof {
            assert(spec_encode_server(m) =~= bytes@);
        }
        Some(m)
    } else if tag == 6 || tag == 7 || tag == 10 || tag == 11 {
        if bytes.len() != 1 {
            proof {
                lemma_server_no_match(bytes@);
            }
            return None;
        }
        let m = if tag == 6 {
            ServerMessage::StartGame
        } else if tag == 7 {
            ServerMessage::EndGame
        } else if tag == 10 {
            ServerMessage::EndArena
        } else {
            ServerMessage::Step
        };
        proof {
            assert(spec_encode_server(m) =~= bytes@);
        }
        Some(m)
    } else if tag == 8 || tag == 9 {
        if bytes.len() != 9 {
            proof {
                lemma_server_no_match(bytes@);
            }
            return None;
        }
        let x = read_le8(bytes, 1);
        let m = if tag == 8 {
            ServerMessage::PrepareArena(x)
        } else {
            ServerMessage::StartArena(x)
        };
        proof {
            lemma_enc_dec_id(bytes@.subrange(1, 9));
            assert(spec_encode_server(m) =~= bytes@);
        }
        Some(m)
    } else {
        proof {
            lemma_server_no_match(bytes@);
        }
        None
    }
}

/// The server encoding is injective: two defined messages with the same
/// bytes carry the same payloads. Together with the decoder's contract
/// this is the round-trip identity for server messages.
pub proof fn lemma_server_encoding_injective(a: ServerMessage, b: ServerMessage)
    requires
        valid_server_message(a),
        valid_server_message(b),
        spec_encode_server(a) == spec_encode_server(b),
    ensures
        server_message_equiv(a, b),
{
    lemma_pow256_values();
    lemma_server_shape(a);
    lemma_server_shape(b);
    assert(server_tag(a) == server_tag(b));
    let s = spec_encode_server(a);
    match a {
        ServerMessage::Version(v, c) => {
            crate::message::lemma_le_round_trip(v@.len() as nat, 2);
            match b {
                ServerMessage::Version(w, d) => {
                    crate::message::lemma_le_round_trip(w@.len() as nat, 2);
                    assert(v@.len() == w@.len());
                    assert(v@ =~= s.subrange(3, s.len() - 1));
                    assert(w@ =~= s.subrange(3, s.len() - 1));
                    assert(enc_compatibility(c) == enc_compatibility(d));
                    assert(c == d) by {
                        if c != d {
                            assert(enc_compatibility(c) != enc_compatibility(d));
                        }
                    }
                },
                _ => {},
            }
        },
        ServerMessage::ServerInfo(x) => {
            crate::message::lemma_le_round_trip(x.logged_players@.len() as nat, 2);
            crate::message::lemma_le_round_trip(x.udp_port as nat, 2);
            crate::message::lemma_le_round_trip(x.map_size as nat, 2);
            crate::message::lemma_le_round_trip(x.winner_points as nat, 2);
            match b {
                ServerMessage::ServerInfo(y) => {
                    crate::message::lemma_le_round_trip(y.logged_players@.len() as nat, 2);
                    crate::message::lemma_le_round_trip(y.udp_port as nat, 2);
                    crate::message::lemma_le_round_trip(y.map_size as nat, 2);
                    crate::message::lemma_le_round_trip(y.winner_points as nat, 2);
                    crate::message::lemma_enc_le_len(x.udp_port as nat, 2);
                    crate::message::lemma_enc_le_len(x.map_size as nat, 2);
                    crate::message::lemma_enc_le_len(x.winner_points as nat, 2);
                    crate::message::lemma_enc_le_len(x.logged_players@.len() as nat, 2);
                    crate::message::lemma_enc_le_len(y.udp_port as nat, 2);
                    crate::message::lemma_enc_le_len(y.map_size as nat, 2);
                    crate::message::lemma_enc_le_len(y.winner_points as nat, 2);
                    crate::message::lemma_enc_le_len(y.logged_players@.len() as nat, 2);
                    assert(s.subrange(1, 3) =~= enc_le(x.udp_port as nat, 2));
                    assert(spec_encode_server(b).subrange(1, 3) =~= enc_le(y.udp_port as nat, 2));
                    assert(s.subrange(4, 6) =~= enc_le(x.map_size as nat, 2));
                    assert(spec_encode_server(b).subrange(4, 6) =~= enc_le(y.map_size as nat, 2));
                    assert(s.subrange(6, 8) =~= enc_le(x.winner_points as nat, 2));
                    assert(spec_encode_server(b).subrange(6, 8) =~= enc_le(
                        y.winner_points as nat,
                        2,
                    ));
                    assert(s[3] == x.players_number);
                    assert(spec_encode_server(b)[3] == y.players_number);
                    assert(x.logged_players@.len() == y.logged_players@.len());
                    assert(x.logged_players@ =~= s.subrange(10, s.len() as int));
                    assert(y.logged_players@ =~= s.subrange(10, s.len() as int));
                },
                _ => {},
            }
        },
        ServerMessage::PlayerListUpdated(v) => {
            crate::message::lemma_le_round_trip(v@.len() as nat, 2);
            match b {
                ServerMessage::PlayerListUpdated(w) => {
                    crate::message::lemma_le_round_trip(w@.len() as nat, 2);
                    assert(v@.len() == w@.len());
                    assert(v@ =~= s.subrange(3, s.len() as int));
                    assert(w@ =~= s.subrange(3, s.len() as int));
                },
                _ => {},
            }
        },
        ServerMessage::LoginStatus(x) => {
            match b {
                ServerMessage::LoginStatus(y) => {
                    assert(s[1] == enc_login_status(x)[0]);
                    assert(spec_encode_server(b)[1] == enc_login_status(y)[0]);
                    match (x, y) {
                        (LoginStatus::Logged(t), LoginStatus::Logged(u)) => {
                            crate::message::lemma_le_round_trip(t as nat, 8);
                            crate::message::lemma_le_round_trip(u as nat, 8);
                            assert(s.subrange(2, 10) =~= enc_le(t as nat, 8));
                            assert(spec_encode_server(b).subrange(2, 10) =~= enc_le(u as nat, 8));
                        },
                        (LoginStatus::Reconnected(t), LoginStatus::Reconnected(u)) => {
                            crate::message::lemma_le_round_trip(t as nat, 8);
                            crate::message::lemma_le_round_trip(u as nat, 8);
                            assert(s.subrange(2, 10) =~= enc_le(t as nat, 8));
                            assert(spec_encode_server(b).subrange(2, 10) =~= enc_le(u as nat, 8));
                        },
                        _ => {},
                    }
                },
                _ => {},
            }
        },
        ServerMessage::UdpReachable(x) => {
            match b {
                ServerMessage::UdpReachable(y) => {
                    assert(s[1] == if x { 1u8 } else { 0u8 });
                },
                _ => {},
            }
        },
        ServerMessage::PrepareArena(x) => {
            crate::message::lemma_le_round_trip(x as nat, 8);
            match b {
                ServerMessage::PrepareArena(y) => {
                    crate::message::lemma_le_round_trip(y as nat, 8);
                    assert(s.subrange(1, 9) =~= enc_le(x as nat, 8));
                    assert(spec_encode_server(b).subrange(1, 9) =~= enc_le(y as nat, 8));
                },
                _ => {},
            }
        },
        ServerMessage::StartArena(x) => {
            crate::message::lemma_le_round_trip(x as nat, 8);
            match b {
                ServerMessage::StartArena(y) => {
                    crate::message::lemma_le_round_trip(y as nat, 8);
                    assert(s.subrange(1, 9) =~= enc_le(x as nat, 8));
                    assert(spec_encode_server(b).subrange(1, 9) =~= enc_le(y as nat, 8));
                },
                _ => {},
            }
        },
        _ => {},
    }
}

} // verus!
