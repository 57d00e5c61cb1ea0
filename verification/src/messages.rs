//! The fixed texts the server puts on a channel, held as byte sequences:
//! the prefix wrapped around every relayed chat payload, the refusal lines
//! sent on a pty request, and the one-shot payload of the forward relay.

use vstd::prelude::*;

verus! {

/// The bytes of `"Got data: "`, put in front of every relayed payload.
pub open spec fn broadcast_prefix() -> Seq<u8> {
    seq![71u8, 111u8, 116u8, 32u8, 100u8, 97u8, 116u8, 97u8, 58u8, 32u8]
}

/// The bytes of `"\r\n"`, closing every line the server composes.
pub open spec fn crlf() -> Seq<u8> {
    seq![13u8, 10u8]
}

/// A chat payload as it goes out to every recipient: prefix, payload, line end.
pub open spec fn wrapped_message(payload: Seq<u8>) -> Seq<u8> {
    broadcast_prefix() + payload + crlf()
}

/// The bytes of `"Not allowed\r\n"`, the first line sent on a pty request.
pub open spec fn pty_refusal_first() -> Seq<u8> {
    seq![78u8, 111u8, 116u8, 32u8, 97u8, 108u8, 108u8, 111u8, 119u8, 101u8, 100u8, 13u8, 10u8]
}

/// The bytes of `"Not allowed 2\r\n"`, the second line sent on a pty request.
pub open spec fn pty_refusal_second() -> Seq<u8> {
    seq![
        78u8, 111u8, 116u8, 32u8, 97u8, 108u8, 108u8, 111u8, 119u8, 101u8, 100u8, 32u8, 50u8,
        13u8, 10u8,
    ]
}

/// The bytes of `"Hello from a forwarded port"`, the fixed payload the
/// port-forward relay pushes into every forwarded channel.
pub open spec fn forward_payload() -> Seq<u8> {
    seq![
        72u8, 101u8, 108u8, 108u8, 111u8, 32u8, 102u8, 114u8, 111u8, 109u8, 32u8, 97u8, 32u8,
        102u8, 111u8, 114u8, 119u8, 97u8, 114u8, 100u8, 101u8, 100u8, 32u8, 112u8, 111u8, 114u8,
        116u8,
    ]
}

/// Wraps one inbound chat payload for delivery: `"Got data: "`, the payload
/// bytes unchanged, then `"\r\n"`.
pub fn wrap_payload(payload: &[u8]) -> (r: Vec<u8>)
    ensures
        r@ == wrapped_message(payload@),
{
    let mut r: Vec<u8> = Vec::new();
    r.push(71u8);
    r.push(111u8);
    r.push(116u8);
    r.push(32u8);
    r.push(100u8);
    r.push(97u8);
    r.push(116u8);
    r.push(97u8);
    r.push(58u8);
    r.push(32u8);
    assert(r@ =~= broadcast_prefix());
    let mut i: usize = 0;
    while i < payload.len()
        invariant
            i <= payload.len(),
            r@ == broadcast_prefix() + payload@.subrange(0, i as int),
        decreases payload.len() - i,
    {
        r.push(payload[i]);
        assert(r@ =~= broadcast_prefix() + payload@.subrange(0, i + 1 as int));
        i = i + 1;
    }
    assert(payload@.subrange(0, payload@.len() as int) =~= payload@);
    r.push(13u8);
    r.push(10u8);
    assert(r@ =~= wrapped_message(payload@));
    r
}

/// Builds the first pty refusal line, `"Not allowed\r\n"`.
pub fn pty_refusal_first_line() -> (r: Vec<u8>)
    ensures
        r@ == pty_refusal_first(),
{
    let mut r: Vec<u8> = Vec::new();
    r.push(78u8);
    r.push(111u8);
    r.push(116u8);
    r.push(32u8);
    r.push(97u8);
    r.push(108u8);
    r.push(108u8);
    r.push(111u8);
    r.push(119u8);
    r.push(101u8);
    r.push(100u8);
    r.push(13u8);
    r.push(10u8);
    assert(r@ =~= pty_refusal_first());
    r
}

/// Builds the second pty refusal line, `"Not allowed 2\r\n"`.
pub fn pty_refusal_second_line() -> (r: Vec<u8>)
    ensures
        r@ == pty_refusal_second(),
{
    let mut r: Vec<u8> = Vec::new();
    r.push(78u8);
    r.push(111u8);
    r.push(116u8);
    r.push(32u8);
    r.push(97u8);
    r.push(108u8);
    r.push(108u8);
    r.push(111u8);
    r.push(119u8);
    r.push(101u8);
    r.push(100u8);
    r.push(32u8);
    r.push(50u8);
    r.push(13u8);
    r.push(10u8);
    assert(r@ =~= pty_refusal_second());
    r
}

/// Builds the fixed forward-relay payload, `"Hello from a forwarded port"`.
pub fn forward_payload_bytes() -> (r: Vec<u8>)
    ensures
        r@ == forward_payload(),
{
    let mut r: Vec<u8> = Vec::new();
    r.push(72u8);
    r.push(101u8);
    r.push(108u8);
    r.push(108u8);
    r.push(111u8);
    r.push(32u8);
    r.push(102u8);
    r.push(114u8);
    r.push(111u8);
    r.push(109u8);
    r.push(32u8);
    r.push(97u8);
    r.push(32u8);
    r.push(102u8);
    r.push(111u8);
    r.push(114u8);
    r.push(119u8);
    r.push(97u8);
    r.push(114u8);
    r.push(100u8);
    r.push(101u8);
    r.push(100u8);
    r.push(32u8);
    r.push(112u8);
    r.push(111u8);
    r.push(114u8);
    r.push(116u8);
    assert(r@ =~= forward_payload());
    r
}

} // verus!
