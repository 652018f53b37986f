//! Messages carried by the hub and their wire encoding.
//!
//! A message is an immutable triple of origin (the sender's peer address as
//! bytes), a kind, and a text payload. On the wire each message is one UTF-8
//! line ended by a newline byte:
//!   - chat:      `<origin>: <text>`
//!   - arrival:   `<origin> joined`
//!   - departure: `<origin> disconnected`
//!
//! Payloads are taken as the reader delimits them: one line, with its
//! terminator (`\n` or `\r\n`) stripped before publishing, so a published
//! payload never holds an interior newline of its own making.

use vstd::prelude::*;

verus! {

/// The three kinds of lines the relay carries.
#[derive(Clone, Copy, PartialEq, Eq, Structural, Debug)]
pub enum MsgKind {
    Chat,
    Joined,
    Left,
}

/// One published message: origin address, kind, and (for chat) the payload.
pub struct Message {
    pub origin: Vec<u8>,
    pub kind: MsgKind,
    pub text: Vec<u8>,
}

/// The mathematical value of a [`Message`].
#[verifier::ext_equal]
pub ghost struct MsgV {
    pub origin: Seq<u8>,
    pub kind: MsgKind,
    pub text: Seq<u8>,
}

impl View for Message {
    type V = MsgV;

    open spec fn view(&self) -> MsgV {
        MsgV { origin: self.origin@, kind: self.kind, text: self.text@ }
    }
}

/// The arrival notice published when a peer becomes active.
pub open spec fn joined_msg(peer: Seq<u8>) -> MsgV {
    MsgV { origin: peer, kind: MsgKind::Joined, text: Seq::empty() }
}

/// The departure notice published when an active peer closes.
pub open spec fn left_msg(peer: Seq<u8>) -> MsgV {
    MsgV { origin: peer, kind: MsgKind::Left, text: Seq::empty() }
}

/// A chat line relayed from one peer to the others.
pub open spec fn chat_msg(peer: Seq<u8>, text: Seq<u8>) -> MsgV {
    MsgV { origin: peer, kind: MsgKind::Chat, text: text }
}

/// The `": "` separator between origin and chat payload.
pub open spec fn chat_sep() -> Seq<u8> {
    seq![58u8, 32u8]
}

/// The `" joined"` suffix of an arrival notice.
pub open spec fn joined_tag() -> Seq<u8> {
    seq![32u8, 106u8, 111u8, 105u8, 110u8, 101u8, 100u8]
}

/// The `" disconnected"` suffix of a departure notice.
pub open spec fn left_tag() -> Seq<u8> {
    seq![32u8, 100u8, 105u8, 115u8, 99u8, 111u8, 110u8, 110u8, 101u8, 99u8, 116u8, 101u8, 100u8]
}

/// The wire line for a message, newline terminator included.
pub open spec fn encoded(m: MsgV) -> Seq<u8> {
    match m.kind {
        MsgKind::Chat => m.origin + chat_sep() + m.text + seq![10u8],
        MsgKind::Joined => m.origin + joined_tag() + seq![10u8],
        MsgKind::Left => m.origin + left_tag() + seq![10u8],
    }
}

/// `s` with one trailing line terminator (`\n` or `\r\n`) removed.
pub open spec fn stripped(s: Seq<u8>) -> Seq<u8> {
    if s.len() >= 2 && s[s.len() - 2] == 13u8 && s[s.len() - 1] == 10u8 {
        s.subrange(0, s.len() - 2)
    } else if s.len() >= 1 && s[s.len() - 1] == 10u8 {
        s.subrange(0, s.len() - 1)
    } else {
        s
    }
}

/// An exact copy of a byte vector.
pub fn copy_bytes(src: &Vec<u8>) -> (r: Vec<u8>)
    ensures
        r@ == src@,
{
    let mut r: Vec<u8> = Vec::new();
    let mut i: usize = 0;
    while i < src.len()
        invariant
            i <= src.len(),
            r@ == src@.subrange(0, i as int),
        decreases src.len() - i,
    {
        r.push(src[i]);
        i = i + 1;
        proof {
            assert(r@ =~= src@.subrange(0, i as int));
        }
    }
    proof {
        assert(r@ =~= src@);
    }
    r
}

/// Appends a copy of `src` to `dst`.
pub fn append_bytes(dst: &mut Vec<u8>, src: &Vec<u8>)
    ensures
        final(dst)@ == old(dst)@ + src@,
{
    let mut i: usize = 0;
    while i < src.len()
        invariant
            i <= src.len(),
            dst@ == old(dst)@ + src@.subrange(0, i as int),
        decreases src.len() - i,
    {
        dst.push(src[i]);
        i = i + 1;
        proof {
            assert(dst@ =~= old(dst)@ + src@.subrange(0, i as int));
        }
    }
    proof {
        assert(dst@ =~= old(dst)@ + src@);
    }
}

impl Message {
    /// A fresh message with the same value, so one publish can feed many queues.
    pub fn duplicate(&self) -> (r: Message)
        ensures
            r@ == self@,
    {
        let r = Message {
            origin: copy_bytes(&self.origin),
            kind: self.kind,
            text: copy_bytes(&self.text),
        };
        proof {
            assert(r@ =~= self@);
        }
        r
    }
}

/// Serializes a message as its wire line, newline terminator included.
pub fn encode_line(m: &Message) -> (r: Vec<u8>)
    ensures
        r@ == encoded(m@),
{
    let mut out = copy_bytes(&m.origin);
    match m.kind {
        MsgKind::Chat => {
            out.push(58u8);
            out.push(32u8);
            append_bytes(&mut out, &m.text);
        },
        MsgKind::Joined => {
            out.push(32u8);
            out.push(106u8);
            out.push(111u8);
            out.push(105u8);
            out.push(110u8);
            out.push(101u8);
            out.push(100u8);
        },
        MsgKind::Left => {
            out.push(32u8);
            out.push(100u8);
            out.push(105u8);
            out.push(115u8);
            out.push(99u8);
            out.push(111u8);
            out.push(110u8);
            out.push(110u8);
            out.push(101u8);
            out.push(99u8);
            out.push(116u8);
            out.push(101u8);
            out.push(100u8);
        },
    }
    out.push(10u8);
    proof {
        assert(out@ =~= encoded(m@));
    }
    out
}

/// Removes one trailing line terminator (`\n` or `\r\n`) from a raw line.
pub fn strip_line_terminator(line: Vec<u8>) -> (r: Vec<u8>)
    ensures
        r@ == stripped(line@),
{
    let ghost orig = line@;
    let mut v = line;
    let n = v.len();
    if n >= 2 && v[n - 2] == 13u8 && v[n - 1] == 10u8 {
        v.pop();
        v.pop();
        proof {
            assert(v@ =~= stripped(orig));
        }
    } else if n >= 1 && v[n - 1] == 10u8 {
        v.pop();
        proof {
            assert(v@ =~= stripped(orig));
        }
    }
    v
}

/// In a chat line the payload reappears byte-identical, right after the
/// origin-and-separator prefix and before the final newline.
pub proof fn lemma_chat_payload_intact(m: MsgV)
    requires
        m.kind == MsgKind::Chat,
    ensures
        encoded(m).len() == m.origin.len() + 2 + m.text.len() + 1,
        encoded(m).subrange(
            m.origin.len() as int + 2,
            m.origin.len() as int + 2 + m.text.len(),
        ) == m.text,
{
    assert(encoded(m).subrange(
        m.origin.len() as int + 2,
        m.origin.len() as int + 2 + m.text.len(),
    ) =~= m.text);
}

} // verus!
