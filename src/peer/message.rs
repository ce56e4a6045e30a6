use vstd::prelude::*;

use crate::bytes::{
    be16,
    be32,
    copy_range,
    get_u16,
    get_u32,
    lemma_be16_read,
    lemma_be32_read,
    push_all,
    push_u16,
    push_u32,
    read16,
    read32,
};
use crate::error::Error;

pub use crate::peer::handshake::Handshake;

verus! {

/// A peer-wire message as the contracts see it: byte payloads as sequences.
pub enum MessageView {
    KeepAlive,
    Choke,
    Unchoke,
    Interested,
    NotInterested,
    Have(u32),
    Bitfield(Seq<u8>),
    Request(u32, u32, u32),
    Piece(u32, u32, Seq<u8>),
    Cancel(u32, u32, u32),
    Port(u16),
}

impl MessageView {
    /// The id byte that tags the message on the wire.
    pub open spec fn id(self) -> u8 {
        match self {
            MessageView::KeepAlive => 0,
            MessageView::Choke => 0,
            MessageView::Unchoke => 1,
            MessageView::Interested => 2,
            MessageView::NotInterested => 3,
            MessageView::Have(_) => 4,
            MessageView::Bitfield(_) => 5,
            MessageView::Request(_, _, _) => 6,
            MessageView::Piece(_, _, _) => 7,
            MessageView::Cancel(_, _, _) => 8,
            MessageView::Port(_) => 9,
        }
    }

    /// The bytes after the length prefix: the id byte and the payload, or
    /// nothing at all for a keep-alive.
    pub open spec fn body(self) -> Seq<u8> {
        match self {
            MessageView::KeepAlive => Seq::empty(),
            MessageView::Have(i) => seq![4u8] + be32(i),
            MessageView::Bitfield(b) => seq![5u8] + b,
            MessageView::Request(i, b, l) => seq![6u8] + be32(i) + be32(b) + be32(l),
            MessageView::Piece(i, b, block) => seq![7u8] + be32(i) + be32(b) + block,
            MessageView::Cancel(i, b, l) => seq![8u8] + be32(i) + be32(b) + be32(l),
            MessageView::Port(p) => seq![9u8] + be16(p),
            _ => seq![self.id()],
        }
    }

    /// The whole frame: the body's length in four big-endian bytes, then the body.
    pub open spec fn frame(self) -> Seq<u8> {
        be32(self.body().len() as u32) + self.body()
    }
}

/// What a message body decodes to. Four zero bytes, a whole keep-alive frame,
/// decode to a keep-alive as the empty body does.
pub open spec fn decode(d: Seq<u8>) -> Result<MessageView, Error> {
    if d.len() == 0 || d =~= seq![0u8, 0u8, 0u8, 0u8] {
        Ok(MessageView::KeepAlive)
    } else {
        let id = d[0];
        if id == 0 {
            Ok(MessageView::Choke)
        } else if id == 1 {
            Ok(MessageView::Unchoke)
        } else if id == 2 {
            Ok(MessageView::Interested)
        } else if id == 3 {
            Ok(MessageView::NotInterested)
        } else if id == 4 {
            if d.len() == 5 {
                Ok(MessageView::Have(read32(d, 1)))
            } else {
                Err(Error::InvalidFormat)
            }
        } else if id == 5 {
            if d.len() >= 6 {
                Ok(MessageView::Bitfield(d.subrange(1, d.len() as int)))
            } else {
                Err(Error::InvalidFormat)
            }
        } else if id == 6 || id == 8 {
            if d.len() == 13 {
                if id == 6 {
                    Ok(MessageView::Request(read32(d, 1), read32(d, 5), read32(d, 9)))
                } else {
                    Ok(MessageView::Cancel(read32(d, 1), read32(d, 5), read32(d, 9)))
                }
            } else {
                Err(Error::InvalidFormat)
            }
        } else if id == 7 {
            if d.len() >= 9 {
                Ok(MessageView::Piece(read32(d, 1), read32(d, 5), d.subrange(9, d.len() as int)))
            } else {
                Err(Error::InvalidFormat)
            }
        } else if id == 9 {
            if d.len() == 3 {
                Ok(MessageView::Port(read16(d, 1)))
            } else {
                Err(Error::InvalidFormat)
            }
        } else {
            Err(Error::UnknownMessageType(id))
        }
    }
}

/// A peer-wire message.
#[derive(Debug, PartialEq, Clone)]
pub enum Message {
    KeepAlive,
    Choke,
    Unchoke,
    Interested,
    NotInterested,
    Have(u32),
    Bitfield(Vec<u8>),
    Request(u32, u32, u32),
    Piece(u32, u32, Vec<u8>),
    Cancel(u32, u32, u32),
    Port(u16),
}

impl View for Message {
    type V = MessageView;

    open spec fn view(&self) -> MessageView {
        match self {
            Message::KeepAlive => MessageView::KeepAlive,
            Message::Choke => MessageView::Choke,
            Message::Unchoke => MessageView::Unchoke,
            Message::Interested => MessageView::Interested,
            Message::NotInterested => MessageView::NotInterested,
            Message::Have(i) => MessageView::Have(*i),
            Message::Bitfield(b) => MessageView::Bitfield(b@),
            Message::Request(i, b, l) => MessageView::Request(*i, *b, *l),
            Message::Piece(i, b, block) => MessageView::Piece(*i, *b, block@),
            Message::Cancel(i, b, l) => MessageView::Cancel(*i, *b, *l),
            Message::Port(p) => MessageView::Port(*p),
        }
    }
}

/// A decoding result with the message seen through its view.
pub open spec fn result_view(r: Result<Message, Error>) -> Result<MessageView, Error> {
    match r {
        Ok(m) => Ok(m@),
        Err(e) => Err(e),
    }
}

impl Message {
    /// The whole frame of the message: length prefix, id byte, payload.
    pub fn serialize(&self) -> (r: Vec<u8>)
        requires
            self@.body().len() <= u32::MAX,
        ensures
            r@ == self@.frame(),
    {
        let mut r: Vec<u8> = Vec::new();
        match self {
            Message::KeepAlive => {
                push_u32(&mut r, 0);
            },
            Message::Choke => {
                push_u32(&mut r, 1);
                r.push(0);
            },
            Message::Unchoke => {
                push_u32(&mut r, 1);
                r.push(1);
            },
            Message::Interested => {
                push_u32(&mut r, 1);
                r.push(2);
            },
            Message::NotInterested => {
                push_u32(&mut r, 1);
                r.push(3);
            },
            Message::Have(index) => {
                push_u32(&mut r, 5);
                r.push(4);
                push_u32(&mut r, *index);
            },
            Message::Bitfield(bitfield) => {
                push_u32(&mut r, (1 + bitfield.len()) as u32);
                r.push(5);
                push_all(&mut r, bitfield.as_slice());
            },
            Message::Request(index, begin, length) => {
                push_u32(&mut r, 13);
                r.push(6);
                push_u32(&mut r, *index);
                push_u32(&mut r, *begin);
                push_u32(&mut r, *length);
            },
            Message::Piece(index, begin, block) => {
                push_u32(&mut r, (9 + block.len()) as u32);
                r.push(7);
                push_u32(&mut r, *index);
                push_u32(&mut r, *begin);
                push_all(&mut r, block.as_slice());
            },
            Message::Cancel(index, begin, length) => {
                push_u32(&mut r, 13);
                r.push(8);
                push_u32(&mut r, *index);
                push_u32(&mut r, *begin);
                push_u32(&mut r, *length);
            },
            Message::Port(port) => {
                push_u32(&mut r, 3);
                r.push(9);
                push_u16(&mut r, *port);
            },
        }
        assert(r@ =~= self@.frame());
        r
    }

    /// Reads a message body, the bytes after the length prefix.
    pub fn deserialize(data: &[u8]) -> (r: Result<Message, Error>)
        ensures
            result_view(r) == decode(data@),
    {
        if data.len() == 0 || (data.len() == 4 && data[0] == 0 && data[1] == 0 && data[2] == 0
            && data[3] == 0) {
            proof {
                if data@.len() == 4 {
                    assert(data@ =~= seq![0u8, 0u8, 0u8, 0u8]);
                }
            }
            return Ok(Message::KeepAlive);
        }
        assert(!(data@ =~= seq![0u8, 0u8, 0u8, 0u8]));
        let id = data[0];
        let n = data.len();
        if id == 0 {
            Ok(Message::Choke)
        } else if id == 1 {
            Ok(Message::Unchoke)
        } else if id == 2 {
            Ok(Message::Interested)
        } else if id == 3 {
            Ok(Message::NotInterested)
        } else if id == 4 {
            if n != 5 {
                return Err(Error::InvalidFormat);
            }
            Ok(Message::Have(get_u32(data, 1)))
        } else if id == 5 {
            if n < 6 {
                return Err(Error::InvalidFormat);
            }
            Ok(Message::Bitfield(copy_range(data, 1, n)))
        } else if id == 6 || id == 8 {
            if n != 13 {
                return Err(Error::InvalidFormat);
            }
            let index = get_u32(data, 1);
            let begin = get_u32(data, 5);
            let length = get_u32(data, 9);
            if id == 6 {
                Ok(Message::Request(index, begin, length))
            } else {
                Ok(Message::Cancel(index, begin, length))
            }
        } else if id == 7 {
            if n < 9 {
                return Err(Error::InvalidFormat);
            }
            let index = get_u32(data, 1);
            let begin = get_u32(data, 5);
            Ok(Message::Piece(index, begin, copy_range(data, 9, n)))
        } else if id == 9 {
            if n != 3 {
                return Err(Error::InvalidFormat);
            }
            Ok(Message::Port(get_u16(data, 1)))
        } else {
            Err(Error::UnknownMessageType(id))
        }
    }

    /// The id byte of the message; a keep-alive, which has none on the wire, gives 0.
    pub fn id(&self) -> (r: u8)
        ensures
            r == self@.id(),
    {
        match self {
            Message::KeepAlive => 0,
            Message::Choke => 0,
            Message::Unchoke => 1,
            Message::Interested => 2,
            Message::NotInterested => 3,
            Message::Have(_) => 4,
            Message::Bitfield(_) => 5,
            Message::Request(_, _, _) => 6,
            Message::Piece(_, _, _) => 7,
            Message::Cancel(_, _, _) => 8,
            Message::Port(_) => 9,
        }
    }

    /// The length of the body, the value of the frame's length prefix.
    pub fn len(&self) -> (r: usize)
        requires
            self@.body().len() <= usize::MAX,
        ensures
            r == self@.body().len(),
    {
        match self {
            Message::KeepAlive => 0,
            Message::Choke => 1,
            Message::Unchoke => 1,
            Message::Interested => 1,
            Message::NotInterested => 1,
            Message::Have(_) => 5,
            Message::Bitfield(bitfield) => 1 + bitfield.len(),
            Message::Request(_, _, _) => 13,
            Message::Piece(_, _, block) => 9 + block.len(),
            Message::Cancel(_, _, _) => 13,
            Message::Port(_) => 3,
        }
    }
}

proof fn lemma_three_words(tag: u8, a: u32, b: u32, c: u32)
    ensures
        read32(seq![tag] + be32(a) + be32(b) + be32(c), 1) == a,
        read32(seq![tag] + be32(a) + be32(b) + be32(c), 5) == b,
        read32(seq![tag] + be32(a) + be32(b) + be32(c), 9) == c,
{
    let s = seq![tag] + be32(a) + be32(b) + be32(c);
    assert(s =~= seq![tag] + be32(a) + (be32(b) + be32(c)));
    lemma_be32_read(a, seq![tag], be32(b) + be32(c));
    assert(s =~= (seq![tag] + be32(a)) + be32(b) + be32(c));
    lemma_be32_read(b, seq![tag] + be32(a), be32(c));
    assert(s =~= (seq![tag] + be32(a) + be32(b)) + be32(c) + Seq::<u8>::empty());
    lemma_be32_read(c, seq![tag] + be32(a) + be32(b), Seq::empty());
}

/// Decoding the body of a message gives the message back, and the frame's
/// prefix holds the body's length. A bitfield's body must carry at least
/// the five payload bytes that decoding asks of it.
pub proof fn lemma_message_round_trip(m: MessageView)
    requires
        m.body().len() <= u32::MAX,
        m is Bitfield ==> m->Bitfield_0.len() >= 5,
    ensures
        decode(m.body()) == Ok::<MessageView, Error>(m),
        m.frame().subrange(4, m.frame().len() as int) == m.body(),
        read32(m.frame(), 0) == m.body().len(),
{
    let body = m.body();
    lemma_be32_read(body.len() as u32, Seq::empty(), body);
    assert(Seq::<u8>::empty() + be32(body.len() as u32) + body =~= m.frame());
    assert(m.frame().subrange(4, m.frame().len() as int) =~= body);
    match m {
        MessageView::KeepAlive => {},
        MessageView::Choke => {},
        MessageView::Unchoke => {},
        MessageView::Interested => {},
        MessageView::NotInterested => {},
        MessageView::Have(i) => {
            assert(body =~= seq![4u8] + be32(i) + Seq::<u8>::empty());
            lemma_be32_read(i, seq![4u8], Seq::empty());
        },
        MessageView::Bitfield(b) => {
            assert(body.subrange(1, body.len() as int) =~= b);
        },
        MessageView::Request(i, b, l) => {
            lemma_three_words(6, i, b, l);
        },
        MessageView::Piece(i, b, block) => {
            assert(body =~= seq![7u8] + be32(i) + (be32(b) + block));
            lemma_be32_read(i, seq![7u8], be32(b) + block);
            assert(body =~= (seq![7u8] + be32(i)) + be32(b) + block);
            lemma_be32_read(b, seq![7u8] + be32(i), block);
            assert(body.subrange(9, body.len() as int) =~= block);
        },
        MessageView::Cancel(i, b, l) => {
            lemma_three_words(8, i, b, l);
        },
        MessageView::Port(p) => {
            assert(body =~= seq![9u8] + be16(p) + Seq::<u8>::empty());
            lemma_be16_read(p, seq![9u8], Seq::empty());
        },
    }
}

} // verus!
