use vstd::prelude::*;
use vstd::string::*;

verus! {

/// The big-endian bytes of a 32-bit word.
pub open spec fn be32(x: u32) -> Seq<u8> {
    seq![(x >> 24u32) as u8, (x >> 16u32) as u8, (x >> 8u32) as u8, x as u8]
}

/// The 32-bit word whose big-endian bytes are `b0 b1 b2 b3`.
pub open spec fn word_from_be(b0: u8, b1: u8, b2: u8, b3: u8) -> u32 {
    ((b0 as u32) << 24u32) | ((b1 as u32) << 16u32) | ((b2 as u32) << 8u32) | (b3 as u32)
}

/// The big-endian word stored at byte offset `i` of `b`.
pub open spec fn word_at(b: Seq<u8>, i: int) -> u32 {
    word_from_be(b[i], b[i + 1], b[i + 2], b[i + 3])
}

/// The words of `s`, each as four big-endian bytes, in order.
pub open spec fn words_be(s: Seq<u32>) -> Seq<u8>
    decreases s.len(),
{
    if s.len() == 0 {
        Seq::empty()
    } else {
        words_be(s.drop_last()) + be32(s.last())
    }
}

/// Reading back the big-endian bytes of a word gives the word.
proof fn lemma_word_round_trip(x: u32)
    ensures
        word_from_be(be32(x)[0], be32(x)[1], be32(x)[2], be32(x)[3]) == x,
{
    let b0 = (x >> 24u32) as u8;
    let b1 = (x >> 16u32) as u8;
    let b2 = (x >> 8u32) as u8;
    let b3 = x as u8;
    assert(word_from_be(b0, b1, b2, b3) == x) by (bit_vector)
        requires
            b0 == (x >> 24u32) as u8,
            b1 == (x >> 16u32) as u8,
            b2 == (x >> 8u32) as u8,
            b3 == x as u8,
    ;
}

/// Appends the big-endian bytes of `x` to `out`.
fn push_be32(out: &mut Vec<u8>, x: u32)
    ensures
        final(out)@ == old(out)@ + be32(x),
{
    out.push((x >> 24u32) as u8);
    out.push((x >> 16u32) as u8);
    out.push((x >> 8u32) as u8);
    out.push(x as u8);
    assert(final(out)@ =~= old(out)@ + be32(x));
}

/// Reads the big-endian word at byte offset `i` of `data`.
fn read_be32(data: &[u8], i: usize) -> (r: u32)
    requires
        i + 4 <= data@.len(),
    ensures
        r == word_at(data@, i as int),
{
    ((data[i] as u32) << 24u32) | ((data[i + 1] as u32) << 16u32) | ((data[i + 2] as u32) << 8u32)
        | (data[i + 3] as u32)
}

/// The wire format of a channel, fixed when the channel is made.
#[derive(Debug, Clone, PartialEq, Eq)]
pub enum MessageType {
    /// One signed byte.
    Int8,
    /// A sequence of single-precision floats, each carried as its IEEE-754 bits.
    FloatArray,
    /// A tag, by name, for which this library has no wire format.
    Other(String),
}

impl MessageType {
    /// The tag a host names `name`: `"Int8"` and `"Float32MultiArray"` have a
    /// wire format; any other name is kept as an unsupported tag.
    pub fn from_name(name: &str) -> (r: MessageType)
        ensures
            name@ == "Int8"@ ==> r == MessageType::Int8,
            name@ == "Float32MultiArray"@ ==> r == MessageType::FloatArray,
            name@ != "Int8"@ && name@ != "Float32MultiArray"@ ==> (r matches MessageType::Other(s)
                && s@ == name@),
    {
        proof {
            reveal_strlit("Int8");
            reveal_strlit("Float32MultiArray");
            assert("Int8"@.len() != "Float32MultiArray"@.len());
        }
        let given = String::from_str(name);
        if given == String::from_str("Int8") {
            MessageType::Int8
        } else if given == String::from_str("Float32MultiArray") {
            MessageType::FloatArray
        } else {
            MessageType::Other(given)
        }
    }
}

/// A value carried by a channel. Floats are held as their IEEE-754 bit
/// patterns (`f32::to_bits`), so the codec never touches floating point.
#[derive(Debug, Clone, PartialEq, Eq)]
pub enum Message {
    Int8(i8),
    FloatArray(Vec<u32>),
}

/// The mathematical value of a `Message`.
pub ghost enum MessageView {
    Int8(i8),
    FloatArray(Seq<u32>),
}

impl View for Message {
    type V = MessageView;

    open spec fn view(&self) -> MessageView {
        match self {
            Message::Int8(v) => MessageView::Int8(*v),
            Message::FloatArray(v) => MessageView::FloatArray(v@),
        }
    }
}

/// What can go wrong in a channel.
#[derive(Debug, Clone, PartialEq, Eq)]
pub enum ChannelError {
    /// A socket could not be created or bound.
    BindError,
    /// The type-of-service option could not be applied to a socket.
    OptionError,
    /// The channel's tag has no wire format; `data` holds the bytes that were
    /// to be decoded, and is `None` when encoding.
    UnsupportedType { tag: String, data: Option<Vec<u8>> },
    /// The value does not have the shape the channel's tag calls for, or is
    /// too long for its length prefix.
    EncodeError,
    /// The bytes are too few for what the tag or the length prefix demands.
    MalformedPayload,
    /// A datagram could not be sent.
    TransportError,
}

/// Whether `m` can be encoded under tag `t`.
pub open spec fn encodable(t: MessageType, m: MessageView) -> bool {
    match (t, m) {
        (MessageType::Int8, MessageView::Int8(_)) => true,
        (MessageType::FloatArray, MessageView::FloatArray(s)) => s.len() <= u32::MAX,
        _ => false,
    }
}

/// The wire encoding of `m`: the raw byte of an `Int8`; for a float array a
/// big-endian element count followed by each element's big-endian bits.
pub open spec fn encoding(m: MessageView) -> Seq<u8> {
    match m {
        MessageView::Int8(v) => seq![v as u8],
        MessageView::FloatArray(s) => be32(s.len() as u32) + words_be(s),
    }
}

/// The value that `b` decodes to under a supported tag, or `None` when `b` is
/// too short. Bytes past the end of the value are ignored.
pub open spec fn decoding(t: MessageType, b: Seq<u8>) -> Option<MessageView> {
    match t {
        MessageType::Int8 => if b.len() == 0 {
            None
        } else {
            Some(MessageView::Int8(b[0] as i8))
        },
        MessageType::FloatArray => if b.len() < 4 || b.len() < 4 + 4 * word_at(b, 0) {
            None
        } else {
            Some(
                MessageView::FloatArray(
                    Seq::new(word_at(b, 0) as nat, |i: int| word_at(b, 4 + 4 * i)),
                ),
            )
        },
        MessageType::Other(_) => None,
    }
}

/// What `encode(t, m)` returns.
pub open spec fn encode_outcome(t: MessageType, m: MessageView, r: Result<Vec<u8>, ChannelError>) -> bool {
    match t {
        MessageType::Other(name) => r matches Err(ChannelError::UnsupportedType { tag, data })
            && tag@ == name@ && data is None,
        _ => if encodable(t, m) {
            r matches Ok(bytes) && bytes@ == encoding(m)
        } else {
            r == Err::<Vec<u8>, ChannelError>(ChannelError::EncodeError)
        },
    }
}

/// What `decode(t, b)` returns.
pub open spec fn decode_outcome(t: MessageType, b: Seq<u8>, r: Result<Message, ChannelError>) -> bool {
    match t {
        MessageType::Other(name) => r matches Err(ChannelError::UnsupportedType { tag, data: Some(d) })
            && tag@ == name@ && d@ == b,
        _ => match decoding(t, b) {
            None => r == Err::<Message, ChannelError>(ChannelError::MalformedPayload),
            Some(m) => r matches Ok(v) && v@ == m,
        },
    }
}

/// Encodes `value` in the wire format of `msg_type`.
pub fn encode(msg_type: &MessageType, value: &Message) -> (r: Result<Vec<u8>, ChannelError>)
    ensures
        encode_outcome(*msg_type, value@, r),
{
    match (msg_type, value) {
        (MessageType::Other(name), _) => Err(
            ChannelError::UnsupportedType { tag: name.clone(), data: None },
        ),
        (MessageType::Int8, Message::Int8(v)) => {
            let mut out: Vec<u8> = Vec::new();
            out.push(#[verifier::truncate] (*v as u8));
            assert(out@ =~= encoding(value@));
            Ok(out)
        },
        (MessageType::FloatArray, Message::FloatArray(items)) => {
            if items.len() > 0xffff_ffffusize {
                return Err(ChannelError::EncodeError);
            }
            let mut out: Vec<u8> = Vec::new();
            push_be32(&mut out, items.len() as u32);
            let mut i: usize = 0;
            while i < items.len()
                invariant
                    i <= items@.len() <= u32::MAX,
                    out@ == be32(items@.len() as u32) + words_be(items@.subrange(0, i as int)),
                decreases items@.len() - i,
            {
                let ghost before = out@;
                push_be32(&mut out, items[i]);
                assert(items@.subrange(0, i as int + 1).drop_last() =~= items@.subrange(0, i as int));
                assert(out@ =~= be32(items@.len() as u32) + words_be(items@.subrange(0, i as int + 1)));
                i = i + 1;
            }
            assert(items@.subrange(0, i as int) =~= items@);
            Ok(out)
        },
        _ => Err(ChannelError::EncodeError),
    }
}

/// Decodes `data` in the wire format of `msg_type`.
pub fn decode(msg_type: &MessageType, data: &[u8]) -> (r: Result<Message, ChannelError>)
    ensures
        decode_outcome(*msg_type, data@, r),
{
    match msg_type {
        MessageType::Other(name) => {
            let mut copy: Vec<u8> = Vec::new();
            let mut i: usize = 0;
            while i < data.len()
                invariant
                    i <= data@.len(),
                    copy@ == data@.subrange(0, i as int),
                decreases data@.len() - i,
            {
                copy.push(data[i]);
                assert(copy@ =~= data@.subrange(0, i as int + 1));
                i = i + 1;
            }
            assert(copy@ =~= data@);
            Err(ChannelError::UnsupportedType { tag: name.clone(), data: Some(copy) })
        },
        MessageType::Int8 => {
            if data.len() == 0 {
                Err(ChannelError::MalformedPayload)
            } else {
                Ok(Message::Int8(#[verifier::truncate] (data[0] as i8)))
            }
        },
        MessageType::FloatArray => {
            if data.len() < 4 {
                return Err(ChannelError::MalformedPayload);
            }
            let n = read_be32(data, 0);
            if ((data.len() - 4) / 4) < n as usize {
                return Err(ChannelError::MalformedPayload);
            }
            let len = data.len();
            assert(4 + 4 * (n as int) <= len) by (nonlinear_arith)
                requires
                    (n as int) <= (len - 4) / 4,
                    len >= 4,
            ;
            let mut items: Vec<u32> = Vec::new();
            let mut i: usize = 0;
            while i < n as usize
                invariant
                    n == word_at(data@, 0),
                    len == data@.len(),
                    4 + 4 * (n as int) <= len,
                    i <= n,
                    items@ =~= Seq::new(i as nat, |k: int| word_at(data@, 4 + 4 * k)),
                decreases n - i,
            {
                assert(4 + 4 * i + 4 <= 4 + 4 * (n as int)) by (nonlinear_arith)
                    requires
                        i < n,
                ;
                items.push(read_be32(data, 4 + 4 * i));
                i = i + 1;
            }
            Ok(Message::FloatArray(items))
        },
    }
}


proof fn lemma_words_be_len(s: Seq<u32>)
    ensures
        words_be(s).len() == 4 * s.len(),
    decreases s.len(),
{
    if s.len() > 0 {
        lemma_words_be_len(s.drop_last());
    }
}

proof fn lemma_words_be_index(s: Seq<u32>, k: int, j: int)
    requires
        0 <= k < s.len(),
        0 <= j < 4,
    ensures
        words_be(s)[4 * k + j] == be32(s[k])[j],
    decreases s.len(),
{
    let init = s.drop_last();
    lemma_words_be_len(init);
    if k < s.len() - 1 {
        lemma_words_be_index(init, k, j);
    }
}

/// Decoding what was encoded gives the value back, for every value that the
/// tag can encode.
pub proof fn lemma_round_trip(t: MessageType, m: MessageView)
    requires
        encodable(t, m),
    ensures
        decoding(t, encoding(m)) == Some(m),
{
    let b = encoding(m);
    match m {
        MessageView::Int8(v) => {
            assert(((v as u8) as i8) == v) by (bit_vector);
        },
        MessageView::FloatArray(s) => {
            let n = s.len() as u32;
            lemma_words_be_len(s);
            lemma_word_round_trip(n);
            assert(word_at(b, 0) == n);
            let decoded = Seq::new(word_at(b, 0) as nat, |i: int| word_at(b, 4 + 4 * i));
            assert forall|i: int| 0 <= i < s.len() implies decoded[i] == s[i] by {
                lemma_words_be_index(s, i, 0);
                lemma_words_be_index(s, i, 1);
                lemma_words_be_index(s, i, 2);
                lemma_words_be_index(s, i, 3);
                lemma_word_round_trip(s[i]);
            }
            assert(decoded =~= s);
        },
    }
}


/// Whatever `decode` makes of the bytes that `encode` produced for a value
/// under the same tag, it is that value.
pub proof fn lemma_decode_inverts_encode(
    t: MessageType,
    m: MessageView,
    encoded: Vec<u8>,
    r: Result<Message, ChannelError>,
)
    requires
        encode_outcome(t, m, Ok(encoded)),
        decode_outcome(t, encoded@, r),
    ensures
        r matches Ok(v) && v@ == m,
{
    lemma_round_trip(t, m);
}

} // verus!
