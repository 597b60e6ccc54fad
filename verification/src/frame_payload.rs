use vstd::prelude::*;

verus! {

use crate::action::{action_dec, action_enc, action_wf, Action, ActionV};
use crate::frame_type::FrameType;
use crate::nb_args::nb_args_dec;
use crate::typed_data::{typed_data_dec, typed_data_enc, typed_data_wf, TypedData, TypedDataV};
use crate::varint_string::{str_eq, varint_string_dec, varint_string_enc, VarintString};

/// One named message of a NOTIFY payload: a message name and its key/value
/// arguments, in wire order.
#[derive(Clone, PartialEq, Debug)]
pub struct Message {
    pub name: VarintString,
    pub args: Vec<(VarintString, TypedData)>,
}

/// The mathematical shape of a message.
pub struct MessageV {
    pub name: Seq<char>,
    pub args: Seq<(Seq<char>, TypedDataV)>,
}

/// The payload of a frame, in one of the three sub-grammars the protocol
/// knows.  Key/value lists and message arguments keep their wire order;
/// lookups take the last occurrence of a duplicated name.
#[derive(Clone, PartialEq, Debug)]
#[allow(non_camel_case_types)]
pub enum FramePayload {
    LIST_OF_MESSAGES(Vec<Message>),
    LIST_OF_ACTIONS(Vec<Action>),
    KV_LIST(Vec<(VarintString, TypedData)>),
}

/// The mathematical shape of a payload.
#[allow(non_camel_case_types)]
pub enum FramePayloadV {
    LIST_OF_MESSAGES(Seq<MessageV>),
    LIST_OF_ACTIONS(Seq<ActionV>),
    KV_LIST(Seq<(Seq<char>, TypedDataV)>),
}

/// Which sub-grammar a payload uses.
#[derive(Clone, Copy, PartialEq, Eq, Structural, Debug)]
#[allow(non_camel_case_types)]
pub enum FramePayloadType {
    LIST_OF_MESSAGES,
    LIST_OF_ACTIONS,
    KV_LIST,
}

/// The view of a sequence of key/value pairs.
pub open spec fn kv_pairs_view(v: Seq<(VarintString, TypedData)>) -> Seq<(Seq<char>, TypedDataV)> {
    Seq::new(v.len(), |i: int| (v[i].0@, v[i].1@))
}

impl View for Message {
    type V = MessageV;

    open spec fn view(&self) -> MessageV {
        MessageV { name: self.name@, args: kv_pairs_view(self.args@) }
    }
}

/// The view of a sequence of messages.
pub open spec fn messages_view(v: Seq<Message>) -> Seq<MessageV> {
    Seq::new(v.len(), |i: int| v[i]@)
}

/// The view of a sequence of actions.
pub open spec fn actions_view(v: Seq<Action>) -> Seq<ActionV> {
    Seq::new(v.len(), |i: int| v[i]@)
}

impl View for FramePayload {
    type V = FramePayloadV;

    open spec fn view(&self) -> FramePayloadV {
        match self {
            FramePayload::LIST_OF_MESSAGES(v) => FramePayloadV::LIST_OF_MESSAGES(
                messages_view(v@),
            ),
            FramePayload::LIST_OF_ACTIONS(v) => FramePayloadV::LIST_OF_ACTIONS(actions_view(v@)),
            FramePayload::KV_LIST(v) => FramePayloadV::KV_LIST(kv_pairs_view(v@)),
        }
    }
}

/// Structural soundness of one key/value pair: its name and value fit their
/// encodings.
pub open spec fn kv_item_wf(p: (Seq<char>, TypedDataV)) -> bool {
    &&& vstd::utf8::encode_utf8(p.0).len() <= u64::MAX
    &&& typed_data_wf(p.1)
}

/// Structural soundness of a key/value list.
pub open spec fn kv_wf(kv: Seq<(Seq<char>, TypedDataV)>) -> bool {
    forall|i: int| 0 <= i < kv.len() ==> kv_item_wf(#[trigger] kv[i])
}

/// Structural soundness of a message: its argument count fits the one-byte
/// field and its parts fit their encodings.
pub open spec fn message_wf(m: MessageV) -> bool {
    &&& vstd::utf8::encode_utf8(m.name).len() <= u64::MAX
    &&& m.args.len() <= 255
    &&& kv_wf(m.args)
}

pub open spec fn messages_wf(ms: Seq<MessageV>) -> bool {
    forall|i: int| 0 <= i < ms.len() ==> message_wf(#[trigger] ms[i])
}

pub open spec fn actions_wf(actions: Seq<ActionV>) -> bool {
    forall|i: int| 0 <= i < actions.len() ==> action_wf(#[trigger] actions[i])
}

/// Structural soundness of a payload.
pub open spec fn payload_wf(p: FramePayloadV) -> bool {
    match p {
        FramePayloadV::LIST_OF_MESSAGES(ms) => messages_wf(ms),
        FramePayloadV::LIST_OF_ACTIONS(actions) => actions_wf(actions),
        FramePayloadV::KV_LIST(kv) => kv_wf(kv),
    }
}

/// The sub-grammar each frame type selects; UNSET selects none.
pub open spec fn payload_type_of(t: FrameType) -> Option<FramePayloadType> {
    match t {
        FrameType::HAPROXY_HELLO => Some(FramePayloadType::KV_LIST),
        FrameType::HAPROXY_DISCONNECT => Some(FramePayloadType::KV_LIST),
        FrameType::AGENT_HELLO => Some(FramePayloadType::KV_LIST),
        FrameType::AGENT_DISCONNECT => Some(FramePayloadType::KV_LIST),
        FrameType::NOTIFY => Some(FramePayloadType::LIST_OF_MESSAGES),
        FrameType::ACK => Some(FramePayloadType::LIST_OF_ACTIONS),
        FrameType::UNSET => None,
    }
}

/// The sub-grammar each frame type selects, as executable code.
pub fn payload_type_of_exec(t: FrameType) -> (r: Option<FramePayloadType>)
    ensures
        r == payload_type_of(t),
{
    match t {
        FrameType::HAPROXY_HELLO => Some(FramePayloadType::KV_LIST),
        FrameType::HAPROXY_DISCONNECT => Some(FramePayloadType::KV_LIST),
        FrameType::AGENT_HELLO => Some(FramePayloadType::KV_LIST),
        FrameType::AGENT_DISCONNECT => Some(FramePayloadType::KV_LIST),
        FrameType::NOTIFY => Some(FramePayloadType::LIST_OF_MESSAGES),
        FrameType::ACK => Some(FramePayloadType::LIST_OF_ACTIONS),
        FrameType::UNSET => None,
    }
}

/// The sub-grammar a payload value belongs to.
pub open spec fn payload_type_of_payload(p: FramePayloadV) -> FramePayloadType {
    match p {
        FramePayloadV::LIST_OF_MESSAGES(_) => FramePayloadType::LIST_OF_MESSAGES,
        FramePayloadV::LIST_OF_ACTIONS(_) => FramePayloadType::LIST_OF_ACTIONS,
        FramePayloadV::KV_LIST(_) => FramePayloadType::KV_LIST,
    }
}

/// The concatenation of `f` applied to each element of `s`, in order.
pub open spec fn concat_map<T>(s: Seq<T>, f: spec_fn(T) -> Seq<u8>) -> Seq<u8>
    decreases s.len(),
{
    if s.len() == 0 {
        Seq::empty()
    } else {
        f(s[0]) + concat_map(s.skip(1), f)
    }
}

/// Extending a list by one element appends that element's encoding.
proof fn lemma_concat_map_snoc<T>(s: Seq<T>, f: spec_fn(T) -> Seq<u8>, i: int)
    requires
        0 <= i < s.len(),
    ensures
        concat_map(s.take(i + 1), f) == concat_map(s.take(i), f) + f(s[i]),
    decreases i,
{
    if i == 0 {
        assert(s.take(0) =~= Seq::<T>::empty());
        assert(s.take(1)[0] == s[0]);
        assert(s.take(1).skip(1) =~= Seq::<T>::empty());
        assert(concat_map(Seq::<T>::empty(), f) == Seq::<u8>::empty());
        assert(concat_map(s.take(1), f) == f(s.take(1)[0]) + concat_map(s.take(1).skip(1), f));
        assert(concat_map(s.take(0), f) == Seq::<u8>::empty());
        assert(concat_map(s.take(1), f) =~= Seq::<u8>::empty() + f(s[0]));
    } else {
        lemma_concat_map_snoc(s.skip(1), f, i - 1);
        assert(s.take(i + 1).skip(1) =~= s.skip(1).take(i));
        assert(s.take(i).skip(1) =~= s.skip(1).take(i - 1));
        assert(s.take(i + 1)[0] == s[0]);
        assert(s.take(i)[0] == s[0]);
        assert(s.skip(1)[i - 1] == s[i]);
        assert(concat_map(s.take(i + 1), f) == f(s[0]) + concat_map(s.skip(1).take(i), f));
        assert(concat_map(s.take(i), f) == f(s[0]) + concat_map(s.skip(1).take(i - 1), f));
        assert(concat_map(s.take(i + 1), f) =~= concat_map(s.take(i), f) + f(s[i]));
    }
}

/// The wire encoding of one key/value pair: the name, then the value.
pub open spec fn pair_enc(p: (Seq<char>, TypedDataV)) -> Seq<u8> {
    varint_string_enc(p.0) + typed_data_enc(p.1)
}

/// The wire encoding of key/value pairs: each name then its value, in order.
pub open spec fn pairs_enc(kv: Seq<(Seq<char>, TypedDataV)>) -> Seq<u8> {
    concat_map(kv, |p: (Seq<char>, TypedDataV)| pair_enc(p))
}

/// The wire encoding of one message: its name, its argument count, and its
/// arguments.
pub open spec fn message_enc(m: MessageV) -> Seq<u8> {
    varint_string_enc(m.name) + seq![m.args.len() as u8] + pairs_enc(m.args)
}

/// The wire encoding of a list of messages.
pub open spec fn messages_enc(ms: Seq<MessageV>) -> Seq<u8> {
    concat_map(ms, |m: MessageV| message_enc(m))
}

/// The wire encoding of a list of actions.
pub open spec fn actions_enc(actions: Seq<ActionV>) -> Seq<u8> {
    concat_map(actions, |a: ActionV| action_enc(a))
}

/// The wire encoding of a payload.
pub open spec fn payload_enc(p: FramePayloadV) -> Seq<u8> {
    match p {
        FramePayloadV::LIST_OF_MESSAGES(ms) => messages_enc(ms),
        FramePayloadV::LIST_OF_ACTIONS(actions) => actions_enc(actions),
        FramePayloadV::KV_LIST(kv) => pairs_enc(kv),
    }
}

/// The reason a payload fails to decode.
#[derive(Clone, Copy, PartialEq, Eq, Structural, Debug)]
pub enum FramePayloadParseError {
    InvalidKvListName,
    InvalidKvListValue,
    InvalidListOfMessagesMessageName,
    InvalidListOfMessagesNBArgs,
    InvalidListOfMessagesKvListName,
    InvalidListOfMessagesKvListValue,
    InvalidListOfActions,
}

/// Decodes a KV-list: name/value pairs until the buffer is exhausted.
pub open spec fn kv_dec(s: Seq<u8>) -> Result<Seq<(Seq<char>, TypedDataV)>, FramePayloadParseError>
    decreases s.len(),
    via kv_dec_decreases
{
    if s.len() == 0 {
        Ok(Seq::empty())
    } else {
        match varint_string_dec(s) {
            Err(_) => Err(FramePayloadParseError::InvalidKvListName),
            Ok((name, n)) => match typed_data_dec(s.skip(n)) {
                Err(_) => Err(FramePayloadParseError::InvalidKvListValue),
                Ok((value, m)) => match kv_dec(s.skip(n + m)) {
                    Err(e) => Err(e),
                    Ok(tail) => Ok(seq![(name, value)] + tail),
                },
            },
        }
    }
}

#[via_fn]
proof fn kv_dec_decreases(s: Seq<u8>) {
    crate::varint_string::lemma_varint_string_dec_bounds(s);
    if s.len() != 0 && varint_string_dec(s) is Ok {
        let (name, n) = varint_string_dec(s).unwrap();
        crate::typed_data::lemma_typed_data_dec_bounds(s.skip(n));
    }
}

/// Decodes exactly `k` message arguments, returning them and the bytes
/// consumed.
pub open spec fn msg_args_dec(s: Seq<u8>, k: int) -> Result<
    (Seq<(Seq<char>, TypedDataV)>, int),
    FramePayloadParseError,
>
    decreases k,
{
    if k <= 0 {
        Ok((Seq::empty(), 0))
    } else {
        match varint_string_dec(s) {
            Err(_) => Err(FramePayloadParseError::InvalidListOfMessagesKvListName),
            Ok((name, n)) => match typed_data_dec(s.skip(n)) {
                Err(_) => Err(FramePayloadParseError::InvalidListOfMessagesKvListValue),
                Ok((value, m)) => match msg_args_dec(s.skip(n + m), k - 1) {
                    Err(e) => Err(e),
                    Ok((tail, c)) => Ok((seq![(name, value)] + tail, n + m + c)),
                },
            },
        }
    }
}

/// The bytes consumed by `k` decoded arguments never exceed the input.
proof fn lemma_msg_args_dec_bounds(s: Seq<u8>, k: int)
    ensures
        msg_args_dec(s, k) matches Ok((items, c)) ==> 0 <= c <= s.len() && items.len() == (if k
            <= 0 {
            0int
        } else {
            k
        }),
    decreases k,
{
    if k > 0 && msg_args_dec(s, k) is Ok {
        crate::varint_string::lemma_varint_string_dec_bounds(s);
        let (name, n) = varint_string_dec(s).unwrap();
        crate::typed_data::lemma_typed_data_dec_bounds(s.skip(n));
        let (value, m) = typed_data_dec(s.skip(n)).unwrap();
        lemma_msg_args_dec_bounds(s.skip(n + m), k - 1);
    }
}

/// Decodes a list of messages: name, count, arguments, until the buffer is
/// exhausted.
pub open spec fn messages_dec(s: Seq<u8>) -> Result<Seq<MessageV>, FramePayloadParseError>
    decreases s.len(),
    via messages_dec_decreases
{
    if s.len() == 0 {
        Ok(Seq::empty())
    } else {
        match varint_string_dec(s) {
            Err(_) => Err(FramePayloadParseError::InvalidListOfMessagesMessageName),
            Ok((name, n)) => match nb_args_dec(s.skip(n)) {
                None => Err(FramePayloadParseError::InvalidListOfMessagesNBArgs),
                Some((nb, _)) => match msg_args_dec(s.skip(n + 1), nb as int) {
                    Err(e) => Err(e),
                    Ok((args, c)) => match messages_dec(s.skip(n + 1 + c)) {
                        Err(e) => Err(e),
                        Ok(tail) => Ok(seq![MessageV { name, args }] + tail),
                    },
                },
            },
        }
    }
}

#[via_fn]
proof fn messages_dec_decreases(s: Seq<u8>) {
    crate::varint_string::lemma_varint_string_dec_bounds(s);
    if s.len() != 0 && varint_string_dec(s) is Ok {
        let (name, n) = varint_string_dec(s).unwrap();
        if nb_args_dec(s.skip(n)) is Some {
            let (nb, _) = nb_args_dec(s.skip(n)).unwrap();
            lemma_msg_args_dec_bounds(s.skip(n + 1), nb as int);
        }
    }
}

/// Decodes a list of actions until the buffer is exhausted.
pub open spec fn actions_dec(s: Seq<u8>) -> Result<Seq<ActionV>, FramePayloadParseError>
    decreases s.len(),
    via actions_dec_decreases
{
    if s.len() == 0 {
        Ok(Seq::empty())
    } else {
        match action_dec(s) {
            Err(_) => Err(FramePayloadParseError::InvalidListOfActions),
            Ok((a, n)) => match actions_dec(s.skip(n)) {
                Err(e) => Err(e),
                Ok(tail) => Ok(seq![a] + tail),
            },
        }
    }
}

#[via_fn]
proof fn actions_dec_decreases(s: Seq<u8>) {
    crate::action::lemma_action_dec_bounds(s);
}

/// Decodes a whole payload buffer under the given sub-grammar.
pub open spec fn payload_dec(s: Seq<u8>, t: FramePayloadType) -> Result<
    FramePayloadV,
    FramePayloadParseError,
> {
    match t {
        FramePayloadType::LIST_OF_MESSAGES => match messages_dec(s) {
            Err(e) => Err(e),
            Ok(ms) => Ok(FramePayloadV::LIST_OF_MESSAGES(ms)),
        },
        FramePayloadType::LIST_OF_ACTIONS => match actions_dec(s) {
            Err(e) => Err(e),
            Ok(actions) => Ok(FramePayloadV::LIST_OF_ACTIONS(actions)),
        },
        FramePayloadType::KV_LIST => match kv_dec(s) {
            Err(e) => Err(e),
            Ok(kv) => Ok(FramePayloadV::KV_LIST(kv)),
        },
    }
}

/// The value a payload yields for `name`: the last pair of a KV-list under
/// that name, and nothing for the other payload shapes.
pub open spec fn payload_kv_lookup(p: FramePayloadV, name: Seq<char>) -> Option<TypedDataV> {
    match p {
        FramePayloadV::KV_LIST(kv) => kv_lookup(kv, name),
        _ => None,
    }
}

/// The last value stored under `name`, later pairs shadowing earlier ones.
pub open spec fn kv_lookup(kv: Seq<(Seq<char>, TypedDataV)>, name: Seq<char>) -> Option<TypedDataV>
    decreases kv.len(),
{
    if kv.len() == 0 {
        None
    } else if kv[kv.len() - 1].0 == name {
        Some(kv[kv.len() - 1].1)
    } else {
        kv_lookup(kv.drop_last(), name)
    }
}

/// Decodes name/value pairs until the buffer is exhausted.
#[verifier::rlimit(100)]
fn decode_kv_pairs(bytes: &[u8], pos: usize) -> (r: Result<
    Vec<(VarintString, TypedData)>,
    FramePayloadParseError,
>)
    requires
        pos <= bytes@.len(),
    ensures
        match r {
            Ok(v) => {
                &&& kv_dec(bytes@.skip(pos as int)) == Ok::<_, FramePayloadParseError>(
                    kv_pairs_view(v@),
                )
                &&& kv_wf(kv_pairs_view(v@))
            },
            Err(e) => kv_dec(bytes@.skip(pos as int)) == Err::<Seq<(Seq<char>, TypedDataV)>, _>(e),
        },
{
    let ghost s = bytes@.skip(pos as int);
    let mut items: Vec<(VarintString, TypedData)> = Vec::new();
    let mut i: usize = pos;
    proof {
        assert(kv_pairs_view(items@) =~= Seq::<(Seq<char>, TypedDataV)>::empty());
    }
    loop
        invariant
            pos <= i <= bytes@.len(),
            s == bytes@.skip(pos as int),
            kv_wf(kv_pairs_view(items@)),
            match kv_dec(bytes@.skip(i as int)) {
                Ok(t) => kv_dec(s) == Ok::<_, FramePayloadParseError>(kv_pairs_view(items@) + t),
                Err(e) => kv_dec(s) == Err::<Seq<(Seq<char>, TypedDataV)>, _>(e),
            },
        decreases bytes@.len() - i,
    {
        if i >= bytes.len() {
            proof {
                assert(bytes@.skip(i as int) =~= Seq::<u8>::empty());
                assert(kv_pairs_view(items@) + Seq::<(Seq<char>, TypedDataV)>::empty()
                    =~= kv_pairs_view(items@));
            }
            return Ok(items);
        }
        let ghost cur = bytes@.skip(i as int);
        assert(cur.len() > 0);
        let (name, p) = match VarintString::decode(bytes, i) {
            Ok(v) => v,
            Err(_) => {
                return Err(FramePayloadParseError::InvalidKvListName);
            },
        };
        assert(cur.skip(p - i) =~= bytes@.skip(p as int));
        let (value, q) = match TypedData::decode(bytes, p) {
            Ok(v) => v,
            Err(_) => {
                return Err(FramePayloadParseError::InvalidKvListValue);
            },
        };
        assert(cur.skip(q - i) =~= bytes@.skip(q as int));
        proof {
            crate::typed_data::lemma_decoded_string_wf(cur, name@, p - i);
        }
        let ghost before = items@;
        items.push((name, value));
        proof {
            assert(kv_pairs_view(items@) =~= kv_pairs_view(before) + seq![(name@, value@)]);
            if kv_dec(bytes@.skip(q as int)) is Ok {
                let t = kv_dec(bytes@.skip(q as int)).unwrap();
                assert(kv_dec(cur) == Ok::<_, FramePayloadParseError>(seq![(name@, value@)] + t));
                assert(kv_pairs_view(before) + (seq![(name@, value@)] + t) =~= kv_pairs_view(
                    items@,
                ) + t);
            }
        }
        i = q;
    }
}

/// Decodes exactly `count` message arguments, returning them and the
/// position just past them.
#[verifier::rlimit(100)]
fn decode_msg_args(bytes: &[u8], pos: usize, count: u8) -> (r: Result<
    (Vec<(VarintString, TypedData)>, usize),
    FramePayloadParseError,
>)
    requires
        pos <= bytes@.len(),
    ensures
        match r {
            Ok((v, end)) => {
                &&& msg_args_dec(bytes@.skip(pos as int), count as int) == Ok::<
                    _,
                    FramePayloadParseError,
                >((kv_pairs_view(v@), end - pos))
                &&& kv_wf(kv_pairs_view(v@))
                &&& v@.len() == count
                &&& pos <= end <= bytes@.len()
            },
            Err(e) => msg_args_dec(bytes@.skip(pos as int), count as int) == Err::<
                (Seq<(Seq<char>, TypedDataV)>, int),
                _,
            >(e),
        },
{
    let ghost s = bytes@.skip(pos as int);
    let mut items: Vec<(VarintString, TypedData)> = Vec::new();
    let mut i: usize = pos;
    let mut left: u8 = count;
    proof {
        assert(kv_pairs_view(items@) =~= Seq::<(Seq<char>, TypedDataV)>::empty());
    }
    loop
        invariant
            pos <= i <= bytes@.len(),
            s == bytes@.skip(pos as int),
            kv_wf(kv_pairs_view(items@)),
            items@.len() + left == count,
            match msg_args_dec(bytes@.skip(i as int), left as int) {
                Ok((t, c)) => msg_args_dec(s, count as int) == Ok::<_, FramePayloadParseError>(
                    (kv_pairs_view(items@) + t, i - pos + c),
                ),
                Err(e) => msg_args_dec(s, count as int) == Err::<
                    (Seq<(Seq<char>, TypedDataV)>, int),
                    _,
                >(e),
            },
        decreases left,
    {
        if left == 0 {
            proof {
                assert(kv_pairs_view(items@) + Seq::<(Seq<char>, TypedDataV)>::empty()
                    =~= kv_pairs_view(items@));
            }
            return Ok((items, i));
        }
        let ghost cur = bytes@.skip(i as int);
        let (name, p) = match VarintString::decode(bytes, i) {
            Ok(v) => v,
            Err(_) => {
                return Err(FramePayloadParseError::InvalidListOfMessagesKvListName);
            },
        };
        assert(cur.skip(p - i) =~= bytes@.skip(p as int));
        let (value, q) = match TypedData::decode(bytes, p) {
            Ok(v) => v,
            Err(_) => {
                return Err(FramePayloadParseError::InvalidListOfMessagesKvListValue);
            },
        };
        assert(cur.skip(q - i) =~= bytes@.skip(q as int));
        proof {
            crate::typed_data::lemma_decoded_string_wf(cur, name@, p - i);
        }
        let ghost before = items@;
        items.push((name, value));
        left = left - 1;
        proof {
            assert(kv_pairs_view(items@) =~= kv_pairs_view(before) + seq![(name@, value@)]);
            if msg_args_dec(bytes@.skip(q as int), left as int) is Ok {
                let (t, c) = msg_args_dec(bytes@.skip(q as int), left as int).unwrap();
                assert(kv_pairs_view(before) + (seq![(name@, value@)] + t) =~= kv_pairs_view(
                    items@,
                ) + t);
            }
        }
        i = q;
    }
}

/// Decodes messages until the buffer is exhausted.
#[verifier::rlimit(100)]
fn decode_messages(bytes: &[u8], pos: usize) -> (r: Result<Vec<Message>, FramePayloadParseError>)
    requires
        pos <= bytes@.len(),
    ensures
        match r {
            Ok(v) => {
                &&& messages_dec(bytes@.skip(pos as int)) == Ok::<_, FramePayloadParseError>(
                    messages_view(v@),
                )
                &&& messages_wf(messages_view(v@))
            },
            Err(e) => messages_dec(bytes@.skip(pos as int)) == Err::<Seq<MessageV>, _>(e),
        },
{
    let ghost s = bytes@.skip(pos as int);
    let mut items: Vec<Message> = Vec::new();
    let mut i: usize = pos;
    proof {
        assert(messages_view(items@) =~= Seq::<MessageV>::empty());
    }
    loop
        invariant
            pos <= i <= bytes@.len(),
            s == bytes@.skip(pos as int),
            messages_wf(messages_view(items@)),
            match messages_dec(bytes@.skip(i as int)) {
                Ok(t) => messages_dec(s) == Ok::<_, FramePayloadParseError>(
                    messages_view(items@) + t,
                ),
                Err(e) => messages_dec(s) == Err::<Seq<MessageV>, _>(e),
            },
        decreases bytes@.len() - i,
    {
        if i >= bytes.len() {
            proof {
                assert(bytes@.skip(i as int) =~= Seq::<u8>::empty());
                assert(messages_view(items@) + Seq::<MessageV>::empty() =~= messages_view(items@));
            }
            return Ok(items);
        }
        let ghost cur = bytes@.skip(i as int);
        assert(cur.len() > 0);
        let (name, p) = match VarintString::decode(bytes, i) {
            Ok(v) => v,
            Err(_) => {
                return Err(FramePayloadParseError::InvalidListOfMessagesMessageName);
            },
        };
        assert(cur.skip(p - i) =~= bytes@.skip(p as int));
        let (nb, p1) = match crate::nb_args::NBArgs::decode(bytes, p) {
            Ok(v) => v,
            Err(_) => {
                return Err(FramePayloadParseError::InvalidListOfMessagesNBArgs);
            },
        };
        assert(cur.skip(p1 - i) =~= bytes@.skip(p1 as int));
        let (args, q) = match decode_msg_args(bytes, p1, nb.val()) {
            Ok(v) => v,
            Err(e) => {
                return Err(e);
            },
        };
        assert(cur.skip(q - i) =~= bytes@.skip(q as int));
        proof {
            crate::typed_data::lemma_decoded_string_wf(cur, name@, p - i);
        }
        let ghost before = items@;
        let message = Message { name, args };
        assert(message@ == (MessageV { name: message.name@, args: kv_pairs_view(message.args@) }));
        items.push(message);
        proof {
            assert(messages_view(items@) =~= messages_view(before) + seq![message@]);
            if messages_dec(bytes@.skip(q as int)) is Ok {
                let t = messages_dec(bytes@.skip(q as int)).unwrap();
                assert(messages_view(before) + (seq![message@] + t) =~= messages_view(items@) + t);
            }
        }
        i = q;
    }
}

/// Decodes actions until the buffer is exhausted.
#[verifier::rlimit(100)]
fn decode_actions(bytes: &[u8], pos: usize) -> (r: Result<Vec<Action>, FramePayloadParseError>)
    requires
        pos <= bytes@.len(),
    ensures
        match r {
            Ok(v) => {
                &&& actions_dec(bytes@.skip(pos as int)) == Ok::<_, FramePayloadParseError>(
                    actions_view(v@),
                )
                &&& actions_wf(actions_view(v@))
            },
            Err(e) => actions_dec(bytes@.skip(pos as int)) == Err::<Seq<ActionV>, _>(e),
        },
{
    let ghost s = bytes@.skip(pos as int);
    let mut items: Vec<Action> = Vec::new();
    let mut i: usize = pos;
    proof {
        assert(actions_view(items@) =~= Seq::<ActionV>::empty());
    }
    loop
        invariant
            pos <= i <= bytes@.len(),
            s == bytes@.skip(pos as int),
            actions_wf(actions_view(items@)),
            match actions_dec(bytes@.skip(i as int)) {
                Ok(t) => actions_dec(s) == Ok::<_, FramePayloadParseError>(
                    actions_view(items@) + t,
                ),
                Err(e) => actions_dec(s) == Err::<Seq<ActionV>, _>(e),
            },
        decreases bytes@.len() - i,
    {
        if i >= bytes.len() {
            proof {
                assert(bytes@.skip(i as int) =~= Seq::<u8>::empty());
                assert(actions_view(items@) + Seq::<ActionV>::empty() =~= actions_view(items@));
            }
            return Ok(items);
        }
        let ghost cur = bytes@.skip(i as int);
        assert(cur.len() > 0);
        let (action, q) = match Action::decode(bytes, i) {
            Ok(v) => v,
            Err(_) => {
                return Err(FramePayloadParseError::InvalidListOfActions);
            },
        };
        assert(cur.skip(q - i) =~= bytes@.skip(q as int));
        let ghost before = items@;
        items.push(action);
        proof {
            assert(actions_view(items@) =~= actions_view(before) + seq![action@]);
            if actions_dec(bytes@.skip(q as int)) is Ok {
                let t = actions_dec(bytes@.skip(q as int)).unwrap();
                assert(actions_view(before) + (seq![action@] + t) =~= actions_view(items@) + t);
            }
        }
        i = q;
    }
}

impl FramePayload {
    /// Decodes everything from `pos` to the end of `bytes` as one payload of
    /// the given sub-grammar.
    pub fn decode(bytes: &[u8], pos: usize, payload_type: FramePayloadType) -> (r: Result<
        FramePayload,
        FramePayloadParseError,
    >)
        requires
            pos <= bytes@.len(),
        ensures
            match r {
                Ok(p) => {
                    &&& payload_dec(bytes@.skip(pos as int), payload_type) == Ok::<
                        _,
                        FramePayloadParseError,
                    >(p@)
                    &&& payload_wf(p@)
                    &&& payload_type_of_payload(p@) == payload_type
                },
                Err(e) => payload_dec(bytes@.skip(pos as int), payload_type) == Err::<
                    FramePayloadV,
                    _,
                >(e),
            },
    {
        match payload_type {
            FramePayloadType::LIST_OF_MESSAGES => match decode_messages(bytes, pos) {
                Ok(v) => Ok(FramePayload::LIST_OF_MESSAGES(v)),
                Err(e) => Err(e),
            },
            FramePayloadType::LIST_OF_ACTIONS => match decode_actions(bytes, pos) {
                Ok(v) => Ok(FramePayload::LIST_OF_ACTIONS(v)),
                Err(e) => Err(e),
            },
            FramePayloadType::KV_LIST => match decode_kv_pairs(bytes, pos) {
                Ok(v) => Ok(FramePayload::KV_LIST(v)),
                Err(e) => Err(e),
            },
        }
    }

    /// Appends the payload's wire encoding to `buf`.
    pub fn write_to(&self, buf: &mut Vec<u8>)
        ensures
            final(buf)@ == old(buf)@ + payload_enc(self@),
    {
        match self {
            FramePayload::KV_LIST(kv) => {
                write_kv_pairs(kv, buf);
            },
            FramePayload::LIST_OF_MESSAGES(ms) => {
                let n = ms.len();
                let mut i: usize = 0;
                proof {
                    assert(messages_view(ms@).take(0) =~= Seq::<MessageV>::empty());
                }
                while i < n
                    invariant
                        0 <= i <= n,
                        n == ms@.len(),
                        self@ == FramePayloadV::LIST_OF_MESSAGES(messages_view(ms@)),
                        buf@ == old(buf)@ + messages_enc(messages_view(ms@).take(i as int)),
                    decreases n - i,
                {
                    let m = &ms[i];
                    m.name.write_to(buf);
                    buf.push(m.args.len() as u8);
                    write_kv_pairs(&m.args, buf);
                    proof {
                        lemma_messages_enc_snoc(messages_view(ms@), i as int);
                        assert(messages_view(ms@)[i as int] == ms@[i as int]@);
                        assert(buf@ =~= old(buf)@ + messages_enc(
                            messages_view(ms@).take(i + 1),
                        ));
                    }
                    i = i + 1;
                }
                proof {
                    assert(messages_view(ms@).take(n as int) =~= messages_view(ms@));
                }
            },
            FramePayload::LIST_OF_ACTIONS(actions) => {
                let n = actions.len();
                let mut i: usize = 0;
                proof {
                    assert(actions_view(actions@).take(0) =~= Seq::<ActionV>::empty());
                }
                while i < n
                    invariant
                        0 <= i <= n,
                        n == actions@.len(),
                        self@ == FramePayloadV::LIST_OF_ACTIONS(actions_view(actions@)),
                        buf@ == old(buf)@ + actions_enc(actions_view(actions@).take(i as int)),
                    decreases n - i,
                {
                    let a = &actions[i];
                    a.write_to(buf);
                    proof {
                        lemma_actions_enc_snoc(actions_view(actions@), i as int);
                        assert(actions_view(actions@)[i as int] == actions@[i as int]@);
                        assert(buf@ =~= old(buf)@ + actions_enc(
                            actions_view(actions@).take(i + 1),
                        ));
                    }
                    i = i + 1;
                }
                proof {
                    assert(actions_view(actions@).take(n as int) =~= actions_view(actions@));
                }
            },
        }
        assert(buf@ =~= old(buf)@ + payload_enc(self@));
    }

    /// The messages of a NOTIFY payload, if this payload carries any.
    pub fn get_list_of_messages(&self) -> (r: Option<&Vec<Message>>)
        ensures
            match *self {
                FramePayload::LIST_OF_MESSAGES(_) => r matches Some(v) && self@
                    == FramePayloadV::LIST_OF_MESSAGES(messages_view(v@)),
                _ => r is None,
            },
    {
        match self {
            Self::LIST_OF_MESSAGES(v) => Some(v),
            _ => None,
        }
    }

    /// The actions of an ACK payload, if this payload carries any.
    pub fn get_list_of_actions(&self) -> (r: Option<&Vec<Action>>)
        ensures
            match *self {
                FramePayload::LIST_OF_ACTIONS(_) => r matches Some(v) && self@
                    == FramePayloadV::LIST_OF_ACTIONS(actions_view(v@)),
                _ => r is None,
            },
    {
        match self {
            Self::LIST_OF_ACTIONS(v) => Some(v),
            _ => None,
        }
    }

    /// The value stored under `name` in a KV-list payload, the last
    /// occurrence winning, or `None` for the other payload shapes.
    pub fn get_kv_list_value(&self, name: &str) -> (r: Option<&TypedData>)
        ensures
            match payload_kv_lookup(self@, name@) {
                Some(v) => r matches Some(x) && x@ == v,
                None => r is None,
            },
    {
        let kv = match self {
            Self::KV_LIST(kv) => {
                assert(self@ == FramePayloadV::KV_LIST(kv_pairs_view(kv@)));
                kv
            },
            _ => {
                return None;
            },
        };
        let ghost kvv = kv_pairs_view(kv@);
        assert(self@ == FramePayloadV::KV_LIST(kvv));
        let mut i: usize = kv.len();
        assert(kvv.take(i as int) =~= kvv);
        while i > 0
            invariant
                0 <= i <= kv@.len(),
                kvv == kv_pairs_view(kv@),
                self@ == FramePayloadV::KV_LIST(kvv),
                kv_lookup(kvv, name@) == kv_lookup(kvv.take(i as int), name@),
            decreases i,
        {
            i = i - 1;
            let hit = str_eq(kv[i].0.val(), name);
            proof {
                assert(kvv.take(i + 1).drop_last() =~= kvv.take(i as int));
                assert(kvv.take(i + 1).last() == kvv[i as int]);
            }
            if hit {
                proof {
                    assert(kvv[i as int] == (kv@[i as int].0@, kv@[i as int].1@));
                    assert(kvv.take(i + 1).last().0 == name@);
                    assert(kv_lookup(kvv.take(i + 1), name@) == Some(kvv[i as int].1));
                    assert(kv_lookup(kvv, name@) == Some(kv@[i as int].1@));
                    assert(self@ == FramePayloadV::KV_LIST(kvv));
                    assert(payload_kv_lookup(self@, name@) == Some(kv@[i as int].1@));
                }
                let item = &kv[i];
                assert(item.1@ == kv@[i as int].1@);
                return Some(&item.1);
            }
        }
        proof {
            assert(kvv.take(0) =~= Seq::<(Seq<char>, TypedDataV)>::empty());
        }
        None
    }
}

/// Appends the wire encoding of name/value pairs to `buf`.
fn write_kv_pairs(kv: &Vec<(VarintString, TypedData)>, buf: &mut Vec<u8>)
    ensures
        final(buf)@ == old(buf)@ + pairs_enc(kv_pairs_view(kv@)),
{
    let n = kv.len();
    let mut i: usize = 0;
    proof {
        assert(kv_pairs_view(kv@).take(0) =~= Seq::<(Seq<char>, TypedDataV)>::empty());
    }
    while i < n
        invariant
            0 <= i <= n,
            n == kv@.len(),
            buf@ == old(buf)@ + pairs_enc(kv_pairs_view(kv@).take(i as int)),
        decreases n - i,
    {
        let item = &kv[i];
        item.0.write_to(buf);
        item.1.write_to(buf);
        proof {
            lemma_pairs_enc_snoc(kv_pairs_view(kv@), i as int);
            assert(kv_pairs_view(kv@)[i as int] == (kv@[i as int].0@, kv@[i as int].1@));
            assert(buf@ =~= old(buf)@ + pairs_enc(kv_pairs_view(kv@).take(i + 1)));
        }
        i = i + 1;
    }
    proof {
        assert(kv_pairs_view(kv@).take(n as int) =~= kv_pairs_view(kv@));
    }
}

/// Extending a pair list by one pair appends that pair's encoding.
proof fn lemma_pairs_enc_snoc(kv: Seq<(Seq<char>, TypedDataV)>, i: int)
    requires
        0 <= i < kv.len(),
    ensures
        pairs_enc(kv.take(i + 1)) == pairs_enc(kv.take(i)) + (varint_string_enc(kv[i].0)
            + typed_data_enc(kv[i].1)),
{
    lemma_concat_map_snoc(kv, |p: (Seq<char>, TypedDataV)| pair_enc(p), i);
}

/// Extending a message list by one message appends that message's encoding.
proof fn lemma_messages_enc_snoc(ms: Seq<MessageV>, i: int)
    requires
        0 <= i < ms.len(),
    ensures
        messages_enc(ms.take(i + 1)) == messages_enc(ms.take(i)) + message_enc(ms[i]),
{
    lemma_concat_map_snoc(ms, |m: MessageV| message_enc(m), i);
}

/// Extending an action list by one action appends that action's encoding.
proof fn lemma_actions_enc_snoc(actions: Seq<ActionV>, i: int)
    requires
        0 <= i < actions.len(),
    ensures
        actions_enc(actions.take(i + 1)) == actions_enc(actions.take(i)) + action_enc(actions[i]),
{
    lemma_concat_map_snoc(actions, |a: ActionV| action_enc(a), i);
}

/// Concatenation then skipping the first part leaves the second.
pub proof fn lemma_skip_concat<T>(a: Seq<T>, b: Seq<T>)
    ensures
        (a + b).skip(a.len() as int) == b,
{
    assert((a + b).skip(a.len() as int) =~= b);
}

/// Concatenation of sequences associates.
proof fn lemma_concat_assoc<T>(a: Seq<T>, b: Seq<T>, c: Seq<T>)
    ensures
        (a + b) + c == a + (b + c),
{
    assert((a + b) + c =~= a + (b + c));
}

/// A non-empty sequence is its head element followed by its tail.
proof fn lemma_cons_skip<T>(s: Seq<T>)
    requires
        s.len() > 0,
    ensures
        seq![s[0]] + s.skip(1) == s,
{
    assert(seq![s[0]] + s.skip(1) =~= s);
}

/// The inductive step of the KV-list round trip: one pair in front of an
/// already-inverted tail.
proof fn lemma_kv_round_trip_step(kv: Seq<(Seq<char>, TypedDataV)>)
    requires
        kv_wf(kv),
        kv.len() > 0,
        kv_dec(pairs_enc(kv.skip(1))) == Ok::<_, FramePayloadParseError>(kv.skip(1)),
    ensures
        kv_dec(pairs_enc(kv)) == Ok::<_, FramePayloadParseError>(kv),
{
    let tail = kv.skip(1);
    let ne = varint_string_enc(kv[0].0);
    let ve = typed_data_enc(kv[0].1);
    let pt = pairs_enc(tail);
    let whole = pairs_enc(kv);
    assert(whole == (ne + ve) + pt);
    lemma_concat_assoc(ne, ve, pt);
    crate::varint_string::lemma_varint_string_round_trip(kv[0].0, ve + pt);
    lemma_skip_concat(ne, ve + pt);
    crate::typed_data::lemma_typed_data_round_trip(kv[0].1, pt);
    lemma_skip_concat(ne + ve, pt);
    assert(whole.skip(ne.len() + ve.len() as int) == pt);
    assert(ne.len() > 0) by {
        crate::varint_string::lemma_varint_string_dec_bounds(whole);
    }
    assert((kv[0].0, kv[0].1) == kv[0]);
    assert(kv_dec(whole) == Ok::<_, FramePayloadParseError>(seq![kv[0]] + tail));
    lemma_cons_skip(kv);
}

/// Encode/decode round trip for KV-lists: the pair encoding of a well-formed
/// list decodes back to the list.
pub proof fn lemma_kv_round_trip(kv: Seq<(Seq<char>, TypedDataV)>)
    requires
        kv_wf(kv),
    ensures
        kv_dec(pairs_enc(kv)) == Ok::<_, FramePayloadParseError>(kv),
    decreases kv.len(),
{
    if kv.len() == 0 {
        assert(kv =~= Seq::<(Seq<char>, TypedDataV)>::empty());
    } else {
        let tail = kv.skip(1);
        assert forall|j: int| 0 <= j < tail.len() implies kv_item_wf(#[trigger] tail[j]) by {
            assert(tail[j] == kv[j + 1]);
        }
        lemma_kv_round_trip(tail);
        lemma_kv_round_trip_step(kv);
    }
}

/// The inductive step of the counted-arguments round trip.
proof fn lemma_msg_args_round_trip_step(args: Seq<(Seq<char>, TypedDataV)>, rest: Seq<u8>)
    requires
        kv_wf(args),
        args.len() > 0,
        msg_args_dec(pairs_enc(args.skip(1)) + rest, args.len() - 1) == Ok::<
            _,
            FramePayloadParseError,
        >((args.skip(1), pairs_enc(args.skip(1)).len() as int)),
    ensures
        msg_args_dec(pairs_enc(args) + rest, args.len() as int) == Ok::<
            _,
            FramePayloadParseError,
        >((args, pairs_enc(args).len() as int)),
{
    let tail = args.skip(1);
    let ne = varint_string_enc(args[0].0);
    let ve = typed_data_enc(args[0].1);
    let pt = pairs_enc(tail);
    assert(pairs_enc(args) == (ne + ve) + pt);
    let whole = pairs_enc(args) + rest;
    lemma_concat_assoc(ne + ve, pt, rest);
    lemma_concat_assoc(ne, ve, pt + rest);
    assert(whole == ne + (ve + (pt + rest)));
    crate::varint_string::lemma_varint_string_round_trip(args[0].0, ve + (pt + rest));
    lemma_skip_concat(ne, ve + (pt + rest));
    crate::typed_data::lemma_typed_data_round_trip(args[0].1, pt + rest);
    lemma_skip_concat(ne + ve, pt + rest);
    assert((ne + ve) + (pt + rest) == whole) by {
        lemma_concat_assoc(ne, ve, pt + rest);
    }
    assert(whole.skip(ne.len() + ve.len() as int) == pt + rest);
    assert((args[0].0, args[0].1) == args[0]);
    assert(msg_args_dec(whole, args.len() as int) == Ok::<_, FramePayloadParseError>(
        (seq![args[0]] + tail, (ne.len() + ve.len() + pt.len()) as int),
    ));
    lemma_cons_skip(args);
}

/// Encode/decode round trip for exactly-counted message arguments, with any
/// byte stream following them.
proof fn lemma_msg_args_round_trip(args: Seq<(Seq<char>, TypedDataV)>, rest: Seq<u8>)
    requires
        kv_wf(args),
    ensures
        msg_args_dec(pairs_enc(args) + rest, args.len() as int) == Ok::<
            _,
            FramePayloadParseError,
        >((args, pairs_enc(args).len() as int)),
    decreases args.len(),
{
    if args.len() == 0 {
        assert(args =~= Seq::<(Seq<char>, TypedDataV)>::empty());
        assert(pairs_enc(args) + rest =~= rest);
    } else {
        let tail = args.skip(1);
        assert forall|j: int| 0 <= j < tail.len() implies kv_item_wf(#[trigger] tail[j]) by {
            assert(tail[j] == args[j + 1]);
        }
        lemma_msg_args_round_trip(tail, rest);
        lemma_msg_args_round_trip_step(args, rest);
    }
}

/// The inductive step of the message-list round trip.
proof fn lemma_messages_round_trip_step(ms: Seq<MessageV>)
    requires
        messages_wf(ms),
        ms.len() > 0,
        messages_dec(messages_enc(ms.skip(1))) == Ok::<_, FramePayloadParseError>(ms.skip(1)),
    ensures
        messages_dec(messages_enc(ms)) == Ok::<_, FramePayloadParseError>(ms),
{
    let m = ms[0];
    let tail = ms.skip(1);
    let ne = varint_string_enc(m.name);
    let nb: u8 = m.args.len() as u8;
    let ae = pairs_enc(m.args);
    let mt = messages_enc(tail);
    let whole = messages_enc(ms);
    assert(whole == ((ne + seq![nb]) + ae) + mt);
    lemma_concat_assoc(ne + seq![nb], ae, mt);
    lemma_concat_assoc(ne, seq![nb], ae + mt);
    assert(whole == ne + (seq![nb] + (ae + mt)));
    crate::varint_string::lemma_varint_string_round_trip(m.name, seq![nb] + (ae + mt));
    lemma_skip_concat(ne, seq![nb] + (ae + mt));
    assert(whole.skip(ne.len() as int)[0] == nb);
    lemma_skip_concat(ne + seq![nb], ae + mt);
    assert((ne + seq![nb]) + (ae + mt) == whole) by {
        lemma_concat_assoc(ne, seq![nb], ae + mt);
    }
    assert(whole.skip(ne.len() + 1 as int) == ae + mt);
    lemma_msg_args_round_trip(m.args, mt);
    assert(nb as int == m.args.len());
    lemma_skip_concat((ne + seq![nb]) + ae, mt);
    assert(((ne + seq![nb]) + ae) + mt == whole);
    assert(whole.skip(ne.len() + 1 + ae.len() as int) == mt);
    assert(ne.len() > 0) by {
        crate::varint_string::lemma_varint_string_dec_bounds(whole);
    }
    assert((MessageV { name: m.name, args: m.args }) == m);
    assert(messages_dec(whole) == Ok::<_, FramePayloadParseError>(seq![m] + tail));
    lemma_cons_skip(ms);
}

/// Encode/decode round trip for message lists.
pub proof fn lemma_messages_round_trip(ms: Seq<MessageV>)
    requires
        messages_wf(ms),
    ensures
        messages_dec(messages_enc(ms)) == Ok::<_, FramePayloadParseError>(ms),
    decreases ms.len(),
{
    if ms.len() == 0 {
        assert(ms =~= Seq::<MessageV>::empty());
    } else {
        let tail = ms.skip(1);
        assert forall|j: int| 0 <= j < tail.len() implies message_wf(#[trigger] tail[j]) by {
            assert(tail[j] == ms[j + 1]);
        }
        lemma_messages_round_trip(tail);
        lemma_messages_round_trip_step(ms);
    }
}

/// The inductive step of the action-list round trip.
proof fn lemma_actions_round_trip_step(actions: Seq<ActionV>)
    requires
        actions_wf(actions),
        actions.len() > 0,
        actions_dec(actions_enc(actions.skip(1))) == Ok::<_, FramePayloadParseError>(
            actions.skip(1),
        ),
    ensures
        actions_dec(actions_enc(actions)) == Ok::<_, FramePayloadParseError>(actions),
{
    let tail = actions.skip(1);
    let ae = action_enc(actions[0]);
    let at = actions_enc(tail);
    let whole = actions_enc(actions);
    assert(whole == ae + at);
    crate::action::lemma_action_round_trip(actions[0], at);
    lemma_skip_concat(ae, at);
    assert(whole.len() > 0) by {
        crate::action::lemma_action_dec_bounds(whole);
    }
    assert(actions_dec(whole) == Ok::<_, FramePayloadParseError>(seq![actions[0]] + tail));
    lemma_cons_skip(actions);
}

/// Encode/decode round trip for action lists.
pub proof fn lemma_actions_round_trip(actions: Seq<ActionV>)
    requires
        actions_wf(actions),
    ensures
        actions_dec(actions_enc(actions)) == Ok::<_, FramePayloadParseError>(actions),
    decreases actions.len(),
{
    if actions.len() == 0 {
        assert(actions =~= Seq::<ActionV>::empty());
    } else {
        let tail = actions.skip(1);
        assert forall|j: int| 0 <= j < tail.len() implies action_wf(#[trigger] tail[j]) by {
            assert(tail[j] == actions[j + 1]);
        }
        lemma_actions_round_trip(tail);
        lemma_actions_round_trip_step(actions);
    }
}

/// Encode/decode round trip for payloads: re-decoding a well-formed
/// payload's encoding under its own sub-grammar yields the payload.
pub proof fn lemma_payload_round_trip(p: FramePayloadV)
    requires
        payload_wf(p),
    ensures
        payload_dec(payload_enc(p), payload_type_of_payload(p)) == Ok::<
            _,
            FramePayloadParseError,
        >(p),
{
    match p {
        FramePayloadV::LIST_OF_MESSAGES(ms) => lemma_messages_round_trip(ms),
        FramePayloadV::LIST_OF_ACTIONS(actions) => lemma_actions_round_trip(actions),
        FramePayloadV::KV_LIST(kv) => lemma_kv_round_trip(kv),
    }
}

} // verus!