use vstd::prelude::*;

verus! {

/// The kind of an SPOP frame, carried as the first byte of the frame.
#[derive(Clone, Copy, PartialEq, Eq, Structural, Debug)]
#[allow(non_camel_case_types)]
pub enum FrameType {
    UNSET,
    HAPROXY_HELLO,
    HAPROXY_DISCONNECT,
    NOTIFY,
    AGENT_HELLO,
    AGENT_DISCONNECT,
    ACK,
}

/// The wire code of each frame type.
pub open spec fn frame_type_code(t: FrameType) -> u8 {
    match t {
        FrameType::UNSET => 0,
        FrameType::HAPROXY_HELLO => 1,
        FrameType::HAPROXY_DISCONNECT => 2,
        FrameType::NOTIFY => 3,
        FrameType::AGENT_HELLO => 101,
        FrameType::AGENT_DISCONNECT => 102,
        FrameType::ACK => 103,
    }
}

/// The frame type a wire code stands for, if any.
pub open spec fn frame_type_from_code(b: u8) -> Option<FrameType> {
    if b == 0 {
        Some(FrameType::UNSET)
    } else if b == 1 {
        Some(FrameType::HAPROXY_HELLO)
    } else if b == 2 {
        Some(FrameType::HAPROXY_DISCONNECT)
    } else if b == 3 {
        Some(FrameType::NOTIFY)
    } else if b == 101 {
        Some(FrameType::AGENT_HELLO)
    } else if b == 102 {
        Some(FrameType::AGENT_DISCONNECT)
    } else if b == 103 {
        Some(FrameType::ACK)
    } else {
        None
    }
}

/// The reason a frame type fails to decode.
#[derive(Clone, Copy, PartialEq, Eq, Structural, Debug)]
pub enum FrameTypeParseError {
    InsufficientBytes,
    Invalid,
}

/// Decodes the frame-type byte at the front of `s`.
pub open spec fn frame_type_dec(s: Seq<u8>) -> Result<(FrameType, int), FrameTypeParseError> {
    if s.len() == 0 {
        Err(FrameTypeParseError::InsufficientBytes)
    } else {
        match frame_type_from_code(s[0]) {
            Some(t) => Ok((t, 1)),
            None => Err(FrameTypeParseError::Invalid),
        }
    }
}

impl FrameType {
    /// The wire code of this type.
    pub fn code(&self) -> (r: u8)
        ensures
            r == frame_type_code(*self),
    {
        match self {
            FrameType::UNSET => 0,
            FrameType::HAPROXY_HELLO => 1,
            FrameType::HAPROXY_DISCONNECT => 2,
            FrameType::NOTIFY => 3,
            FrameType::AGENT_HELLO => 101,
            FrameType::AGENT_DISCONNECT => 102,
            FrameType::ACK => 103,
        }
    }

    /// Decodes the frame type that starts at `pos`.
    pub fn decode(bytes: &[u8], pos: usize) -> (r: Result<(FrameType, usize), FrameTypeParseError>)
        requires
            pos <= bytes@.len(),
        ensures
            match r {
                Ok((t, end)) => {
                    &&& frame_type_dec(bytes@.skip(pos as int)) == Ok::<_, FrameTypeParseError>(
                        (t, end - pos),
                    )
                    &&& pos < end <= bytes@.len()
                },
                Err(e) => frame_type_dec(bytes@.skip(pos as int)) == Err::<(FrameType, int), _>(e),
            },
    {
        if pos >= bytes.len() {
            return Err(FrameTypeParseError::InsufficientBytes);
        }
        let b = bytes[pos];
        let t = if b == 0 {
            FrameType::UNSET
        } else if b == 1 {
            FrameType::HAPROXY_HELLO
        } else if b == 2 {
            FrameType::HAPROXY_DISCONNECT
        } else if b == 3 {
            FrameType::NOTIFY
        } else if b == 101 {
            FrameType::AGENT_HELLO
        } else if b == 102 {
            FrameType::AGENT_DISCONNECT
        } else if b == 103 {
            FrameType::ACK
        } else {
            return Err(FrameTypeParseError::Invalid);
        };
        Ok((t, pos + 1))
    }

    /// Appends the type's wire code to `buf`.
    pub fn write_to(&self, buf: &mut Vec<u8>)
        ensures
            final(buf)@ == old(buf)@ + seq![frame_type_code(*self)],
    {
        buf.push(self.code());
        assert(buf@ =~= old(buf)@ + seq![frame_type_code(*self)]);
    }
}

} // verus!
