use vstd::prelude::*;

verus! {

/// The one-byte argument count that precedes the key/value pairs of a message
/// and the fields of an action.
#[derive(Clone, Copy, PartialEq, Eq, Structural, Debug)]
pub struct NBArgs(pub u8);

impl View for NBArgs {
    type V = u8;

    open spec fn view(&self) -> u8 {
        self.0
    }
}

/// The wire encoding of an argument count: the byte itself.
pub open spec fn nb_args_enc(v: u8) -> Seq<u8> {
    seq![v]
}

/// Decodes the argument count at the front of `s`.
pub open spec fn nb_args_dec(s: Seq<u8>) -> Option<(u8, int)> {
    if s.len() == 0 {
        None
    } else {
        Some((s[0], 1))
    }
}

/// The reason an argument count fails to decode.
#[derive(Clone, Copy, PartialEq, Eq, Structural, Debug)]
pub enum NBArgsParseError {
    InsufficientBytes,
}

impl NBArgs {
    pub fn new(val: u8) -> (r: Self)
        ensures
            r@ == val,
    {
        Self(val)
    }

    pub fn val(&self) -> (r: u8)
        ensures
            r == self@,
    {
        self.0
    }

    /// Decodes the argument count that starts at `pos`.
    pub fn decode(bytes: &[u8], pos: usize) -> (r: Result<(NBArgs, usize), NBArgsParseError>)
        requires
            pos <= bytes@.len(),
        ensures
            match r {
                Ok((v, end)) => {
                    &&& nb_args_dec(bytes@.skip(pos as int)) == Some::<(u8, int)>((v@, end - pos))
                    &&& pos < end <= bytes@.len()
                },
                Err(e) => {
                    &&& nb_args_dec(bytes@.skip(pos as int)) is None
                    &&& e == NBArgsParseError::InsufficientBytes
                },
            },
    {
        if pos >= bytes.len() {
            return Err(NBArgsParseError::InsufficientBytes);
        }
        Ok((NBArgs(bytes[pos]), pos + 1))
    }

    /// Appends the count's wire encoding to `buf`.
    pub fn write_to(&self, buf: &mut Vec<u8>)
        ensures
            final(buf)@ == old(buf)@ + nb_args_enc(self@),
    {
        buf.push(self.0);
        assert(buf@ =~= old(buf)@ + nb_args_enc(self@));
    }
}

} // verus!
