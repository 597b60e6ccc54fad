use vstd::prelude::*;

verus! {

use crate::typed_data::{typed_data_dec, typed_data_enc, typed_data_wf, TypedData, TypedDataV};
use crate::varint_string::{varint_string_dec, varint_string_enc, VarintString};

/// A directive carried by an ACK frame: set or unset a variable in one of the
/// engine's scopes.
#[derive(Clone, PartialEq, Debug)]
#[allow(non_camel_case_types)]
pub enum Action {
    SET_VAR { var_scope: ActionVarScope, var_name: VarintString, var_value: TypedData },
    UNSET_VAR { var_scope: ActionVarScope, var_name: VarintString },
}

/// The mathematical shape of an action.
#[allow(non_camel_case_types)]
pub enum ActionV {
    SET_VAR { var_scope: ActionVarScope, var_name: Seq<char>, var_value: TypedDataV },
    UNSET_VAR { var_scope: ActionVarScope, var_name: Seq<char> },
}

impl View for Action {
    type V = ActionV;

    open spec fn view(&self) -> ActionV {
        match self {
            Action::SET_VAR { var_scope, var_name, var_value } => ActionV::SET_VAR {
                var_scope: *var_scope,
                var_name: var_name@,
                var_value: var_value@,
            },
            Action::UNSET_VAR { var_scope, var_name } => ActionV::UNSET_VAR {
                var_scope: *var_scope,
                var_name: var_name@,
            },
        }
    }
}

/// The kind of an action, carried as its first byte.
#[derive(Clone, Copy, PartialEq, Eq, Structural, Debug)]
#[allow(non_camel_case_types)]
pub enum ActionType {
    SET_VAR,
    UNSET_VAR,
}

/// The scope a variable lives in, carried as one byte.
#[derive(Clone, Copy, PartialEq, Eq, Structural, Debug)]
#[allow(non_camel_case_types)]
pub enum ActionVarScope {
    PROCESS,
    SESSION,
    TRANSACTION,
    REQUEST,
    RESPONSE,
}

/// The wire code of a scope.
pub open spec fn scope_code(s: ActionVarScope) -> u8 {
    match s {
        ActionVarScope::PROCESS => 0,
        ActionVarScope::SESSION => 1,
        ActionVarScope::TRANSACTION => 2,
        ActionVarScope::REQUEST => 3,
        ActionVarScope::RESPONSE => 4,
    }
}

/// The scope a wire code stands for, if any.
pub open spec fn scope_from_code(b: u8) -> Option<ActionVarScope> {
    if b == 0 {
        Some(ActionVarScope::PROCESS)
    } else if b == 1 {
        Some(ActionVarScope::SESSION)
    } else if b == 2 {
        Some(ActionVarScope::TRANSACTION)
    } else if b == 3 {
        Some(ActionVarScope::REQUEST)
    } else if b == 4 {
        Some(ActionVarScope::RESPONSE)
    } else {
        None
    }
}

impl ActionVarScope {
    /// The wire code of this scope.
    pub fn code(&self) -> (r: u8)
        ensures
            r == scope_code(*self),
    {
        match self {
            ActionVarScope::PROCESS => 0,
            ActionVarScope::SESSION => 1,
            ActionVarScope::TRANSACTION => 2,
            ActionVarScope::REQUEST => 3,
            ActionVarScope::RESPONSE => 4,
        }
    }

    fn from_code(b: u8) -> (r: Option<ActionVarScope>)
        ensures
            r == scope_from_code(b),
    {
        if b == 0 {
            Some(ActionVarScope::PROCESS)
        } else if b == 1 {
            Some(ActionVarScope::SESSION)
        } else if b == 2 {
            Some(ActionVarScope::TRANSACTION)
        } else if b == 3 {
            Some(ActionVarScope::REQUEST)
        } else if b == 4 {
            Some(ActionVarScope::RESPONSE)
        } else {
            None
        }
    }
}

/// Structural soundness of an action: its name and value fit their encodings.
pub open spec fn action_wf(a: ActionV) -> bool {
    match a {
        ActionV::SET_VAR { var_scope, var_name, var_value } => vstd::utf8::encode_utf8(
            var_name,
        ).len() <= u64::MAX && typed_data_wf(var_value),
        ActionV::UNSET_VAR { var_scope, var_name } => vstd::utf8::encode_utf8(var_name).len()
            <= u64::MAX,
    }
}

/// The wire encoding of an action: its type byte, its argument count (3 for
/// SET-VAR, 2 for UNSET-VAR), the scope byte, the variable name, and for
/// SET-VAR the value.
pub open spec fn action_enc(a: ActionV) -> Seq<u8> {
    match a {
        ActionV::SET_VAR { var_scope, var_name, var_value } => seq![1u8, 3u8, scope_code(var_scope)]
            + varint_string_enc(var_name) + typed_data_enc(var_value),
        ActionV::UNSET_VAR { var_scope, var_name } => seq![2u8, 2u8, scope_code(var_scope)]
            + varint_string_enc(var_name),
    }
}

/// The reason an action fails to decode.
#[derive(Clone, Copy, PartialEq, Eq, Structural, Debug)]
pub enum ActionParseError {
    InsufficientBytes,
    InvalidType,
    InvalidNBArgs,
    InvalidVarScope,
    InvalidVarName,
    InvalidVarValue,
}

/// Decodes the action at the front of `s`.
pub open spec fn action_dec(s: Seq<u8>) -> Result<(ActionV, int), ActionParseError> {
    if s.len() == 0 {
        Err(ActionParseError::InsufficientBytes)
    } else if s[0] != 1 && s[0] != 2 {
        Err(ActionParseError::InvalidType)
    } else if s.len() < 2 {
        Err(ActionParseError::InvalidNBArgs)
    } else if (s[0] == 1 && s[1] != 3) || (s[0] == 2 && s[1] != 2) {
        Err(ActionParseError::InvalidNBArgs)
    } else if s.len() < 3 {
        Err(ActionParseError::InsufficientBytes)
    } else {
        match scope_from_code(s[2]) {
            None => Err(ActionParseError::InvalidVarScope),
            Some(scope) => match varint_string_dec(s.skip(3)) {
                Err(_) => Err(ActionParseError::InvalidVarName),
                Ok((name, n)) => if s[0] == 2 {
                    Ok((ActionV::UNSET_VAR { var_scope: scope, var_name: name }, 3 + n))
                } else {
                    match typed_data_dec(s.skip(3 + n)) {
                        Err(_) => Err(ActionParseError::InvalidVarValue),
                        Ok((value, m)) => Ok(
                            (
                                ActionV::SET_VAR {
                                    var_scope: scope,
                                    var_name: name,
                                    var_value: value,
                                },
                                3 + n + m,
                            ),
                        ),
                    }
                },
            },
        }
    }
}

impl Action {
    /// An action that sets `name` to `value` in `scope`.
    pub fn set_val(scope: ActionVarScope, name: VarintString, value: TypedData) -> (r: Self)
        ensures
            r@ == (ActionV::SET_VAR { var_scope: scope, var_name: name@, var_value: value@ }),
    {
        Self::SET_VAR { var_scope: scope, var_name: name, var_value: value }
    }

    /// An action that unsets `name` in `scope`.
    pub fn unset_val(scope: ActionVarScope, name: VarintString) -> (r: Self)
        ensures
            r@ == (ActionV::UNSET_VAR { var_scope: scope, var_name: name@ }),
    {
        Self::UNSET_VAR { var_scope: scope, var_name: name }
    }

    /// Decodes the action that starts at `pos`, returning it and the position
    /// just past it.
    pub fn decode(bytes: &[u8], pos: usize) -> (r: Result<(Action, usize), ActionParseError>)
        requires
            pos <= bytes@.len(),
        ensures
            match r {
                Ok((a, end)) => {
                    &&& action_dec(bytes@.skip(pos as int)) == Ok::<_, ActionParseError>(
                        (a@, end - pos),
                    )
                    &&& pos < end <= bytes@.len()
                    &&& action_wf(a@)
                },
                Err(e) => action_dec(bytes@.skip(pos as int)) == Err::<(ActionV, int), _>(e),
            },
    {
        let ghost s = bytes@.skip(pos as int);
        if pos >= bytes.len() {
            return Err(ActionParseError::InsufficientBytes);
        }
        let t = bytes[pos];
        assert(s[0] == t);
        if t != 1 && t != 2 {
            return Err(ActionParseError::InvalidType);
        }
        if bytes.len() - pos < 2 {
            return Err(ActionParseError::InvalidNBArgs);
        }
        let nb = bytes[pos + 1];
        assert(s[1] == nb);
        if (t == 1 && nb != 3) || (t == 2 && nb != 2) {
            return Err(ActionParseError::InvalidNBArgs);
        }
        if bytes.len() - pos < 3 {
            return Err(ActionParseError::InsufficientBytes);
        }
        let sc = bytes[pos + 2];
        assert(s[2] == sc);
        let scope = match ActionVarScope::from_code(sc) {
            Some(scope) => scope,
            None => {
                return Err(ActionParseError::InvalidVarScope);
            },
        };
        assert(s.skip(3) =~= bytes@.skip(pos + 3));
        let (name, p) = match VarintString::decode(bytes, pos + 3) {
            Ok(v) => v,
            Err(_) => {
                return Err(ActionParseError::InvalidVarName);
            },
        };
        proof {
            crate::typed_data::lemma_decoded_string_wf(bytes@.skip(pos + 3), name@, p - pos
                - 3);
        }
        if t == 2 {
            return Ok((Action::unset_val(scope, name), p));
        }
        assert(s.skip(3 + (p - pos - 3)) =~= bytes@.skip(p as int));
        let (value, q) = match TypedData::decode(bytes, p) {
            Ok(v) => v,
            Err(_) => {
                return Err(ActionParseError::InvalidVarValue);
            },
        };
        Ok((Action::set_val(scope, name, value), q))
    }

    /// Appends the action's wire encoding to `buf`.
    pub fn write_to(&self, buf: &mut Vec<u8>)
        ensures
            final(buf)@ == old(buf)@ + action_enc(self@),
    {
        match self {
            Action::SET_VAR { var_scope, var_name, var_value } => {
                buf.push(1u8);
                buf.push(3u8);
                buf.push(var_scope.code());
                var_name.write_to(buf);
                var_value.write_to(buf);
            },
            Action::UNSET_VAR { var_scope, var_name } => {
                buf.push(2u8);
                buf.push(2u8);
                buf.push(var_scope.code());
                var_name.write_to(buf);
            },
        }
        assert(buf@ =~= old(buf)@ + action_enc(self@));
    }
}

/// A decoded action occupies at least one byte of the input and at most all
/// of it.
pub proof fn lemma_action_dec_bounds(s: Seq<u8>)
    ensures
        action_dec(s) matches Ok((a, n)) ==> 1 <= n <= s.len(),
{
    if action_dec(s) is Ok {
        crate::varint_string::lemma_varint_string_dec_bounds(s.skip(3));
        let (name, n) = varint_string_dec(s.skip(3)).unwrap();
        crate::typed_data::lemma_typed_data_dec_bounds(s.skip(3 + n));
    }
}

/// Encode/decode round trip for actions, on any byte stream that starts with
/// the encoding of a well-formed action.
pub proof fn lemma_action_round_trip(a: ActionV, rest: Seq<u8>)
    requires
        action_wf(a),
    ensures
        action_dec(action_enc(a) + rest) == Ok::<_, ActionParseError>(
            (a, action_enc(a).len() as int),
        ),
{
    let whole = action_enc(a) + rest;
    match a {
        ActionV::SET_VAR { var_scope, var_name, var_value } => {
            assert(whole[0] == 1u8);
            assert(whole[1] == 3u8);
            assert(whole[2] == scope_code(var_scope));
            let ne = varint_string_enc(var_name);
            let ve = typed_data_enc(var_value);
            assert(whole.skip(3) =~= ne + (ve + rest));
            crate::varint_string::lemma_varint_string_round_trip(var_name, ve + rest);
            assert(whole.skip(3 + ne.len() as int) =~= ve + rest);
            crate::typed_data::lemma_typed_data_round_trip(var_value, rest);
        },
        ActionV::UNSET_VAR { var_scope, var_name } => {
            assert(whole[0] == 2u8);
            assert(whole[1] == 2u8);
            assert(whole[2] == scope_code(var_scope));
            assert(whole.skip(3) =~= varint_string_enc(var_name) + rest);
            crate::varint_string::lemma_varint_string_round_trip(var_name, rest);
        },
    }
}

} // verus!
