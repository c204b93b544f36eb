//! Errors of the framework, and how errors of any kind travel in a response.

use vstd::prelude::*;
use vstd::std_specs::cmp::PartialOrdSpecImpl;
use vstd::utf8::{encode_utf8, valid_utf8};
use std::cmp::Ordering;

verus! {

/// What every name of a framework error starts with on the wire. Error strings of
/// applications must not start with it.
pub const RPC_ERR_PREFIX: &'static str = "rpc_";

/// Errors that the framework itself reports.
#[derive(Clone, Copy, Debug, PartialEq, Eq, Structural)]
pub enum RpcIntErr {
    /// Ping or connect failed
    Unreachable,
    /// The connection broke
    IO,
    /// No response came in time
    Timeout,
    /// Method not found
    Method,
    /// Service not found
    Service,
    /// A message could not be encoded
    Encode,
    /// A message could not be decoded
    Decode,
    /// Internal error
    Internal,
    /// Wrong version in a packet head
    Version,
}

impl RpcIntErr {
    /// The place of an error in their order: those before `Method` come from the
    /// connection, those from `Method` on come from the other side's answer.
    pub open spec fn rank(self) -> u8 {
        match self {
            RpcIntErr::Unreachable => 1,
            RpcIntErr::IO => 2,
            RpcIntErr::Timeout => 3,
            RpcIntErr::Method => 4,
            RpcIntErr::Service => 5,
            RpcIntErr::Encode => 6,
            RpcIntErr::Decode => 7,
            RpcIntErr::Internal => 8,
            RpcIntErr::Version => 9,
        }
    }

    /// The name of an error on the wire.
    pub open spec fn name(self) -> Seq<char> {
        match self {
            RpcIntErr::Unreachable => "rpc_unreachable"@,
            RpcIntErr::IO => "rpc_io_err"@,
            RpcIntErr::Timeout => "rpc_timeout"@,
            RpcIntErr::Method => "rpc_method_notfound"@,
            RpcIntErr::Service => "rpc_service_notfound"@,
            RpcIntErr::Encode => "rpc_encode"@,
            RpcIntErr::Decode => "rpc_decode"@,
            RpcIntErr::Internal => "rpc_internal_err"@,
            RpcIntErr::Version => "rpc_invalid_ver"@,
        }
    }

    /// The bytes of an error's name.
    pub open spec fn name_bytes(self) -> Seq<u8> {
        encode_utf8(self.name())
    }

    fn rank_of(&self) -> (r: u8)
        ensures
            r == self.rank(),
    {
        match self {
            RpcIntErr::Unreachable => 1,
            RpcIntErr::IO => 2,
            RpcIntErr::Timeout => 3,
            RpcIntErr::Method => 4,
            RpcIntErr::Service => 5,
            RpcIntErr::Encode => 6,
            RpcIntErr::Decode => 7,
            RpcIntErr::Internal => 8,
            RpcIntErr::Version => 9,
        }
    }

    /// The name of this error on the wire.
    pub fn as_str(&self) -> (r: &'static str)
        ensures
            r@ == self.name(),
    {
        match self {
            RpcIntErr::Unreachable => "rpc_unreachable",
            RpcIntErr::IO => "rpc_io_err",
            RpcIntErr::Timeout => "rpc_timeout",
            RpcIntErr::Method => "rpc_method_notfound",
            RpcIntErr::Service => "rpc_service_notfound",
            RpcIntErr::Encode => "rpc_encode",
            RpcIntErr::Decode => "rpc_decode",
            RpcIntErr::Internal => "rpc_internal_err",
            RpcIntErr::Version => "rpc_invalid_ver",
        }
    }

    /// The bytes of this error's name.
    pub fn as_bytes(&self) -> (r: &'static [u8])
        ensures
            r@ == self.name_bytes(),
    {
        self.as_str().as_bytes()
    }

    /// The error whose name `buf` holds, if it holds one.
    pub fn from_bytes(buf: &[u8]) -> (r: Option<RpcIntErr>)
        ensures
            r matches Some(e) ==> buf@ == e.name_bytes(),
            r is None ==> names_no_error(buf@),
    {
        if bytes_eq(buf, RpcIntErr::Unreachable.as_bytes()) {
            return Some(RpcIntErr::Unreachable);
        }
        if bytes_eq(buf, RpcIntErr::IO.as_bytes()) {
            return Some(RpcIntErr::IO);
        }
        if bytes_eq(buf, RpcIntErr::Timeout.as_bytes()) {
            return Some(RpcIntErr::Timeout);
        }
        if bytes_eq(buf, RpcIntErr::Method.as_bytes()) {
            return Some(RpcIntErr::Method);
        }
        if bytes_eq(buf, RpcIntErr::Service.as_bytes()) {
            return Some(RpcIntErr::Service);
        }
        if bytes_eq(buf, RpcIntErr::Encode.as_bytes()) {
            return Some(RpcIntErr::Encode);
        }
        if bytes_eq(buf, RpcIntErr::Decode.as_bytes()) {
            return Some(RpcIntErr::Decode);
        }
        if bytes_eq(buf, RpcIntErr::Internal.as_bytes()) {
            return Some(RpcIntErr::Internal);
        }
        if bytes_eq(buf, RpcIntErr::Version.as_bytes()) {
            return Some(RpcIntErr::Version);
        }
        assert forall|e: RpcIntErr| buf@ != #[trigger] e.name_bytes() by {
            match e {
                RpcIntErr::Unreachable => {},
                RpcIntErr::IO => {},
                RpcIntErr::Timeout => {},
                RpcIntErr::Method => {},
                RpcIntErr::Service => {},
                RpcIntErr::Encode => {},
                RpcIntErr::Decode => {},
                RpcIntErr::Internal => {},
                RpcIntErr::Version => {},
            }
        }
        None
    }
}

/// Whether these bytes are the name of no error.
pub open spec fn names_no_error(buf: Seq<u8>) -> bool {
    forall|e: RpcIntErr| buf != #[trigger] e.name_bytes()
}

impl PartialOrd for RpcIntErr {
    fn partial_cmp(&self, other: &RpcIntErr) -> (r: Option<Ordering>) {
        self.rank_of().partial_cmp(&other.rank_of())
    }
}

impl PartialOrdSpecImpl for RpcIntErr {
    open spec fn obeys_partial_cmp_spec() -> bool {
        true
    }

    open spec fn partial_cmp_spec(&self, other: &RpcIntErr) -> Option<Ordering> {
        if self.rank() < other.rank() {
            Some(Ordering::Less)
        } else if self.rank() == other.rank() {
            Some(Ordering::Equal)
        } else {
            Some(Ordering::Greater)
        }
    }
}

/// Framework errors have different names, each of which starts with the reserved prefix.
pub proof fn lemma_names_are_distinct(a: RpcIntErr, b: RpcIntErr)
    ensures
        a.name_bytes() == b.name_bytes() ==> a == b,
        encode_utf8(RPC_ERR_PREFIX@).is_prefix_of(a.name_bytes()),
        a.name_bytes().len() <= 20,
{
    lemma_name_chars(a);
    lemma_name_chars(b);
    if a.name_bytes() == b.name_bytes() {
        let x = a.name_bytes();
        let y = b.name_bytes();
        assert(x.len() == y.len());
        assert(x[4] == y[4]);
    }
    reveal_strlit("rpc_");
    vstd::utf8::is_ascii_chars_encode_utf8(RPC_ERR_PREFIX@);
    assert(encode_utf8(RPC_ERR_PREFIX@) =~= a.name_bytes().subrange(0, 4));
}

/// The length of each name, and the characters that tell names of one length apart.
proof fn lemma_name_chars(e: RpcIntErr)
    ensures
        e.name_bytes().len() == e.name().len(),
        e.name_bytes().len() == match e {
            RpcIntErr::Unreachable | RpcIntErr::Version => 15nat,
            RpcIntErr::IO | RpcIntErr::Encode | RpcIntErr::Decode => 10nat,
            RpcIntErr::Timeout => 11nat,
            RpcIntErr::Method => 19nat,
            RpcIntErr::Service => 20nat,
            RpcIntErr::Internal => 16nat,
        },
        e.name_bytes()[0] == 'r' as u8,
        e.name_bytes()[1] == 'p' as u8,
        e.name_bytes()[2] == 'c' as u8,
        e.name_bytes()[3] == '_' as u8,
        e.name_bytes()[4] == match e {
            RpcIntErr::Unreachable => 'u' as u8,
            RpcIntErr::Version | RpcIntErr::IO | RpcIntErr::Internal => 'i' as u8,
            RpcIntErr::Encode => 'e' as u8,
            RpcIntErr::Decode => 'd' as u8,
            RpcIntErr::Timeout => 't' as u8,
            RpcIntErr::Method => 'm' as u8,
            RpcIntErr::Service => 's' as u8,
        },
{
    reveal_strlit("rpc_unreachable");
    reveal_strlit("rpc_io_err");
    reveal_strlit("rpc_timeout");
    reveal_strlit("rpc_method_notfound");
    reveal_strlit("rpc_service_notfound");
    reveal_strlit("rpc_encode");
    reveal_strlit("rpc_decode");
    reveal_strlit("rpc_internal_err");
    reveal_strlit("rpc_invalid_ver");
    vstd::utf8::is_ascii_chars_encode_utf8(e.name());
}

/// An error as it travels: a number, a framework error, or the bytes of an error string.
pub enum ErrSpec {
    Num(u32),
    Rpc(RpcIntErr),
    Bytes(Seq<u8>),
}

/// An error in the form in which a response carries it.
#[derive(Debug)]
pub enum EncodedErr {
    /// An error number, such as a posix errno
    Num(u32),
    /// A framework error
    Rpc(RpcIntErr),
    /// An error string that is a literal
    Static(&'static str),
    /// An error string, or an encoded structure
    Buf(Vec<u8>),
}

impl View for EncodedErr {
    type V = ErrSpec;

    open spec fn view(&self) -> ErrSpec {
        match self {
            EncodedErr::Num(n) => ErrSpec::Num(*n),
            EncodedErr::Rpc(e) => ErrSpec::Rpc(*e),
            EncodedErr::Static(s) => ErrSpec::Bytes(encode_utf8(s@)),
            EncodedErr::Buf(b) => ErrSpec::Bytes(b@),
        }
    }
}

/// The error of a finished call: one of the application, or one of the framework.
#[derive(Debug, PartialEq, Eq)]
pub enum RpcError<E> {
    User(E),
    Rpc(RpcIntErr),
}

/// How an error type of the application is put into a response and read back.
pub trait RpcErrCodec<C>: Sized {
    /// What a response carries for this error.
    open spec fn encoded_err(&self, codec: &C) -> ErrSpec {
        arbitrary()
    }

    /// The error that an error number (`Ok`) or the bytes of an error string (`Err`) stand
    /// for, or `None` where they stand for none.
    open spec fn decoded_err(codec: &C, buf: Result<u32, Seq<u8>>) -> Option<Self> {
        arbitrary()
    }

    fn encode(&self, codec: &C) -> (r: EncodedErr)
        ensures
            r@ == self.encoded_err(codec),
    ;

    fn decode(codec: &C, buf: Result<u32, &[u8]>) -> (r: Result<Self, ()>)
        ensures
            match Self::decoded_err(
                codec,
                match buf {
                    Ok(n) => Ok(n),
                    Err(b) => Err(b@),
                },
            ) {
                Some(e) => r == Ok::<Self, ()>(e),
                None => r is Err,
            },
    ;
}

/// What a client makes of an error that a response carried: a framework error stays one;
/// anything else is the application's, or `Decode` where the application cannot read it.
pub open spec fn decoded_rpc_error<C, E: RpcErrCodec<C>>(codec: &C, e: ErrSpec) -> RpcError<E> {
    let user = match e {
        ErrSpec::Rpc(_) => None,
        ErrSpec::Num(n) => E::decoded_err(codec, Ok(n)),
        ErrSpec::Bytes(b) => E::decoded_err(codec, Err(b)),
    };
    match (e, user) {
        (ErrSpec::Rpc(e), _) => RpcError::Rpc(e),
        (_, Some(u)) => RpcError::User(u),
        (_, None) => RpcError::Rpc(RpcIntErr::Decode),
    }
}

/// Reads the error that a response carried.
pub fn decode_rpc_error<C, E: RpcErrCodec<C>>(codec: &C, e: &EncodedErr) -> (r: RpcError<E>)
    ensures
        r == decoded_rpc_error::<C, E>(codec, e@),
{
    let user = match e {
        EncodedErr::Rpc(e) => {
            return RpcError::Rpc(*e);
        },
        EncodedErr::Num(n) => E::decode(codec, Ok(*n)),
        EncodedErr::Static(s) => E::decode(codec, Err(s.as_bytes())),
        EncodedErr::Buf(b) => E::decode(codec, Err(b.as_slice())),
    };
    match user {
        Ok(u) => RpcError::User(u),
        Err(_) => RpcError::Rpc(RpcIntErr::Decode),
    }
}

/// Posix error numbers. A number over `i32::MAX` is none.
impl<C> RpcErrCodec<C> for i32 {
    open spec fn encoded_err(&self, codec: &C) -> ErrSpec {
        ErrSpec::Num(*self as u32)
    }

    open spec fn decoded_err(codec: &C, buf: Result<u32, Seq<u8>>) -> Option<i32> {
        match buf {
            Ok(n) => if n <= i32::MAX {
                Some(n as i32)
            } else {
                None
            },
            Err(_) => None,
        }
    }

    fn encode(&self, codec: &C) -> (r: EncodedErr) {
        EncodedErr::Num(*self as u32)
    }

    fn decode(codec: &C, buf: Result<u32, &[u8]>) -> (r: Result<i32, ()>) {
        match buf {
            Ok(n) => {
                if n <= 0x7fff_ffff {
                    Ok(n as i32)
                } else {
                    Err(())
                }
            },
            Err(_) => Err(()),
        }
    }
}

/// `std::str::from_utf8`: a byte string is handed back as a string slice over the same
/// bytes where it is valid UTF-8, and refused otherwise.
#[verifier::external_body]
pub(crate) fn str_from_utf8(buf: &[u8]) -> (r: Result<&str, ()>)
    ensures
        r is Ok <==> valid_utf8(buf@),
        r matches Ok(s) ==> encode_utf8(s@) == buf@,
{
    std::str::from_utf8(buf).map_err(|_| ())
}

/// Whether two byte strings are the same.
pub fn bytes_eq(a: &[u8], b: &[u8]) -> (r: bool)
    ensures
        r == (a@ == b@),
{
    if a.len() != b.len() {
        return false;
    }
    let mut i: usize = 0;
    while i < a.len()
        invariant
            i <= a.len(),
            a.len() == b.len(),
            forall|j: int| 0 <= j < i ==> a[j] == b[j],
        decreases a.len() - i,
    {
        if a[i] != b[i] {
            return false;
        }
        i += 1;
    }
    assert(a@ =~= b@);
    true
}

/// Whether `buf` starts with `prefix`.
pub fn bytes_start_with(buf: &[u8], prefix: &[u8]) -> (r: bool)
    ensures
        r == prefix@.is_prefix_of(buf@),
{
    if buf.len() < prefix.len() {
        return false;
    }
    let mut i: usize = 0;
    while i < prefix.len()
        invariant
            i <= prefix.len() <= buf.len(),
            forall|j: int| 0 <= j < i ==> buf[j] == prefix[j],
        decreases prefix.len() - i,
    {
        if buf[i] != prefix[i] {
            assert(!prefix@.is_prefix_of(buf@));
            return false;
        }
        i += 1;
    }
    assert(prefix@ =~= buf@.subrange(0, prefix@.len() as int));
    true
}

} // verus!
