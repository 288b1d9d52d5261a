//! Status codes of the digitizer front-end library and the pure part of its
//! result marshaling: mapping raw integer codes to a typed variant set and
//! cleaning the NUL-padded text buffers the native calls fill in.
use vstd::prelude::*;

verus! {

/// Typed view of the integer status codes returned by every front-end call.
#[derive(Clone, Copy, Debug, PartialEq, Eq, Structural)]
pub enum FELibReturn {
    Success,
    Generic,
    InvalidParam,
    DevAlreadyOpen,
    DevNotFound,
    MaxDev,
    Command,
    Internal,
    NotImplemented,
    InvalidHandle,
    DevLibNotAvailable,
    Timeout,
    Stop,
    Disabled,
    BadLibVer,
    Comm,
    Unknown,
}

/// The variant that a raw front-end status code denotes.
pub open spec fn spec_status_of(code: int) -> FELibReturn {
    if code == 0 {
        FELibReturn::Success
    } else if code == -1 {
        FELibReturn::Generic
    } else if code == -2 {
        FELibReturn::InvalidParam
    } else if code == -3 {
        FELibReturn::DevAlreadyOpen
    } else if code == -4 {
        FELibReturn::DevNotFound
    } else if code == -5 {
        FELibReturn::MaxDev
    } else if code == -6 {
        FELibReturn::Command
    } else if code == -7 {
        FELibReturn::Internal
    } else if code == -8 {
        FELibReturn::NotImplemented
    } else if code == -9 {
        FELibReturn::InvalidHandle
    } else if code == -10 {
        FELibReturn::DevLibNotAvailable
    } else if code == -11 {
        FELibReturn::Timeout
    } else if code == -12 {
        FELibReturn::Stop
    } else if code == -13 {
        FELibReturn::Disabled
    } else if code == -14 {
        FELibReturn::BadLibVer
    } else if code == -15 {
        FELibReturn::Comm
    } else {
        FELibReturn::Unknown
    }
}

impl From<i32> for FELibReturn {
    fn from(value: i32) -> (r: FELibReturn) {
        match value {
            0 => FELibReturn::Success,
            -1 => FELibReturn::Generic,
            -2 => FELibReturn::InvalidParam,
            -3 => FELibReturn::DevAlreadyOpen,
            -4 => FELibReturn::DevNotFound,
            -5 => FELibReturn::MaxDev,
            -6 => FELibReturn::Command,
            -7 => FELibReturn::Internal,
            -8 => FELibReturn::NotImplemented,
            -9 => FELibReturn::InvalidHandle,
            -10 => FELibReturn::DevLibNotAvailable,
            -11 => FELibReturn::Timeout,
            -12 => FELibReturn::Stop,
            -13 => FELibReturn::Disabled,
            -14 => FELibReturn::BadLibVer,
            -15 => FELibReturn::Comm,
            _ => FELibReturn::Unknown,
        }
    }
}

impl vstd::std_specs::convert::FromSpecImpl<i32> for FELibReturn {
    open spec fn obeys_from_spec() -> bool {
        true
    }

    open spec fn from_spec(value: i32) -> FELibReturn {
        spec_status_of(value as int)
    }
}

/// What an acquisition loop does with one read outcome.
#[derive(Clone, Copy, Debug, PartialEq, Eq, Structural)]
pub enum ReadAction {
    /// The record was filled: hand it off and read on with a fresh buffer.
    Emit,
    /// The read timed out: try again.
    Retry,
    /// The board was stopped: leave the loop cleanly.
    Exit,
    /// Any other condition: skip this attempt and read again.
    Ignore,
}

/// Decides the acquisition loop's reaction to one read status: emit on
/// success, retry on timeout, exit on stop, ignore anything else.
pub fn read_action(status: FELibReturn) -> (a: ReadAction)
    ensures
        a is Emit <==> status == FELibReturn::Success,
        a is Retry <==> status == FELibReturn::Timeout,
        a is Exit <==> status == FELibReturn::Stop,
        a is Ignore <==> (status != FELibReturn::Success && status != FELibReturn::Timeout
            && status != FELibReturn::Stop),
{
    match status {
        FELibReturn::Success => ReadAction::Emit,
        FELibReturn::Timeout => ReadAction::Retry,
        FELibReturn::Stop => ReadAction::Exit,
        _ => ReadAction::Ignore,
    }
}

/// Maps a raw status code of a call that yields no value: zero is success,
/// anything else the corresponding error variant.
pub fn decode_unit(code: i32) -> (r: Result<(), FELibReturn>)
    ensures
        code == 0 <==> r is Ok,
        code != 0 ==> r == Result::<(), FELibReturn>::Err(spec_status_of(code as int)),
{
    if code == 0 {
        Ok(())
    } else {
        Err(FELibReturn::from(code))
    }
}

/// Maps a raw status code plus the text buffer the native call filled in:
/// on success the buffer is handed back with every NUL padding byte removed,
/// otherwise the error variant of the code.
pub fn decode_text(code: i32, buf: Vec<u8>) -> (r: Result<Vec<u8>, FELibReturn>)
    ensures
        code == 0 <==> r is Ok,
        code == 0 ==> (r matches Ok(out) && out@ == buf@.filter(|b: u8| b != 0)),
        code != 0 ==> r == Result::<Vec<u8>, FELibReturn>::Err(spec_status_of(code as int)),
{
    if code != 0 {
        return Err(FELibReturn::from(code));
    }
    let mut out: Vec<u8> = Vec::new();
    let mut i: usize = 0;
    proof {
        assert(buf@.subrange(0, 0).filter(|b: u8| b != 0) =~= Seq::<u8>::empty()) by {
            reveal(Seq::filter);
        }
    }
    while i < buf.len()
        invariant
            i <= buf.len(),
            out@ == buf@.subrange(0, i as int).filter(|b: u8| b != 0),
        decreases buf.len() - i,
    {
        let b = buf[i];
        proof {
            let pre = buf@.subrange(0, i as int);
            let ext = buf@.subrange(0, i + 1);
            assert(ext.drop_last() =~= pre);
            assert(ext.last() == buf@[i as int]);
            reveal(Seq::filter);
        }
        if b != 0 {
            out.push(b);
        }
        i = i + 1;
    }
    proof {
        assert(buf@.subrange(0, buf@.len() as int) =~= buf@);
    }
    Ok(out)
}

} // verus!
