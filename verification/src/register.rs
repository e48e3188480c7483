//! The single-slot register: an explicitly tagged optional value stored in a
//! fixed byte window, written by the core and read back by a privileged
//! external caller that cannot receive a return value directly.
//!
//! On disk the window starts with one tag byte — 0 for `Uninitialized`, 1 for
//! `Initialized` — followed by the payload bytes; bytes past the payload keep
//! whatever they held before. Any other tag byte means the window is
//! corrupted.

use vstd::prelude::*;

verus! {

/// A value that is either absent or present; at most one logical value is
/// live in the window at a time, and every write overwrites the previous one.
#[derive(Clone, Debug)]
pub enum Register<T> {
    Uninitialized,
    Initialized(T),
}

impl<T: View> View for Register<T> {
    type V = Register<T::V>;

    open spec fn view(&self) -> Register<T::V> {
        match self {
            Register::Uninitialized => Register::Uninitialized,
            Register::Initialized(t) => Register::Initialized(t@),
        }
    }
}

impl<T> Register<T> {
    /// The carried value. Taking the value of a register that is still
    /// uninitialized is a logic error in the calling sequence, so that input
    /// is excluded by contract.
    pub fn unwrap(self) -> (r: T)
        requires
            self is Initialized,
        ensures
            self == Register::Initialized(r),
    {
        match self {
            Register::Initialized(a) => a,
            Register::Uninitialized => vstd::pervasive::unreached(),
        }
    }
}

/// The register window after a value of payload bytes `v` is written: tag
/// byte 1, then `v`, then the untouched rest of the window.
pub open spec fn register_write_bytes(w: Seq<u8>, v: Seq<u8>) -> Seq<u8>
    recommends
        1 + v.len() <= w.len(),
{
    w.update_subrange_with(1, v).update(0, 1u8)
}

/// The register window after a clear: tag byte 0, the rest untouched.
pub open spec fn register_clear_bytes(w: Seq<u8>) -> Seq<u8>
    recommends
        1 <= w.len(),
{
    w.update(0, 0u8)
}

/// The value a register window holds, reading a payload of `payload_len`
/// bytes after the tag byte: `None` exactly when the window is empty, the
/// tag byte is malformed, or an initialized window is too short for the
/// payload.
pub open spec fn register_decode(w: Seq<u8>, payload_len: nat) -> Option<Register<Seq<u8>>> {
    if w.len() < 1 {
        None
    } else if w[0] == 0 {
        Some(Register::Uninitialized)
    } else if w[0] == 1 {
        if w.len() < 1 + payload_len {
            None
        } else {
            Some(Register::Initialized(w.subrange(1, 1 + payload_len as int)))
        }
    } else {
        None
    }
}

/// Register lifecycle, cleared half: a cleared window always reads back as
/// `Uninitialized`, whatever it held before.
pub proof fn lemma_register_clear_read(w: Seq<u8>, payload_len: nat)
    requires
        1 <= w.len(),
    ensures
        register_decode(register_clear_bytes(w), payload_len) == Some(
            Register::<Seq<u8>>::Uninitialized,
        ),
{
}

/// Register lifecycle, written half: after a value is written over any prior
/// window contents, reading a payload of its own length gives exactly that
/// value back.
pub proof fn lemma_register_write_read(w: Seq<u8>, v: Seq<u8>)
    requires
        1 + v.len() <= w.len(),
    ensures
        register_decode(register_write_bytes(w, v), v.len()) == Some(
            Register::<Seq<u8>>::Initialized(v),
        ),
{
    let written = register_write_bytes(w, v);
    assert(written.subrange(1, 1 + v.len() as int) =~= v);
}

} // verus!
