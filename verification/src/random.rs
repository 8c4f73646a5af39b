//! Random bytes from the operating system.
use vstd::prelude::*;
use crate::hex;
use crate::text;

verus! {

/// The error that `getrandom::fill` reports.
#[verifier::external_type_specification]
#[verifier::external_body]
pub struct ExRandomError(getrandom::Error);

/// `getrandom::fill` fills a buffer of the given length with random bytes, or fails. It asks the
/// system for nothing, and so does not fail, where the buffer is empty. When else it fails rests on
/// the system and is not stated.
#[verifier::external_body]
fn fill_random(count: usize) -> (filled: Result<Vec<u8>, getrandom::Error>)
    ensures
        filled matches Ok(bytes) ==> bytes.len() == count,
        filled is Err ==> count > 0,
{
    let mut bytes = vec![0u8; count];
    getrandom::fill(&mut bytes)?;
    Ok(bytes)
}

/// The message of a `getrandom::Error`. Which message belongs to which error is not stated.
#[verifier::external_body]
fn random_error_text(error: &getrandom::Error) -> (message: String) {
    format!("{error}")
}

/// The next `count` random bytes of the operating system, or a message that says why there are
/// none: that comes only where bytes are wanted.
pub(crate) fn system_bytes(count: usize) -> (filled: Result<Vec<u8>, String>)
    ensures
        match filled {
            Ok(bytes) => bytes@.len() == count,
            Err(_) => count > 0,
        },
{
    match fill_random(count) {
        Ok(bytes) => Ok(bytes),
        Err(error) => Err(random_error_text(&error)),
    }
}

/// All that a source of bytes gives, one request after another: bytes in order, and where fewer
/// are left than are wanted, a failure with this message.
#[derive(Debug)]
pub struct Supply {
    left: Vec<u8>,
    asked: Vec<usize>,
    failure: String,
}

impl Supply {
    /// The bytes that were not given yet.
    pub closed spec fn left(self) -> Seq<u8> {
        self.left@
    }

    /// How many bytes were wanted, request by request.
    pub closed spec fn wanted(self) -> Seq<usize> {
        self.asked@
    }

    /// The message of the failure.
    pub closed spec fn message(self) -> Seq<char> {
        self.failure@
    }

    /// A supply of the bytes, of which none was given yet, and then of the failure.
    pub fn of(bytes: Vec<u8>, failure: String) -> (supply: Self)
        ensures
            supply.left() == bytes@,
            supply.wanted() == Seq::<usize>::empty(),
            supply.message() == failure@,
    {
        Supply { left: bytes, asked: Vec::new(), failure }
    }

    /// The bytes that were not given yet.
    pub fn remaining(&self) -> (bytes: &Vec<u8>)
        ensures
            bytes@ == self.left(),
    {
        &self.left
    }

    /// How many bytes were wanted, request by request.
    pub fn requests(&self) -> (requests: &Vec<usize>)
        ensures
            requests@ == self.wanted(),
    {
        &self.asked
    }

    /// The next `count` bytes, or the failure.
    pub fn next_bytes(&mut self, count: usize) -> (filled: Result<Vec<u8>, String>)
        ensures
            final(self).wanted() == old(self).wanted().push(count),
            final(self).message() == old(self).message(),
            match filled {
                Ok(bytes) => {
                    &&& count <= old(self).left().len()
                    &&& bytes@ == old(self).left().take(count as int)
                    &&& final(self).left() == old(self).left().skip(count as int)
                },
                Err(message) => {
                    &&& count > old(self).left().len()
                    &&& message@ == old(self).message()
                    &&& final(self).left() == old(self).left()
                },
            },
    {
        self.asked.push(count);
        if count > self.left.len() {
            return Err(text::copy_of(self.failure.as_str()));
        }
        let given = vstd::slice::slice_to_vec(
            vstd::slice::slice_subrange(self.left.as_slice(), 0, count),
        );
        let rest = vstd::slice::slice_to_vec(
            vstd::slice::slice_subrange(self.left.as_slice(), count, self.left.len()),
        );
        proof {
            assert(given@ =~= self.left@.take(count as int));
            assert(rest@ =~= self.left@.skip(count as int));
        }
        self.left = rest;
        Ok(given)
    }
}

/// The token that bytes from a source make: two lowercase hexadecimal digits for each of them. A
/// source's failure is handed on.
pub fn hex_token(filled: Result<Vec<u8>, String>) -> (token: Result<String, String>)
    ensures
        match (filled, token) {
            (Ok(bytes), Ok(value)) => value@ == hex::hex(bytes@),
            (Err(cause), Err(message)) => message == cause,
            _ => false,
        },
{
    match filled {
        Ok(bytes) => Ok(hex::hex_text(&bytes)),
        Err(cause) => Err(cause),
    }
}

/// A random token of two lowercase hexadecimal digits for each of `count` random bytes. There is
/// none only where bytes are wanted and the operating system gives none.
pub fn random_hex(count: usize) -> (token: Result<String, String>)
    ensures
        match token {
            Ok(value) => hex::is_lower_hex_text(value@, 2 * count as nat),
            Err(_) => count > 0,
        },
{
    let filled = system_bytes(count);
    proof {
        if filled is Ok {
            hex::law_hex_is_lower_hex(filled->Ok_0@);
        }
    }
    hex_token(filled)
}

} // verus!
