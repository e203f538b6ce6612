//! The host's identity key: where it is kept, and how its file is read.
use vstd::prelude::*;

use crate::text::{decimal, push_decimal, push_str};

verus! {

/// The name of the host key file in the data directory.
pub const HOST_KEY_FILE: &'static str = "host.key";

/// The length of a host secret key, in bytes.
pub const HOST_KEY_LEN: usize = 32;

/// Whether a failed file operation found data it could not use, or failed
/// otherwise.
#[derive(Debug, Clone, Copy, PartialEq, Eq, Structural)]
pub enum IoKind {
    InvalidData,
    Other,
}

/// Why the host key could not be read: an I/O error, of its kind and with
/// its description.
#[derive(Debug)]
pub enum HostKeyError {
    Io { kind: IoKind, message: String },
}

/// The description of a key file that does not hold exactly one key but
/// `n` bytes.
pub open spec fn wrong_length_text(n: nat) -> Seq<char> {
    "host key file has wrong length: expected 32 bytes, got "@ + decimal(n)
}

impl HostKeyError {
    /// The human-readable description of this error: that of the I/O
    /// error.
    pub fn message(&self) -> (r: String)
        ensures
            r@ == match self {
                HostKeyError::Io { message, .. } => message@,
            },
    {
        match self {
            HostKeyError::Io { message, .. } => message.clone(),
        }
    }
}

/// `name` adjoined to directory `dir`, with a `/` between them unless
/// `dir` is empty or already ends with one.
pub open spec fn joined_path(dir: Seq<char>, name: Seq<char>) -> Seq<char> {
    if dir.len() == 0 {
        name
    } else if dir.last() == '/' {
        dir + name
    } else {
        dir + "/"@ + name
    }
}

/// The host's persistent secret key, kept at `data_dir/host.key`.
#[derive(Debug)]
pub struct HostKey {
    data_dir: String,
}

impl HostKey {
    /// The host key of the data directory `data_dir`.
    pub fn new(data_dir: String) -> (r: Self)
        ensures
            r.data_dir() == data_dir@,
    {
        HostKey { data_dir }
    }

    /// The data directory the key lives in.
    pub closed spec fn data_dir(&self) -> Seq<char> {
        self.data_dir@
    }

    /// The path where the host's secret key is kept.
    pub fn path(&self) -> (r: String)
        ensures
            r@ == joined_path(self.data_dir(), HOST_KEY_FILE@),
    {
        let mut s = String::new();
        push_str(&mut s, self.data_dir.as_str());
        let dir = self.data_dir.as_str();
        if !dir.is_empty() {
            let chars = crate::text::chars_of(dir);
            if chars[chars.len() - 1] != '/' {
                push_str(&mut s, "/");
            }
        }
        push_str(&mut s, HOST_KEY_FILE);
        s
    }
}

/// The key a key file holds: none when there is no file (`None`), the
/// bytes when there are exactly 32 of them, else an invalid-data I/O error
/// that gives the length found.
pub fn key_from_file(contents: Option<Vec<u8>>) -> (r: Result<Option<Vec<u8>>, HostKeyError>)
    ensures
        match contents {
            None => r == Ok::<Option<Vec<u8>>, HostKeyError>(None),
            Some(bytes) => if bytes@.len() == HOST_KEY_LEN {
                r matches Ok(Some(k)) && k@ == bytes@
            } else {
                r matches Err(HostKeyError::Io { kind, message }) && kind == IoKind::InvalidData
                    && message@ == wrong_length_text(bytes@.len())
            },
        },
{
    match contents {
        None => Ok(None),
        Some(bytes) => {
            if bytes.len() == HOST_KEY_LEN {
                Ok(Some(bytes))
            } else {
                let mut message = String::new();
                push_str(&mut message, "host key file has wrong length: expected 32 bytes, got ");
                push_decimal(&mut message, bytes.len() as u64);
                Err(HostKeyError::Io { kind: IoKind::InvalidData, message })
            }
        },
    }
}

} // verus!
