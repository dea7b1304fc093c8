//! The byte order in which multi-byte numbers are read.

use vstd::prelude::*;
use vstd::string::StringExecFns;

verus! {

/// The byte order in which multi-byte numbers are read.
#[derive(Clone, Copy, Debug, PartialEq, Eq, Structural)]
pub enum Endian {
    Big,
    Little,
    Native,
}

impl Endian {
    /// The name of the byte order, as a sequence of characters.
    pub open spec fn name_spec(self) -> Seq<char> {
        match self {
            Endian::Big => "Big"@,
            Endian::Little => "Little"@,
            Endian::Native => "Native"@,
        }
    }

    /// The byte order that reads follow: the order itself, and for the native
    /// order that of the machine.
    pub fn resolved(self) -> (order: Endian)
        ensures
            order != Endian::Native,
            self != Endian::Native ==> order == self,
    {
        match self {
            Endian::Native => host_endian(),
            _ => self,
        }
    }
}

/// The bytes of `x` in the order of the machine, from `u16::to_ne_bytes`: its
/// two bytes, the low one first or the high one first.
#[verifier::external_body]
fn native_bytes(x: u16) -> (bytes: [u8; 2])
    ensures
        (bytes[0] == x % 256 && bytes[1] == x / 256) || (bytes[0] == x / 256 && bytes[1] == x
            % 256),
{
    x.to_ne_bytes()
}

/// The byte order of a machine on which the number one, as a `u16`, lies in
/// memory as `bytes`: little-endian if the one comes first, else big-endian.
pub fn order_of(bytes: [u8; 2]) -> (order: Endian)
    ensures
        order == if bytes[0] == 1 {
            Endian::Little
        } else {
            Endian::Big
        },
{
    if bytes[0] == 1 {
        Endian::Little
    } else {
        Endian::Big
    }
}

/// The byte order of the machine that runs the program.
pub fn host_endian() -> (order: Endian)
    ensures
        order == Endian::Big || order == Endian::Little,
{
    order_of(native_bytes(1))
}

impl From<&Endian> for String {
    fn from(endian: &Endian) -> (s: String)
        ensures
            s@ == endian.name_spec(),
    {
        match endian {
            Endian::Big => String::from_str("Big"),
            Endian::Little => String::from_str("Little"),
            Endian::Native => String::from_str("Native"),
        }
    }
}

impl vstd::std_specs::convert::FromSpecImpl<&Endian> for String {
    open spec fn obeys_from_spec() -> bool {
        false
    }

    open spec fn from_spec(endian: &Endian) -> String {
        arbitrary()
    }
}

impl Default for Endian {
    fn default() -> (e: Endian)
        ensures
            e == Endian::Native,
    {
        Endian::Native
    }
}

} // verus!
