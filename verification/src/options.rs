//! The options that every read receives: a small bag of parameters that is
//! copied, with overrides, for each field.

use vstd::prelude::*;
use crate::endian::Endian;

verus! {

/// The parameters of one read. A read never changes the options it was given:
/// what a field overrides goes into a copy that only the field's read sees.
#[derive(Debug, PartialEq, Eq)]
pub struct ReadOptions {
    /// The byte order of numbers.
    pub endian: Endian,
    /// How many items a list holds, where the type is a list.
    pub count: Option<usize>,
    /// What is added to a pointer to find the position it points to.
    pub offset: Option<i64>,
    /// The name under which the trace shows what is being read.
    pub variable_name: Option<String>,
}

impl ReadOptions {
    /// Options with the given byte order and nothing else.
    pub fn new(endian: Endian) -> (options: ReadOptions)
        ensures
            options == (ReadOptions { endian, count: None, offset: None, variable_name: None }),
    {
        ReadOptions { endian, count: None, offset: None, variable_name: None }
    }

    /// A copy of the options.
    pub fn copy(&self) -> (options: ReadOptions)
        ensures
            options == *self,
    {
        ReadOptions {
            endian: self.endian,
            count: self.count,
            offset: self.offset,
            variable_name: copy_name(&self.variable_name),
        }
    }

    /// The options with another byte order.
    pub open spec fn with_endian(self, endian: Endian) -> ReadOptions {
        ReadOptions { endian, ..self }
    }

    /// The options as reads follow them on a machine of byte order `host`:
    /// the native order stands for `host`.
    pub open spec fn on_host(self, host: Endian) -> ReadOptions {
        if self.endian == Endian::Native {
            self.with_endian(host)
        } else {
            self
        }
    }

    /// A copy of the options in which the native byte order is replaced by the
    /// order of the machine.
    pub fn resolved(&self) -> (options: ReadOptions)
        ensures
            options.endian != Endian::Native,
            options == self.on_host(Endian::Big) || options == self.on_host(Endian::Little),
    {
        let mut options = self.copy();
        options.endian = self.endian.resolved();
        options
    }
}

impl Default for ReadOptions {
    fn default() -> (options: ReadOptions)
        ensures
            options == (ReadOptions {
                endian: Endian::Native,
                count: None,
                offset: None,
                variable_name: None,
            }),
    {
        ReadOptions::new(Endian::Native)
    }
}

/// A copy of an optional name.
pub fn copy_name(name: &Option<String>) -> (copy: Option<String>)
    ensures
        copy == *name,
{
    match name {
        Some(n) => Some(n.clone()),
        None => None,
    }
}

} // verus!
