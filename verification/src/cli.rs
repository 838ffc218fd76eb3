//! Backend selection from the command line.
//!
//! One optional argument names the rendering backend: `cpu` or `gpu`.
//! Any other name is a usage error the caller reports without failing,
//! and no argument selects the GPU path, the default documented here.

use vstd::prelude::*;

verus! {

/// Which rendering backend an argument selects.
#[derive(Clone, Copy, PartialEq, Eq, Structural, Debug)]
pub enum DeviceChoice {
    Cpu,
    Gpu,
    Invalid,
}

/// The bytes of a three-letter word.
pub open spec fn spec_is_word3(s: Seq<u8>, a: u8, b: u8, c: u8) -> bool {
    s.len() == 3 && s[0] == a && s[1] == b && s[2] == c
}

/// What a device argument selects: `cpu` and `gpu` by name, the GPU when
/// nothing is given, and a usage error otherwise.
pub open spec fn spec_device_of(arg: Option<Seq<u8>>) -> DeviceChoice {
    match arg {
        None => DeviceChoice::Gpu,
        Some(s) => if spec_is_word3(s, 99, 112, 117) {
            DeviceChoice::Cpu
        } else if spec_is_word3(s, 103, 112, 117) {
            DeviceChoice::Gpu
        } else {
            DeviceChoice::Invalid
        },
    }
}

/// Select the backend the optional device argument names.
pub fn choose_device(arg: Option<&[u8]>) -> (r: DeviceChoice)
    ensures
        r == spec_device_of(
            match arg {
                None => None,
                Some(s) => Some(s@),
            },
        ),
{
    match arg {
        None => DeviceChoice::Gpu,
        Some(s) => {
            if s.len() == 3 && s[0] == 99 && s[1] == 112 && s[2] == 117 {
                DeviceChoice::Cpu
            } else if s.len() == 3 && s[0] == 103 && s[1] == 112 && s[2] == 117 {
                DeviceChoice::Gpu
            } else {
                DeviceChoice::Invalid
            }
        },
    }
}

} // verus!
