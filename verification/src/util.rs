//! The byte-size humanizer.

use vstd::prelude::*;
use vstd::string::*;
use crate::digits::{dec_str, u64_to_decimal};

verus! {

/// The human-readable rendering of a byte count.
///
/// Zero renders as the empty string. A count strictly between two
/// neighbouring powers of 1024 renders with the matching unit and
/// truncating division; everything else — including the exact powers
/// of 1024 themselves and anything of a tebibyte or more — falls
/// through to the raw byte count with the `B` unit.
pub open spec fn size_str(n: u64) -> Seq<char> {
    if n == 0 {
        Seq::empty()
    } else if 1024 < n && n < 1048576 {
        dec_str((n / 1024) as nat) + " kB"@
    } else if 1048576 < n && n < 1073741824 {
        dec_str((n / 1048576) as nat) + " MB"@
    } else if 1073741824 < n && n < 1099511627776 {
        dec_str((n / 1073741824) as nat) + " GB"@
    } else {
        dec_str(n as nat) + " B"@
    }
}

/// Renders a byte count as a short human-readable string.
pub fn file_size_to_string(file_size: u64) -> (s: String)
    ensures
        s@ == size_str(file_size),
{
    if file_size == 0 {
        let s = String::new();
        proof {
            assert(s@ =~= size_str(file_size));
        }
        s
    } else if file_size > 1024 && file_size < 1048576 {
        let mut s = u64_to_decimal(file_size / 1024);
        s.append(" kB");
        s
    } else if file_size > 1048576 && file_size < 1073741824 {
        let mut s = u64_to_decimal(file_size / 1048576);
        s.append(" MB");
        s
    } else if file_size > 1073741824 && file_size < 1099511627776 {
        let mut s = u64_to_decimal(file_size / 1073741824);
        s.append(" GB");
        s
    } else {
        let mut s = u64_to_decimal(file_size);
        s.append(" B");
        s
    }
}

} // verus!
