//! Version pins: the requirement a pin file holds, and which files in the
//! pins directory are pins.
use vstd::prelude::*;

use crate::native::last_dot;
use crate::text::{chars_of, string_of_vec, trim, trim_chars};

verus! {

/// The requirement a pin file holds: its text trimmed, or none when that is
/// blank.
pub open spec fn pin_value_spec(raw: Seq<char>) -> Option<Seq<char>> {
    if trim(raw).len() == 0 {
        None
    } else {
        Some(trim(raw))
    }
}

/// Reads the requirement a pin file holds (see `pin_value_spec`).
pub fn pin_value(raw: &str) -> (r: Option<String>)
    ensures
        match r {
            Some(s) => pin_value_spec(raw@) == Some(s@),
            None => pin_value_spec(raw@) is None,
        },
{
    let t = trim_chars(chars_of(raw).as_slice());
    if t.len() == 0 {
        None
    } else {
        Some(string_of_vec(&t))
    }
}

/// The package a file in the pins directory pins: a file named
/// `<name>.pin` (`Path::extension` is `pin`) pins `<name>`.
pub open spec fn pin_name_spec(file_name: Seq<char>) -> Option<Seq<char>> {
    let i = last_dot(file_name);
    if i > 0 && file_name.skip(i + 1) == "pin"@ {
        Some(file_name.take(i))
    } else {
        None
    }
}

/// The package a pin file is for (see `pin_name_spec`).
pub fn pin_name_of_file(file_name: &str) -> (r: Option<String>)
    ensures
        match r {
            Some(s) => pin_name_spec(file_name@) == Some(s@),
            None => pin_name_spec(file_name@) is None,
        },
{
    let name = chars_of(file_name);
    let n = name.len();
    let mut i: usize = n;
    assert(name@.take(n as int) =~= name@);
    while i > 0 && name[i - 1] != '.'
        invariant
            i <= n,
            n == name@.len(),
            name@ == file_name@,
            last_dot(name@) == last_dot(name@.take(i as int)),
        decreases i,
    {
        assert(name@.take(i as int).drop_last() =~= name@.take(i - 1));
        i = i - 1;
    }
    if i == 0 {
        assert(name@.take(0) =~= Seq::<char>::empty());
        return None;
    }
    assert(name@.take(i as int).last() == name@[i - 1]);
    let dot = i - 1;
    if dot == 0 {
        return None;
    }
    let ext = crate::text::slice_chars(name.as_slice(), dot + 1, n);
    assert(name@.subrange(dot + 1, n as int) =~= name@.skip(dot + 1));
    if !crate::text::chars_eq_str(ext.as_slice(), "pin") {
        return None;
    }
    let stem = crate::text::slice_chars(name.as_slice(), 0, dot);
    assert(name@.subrange(0, dot as int) =~= name@.take(dot as int));
    Some(string_of_vec(&stem))
}

/// A pin written with `requirement` reads back as the requirement trimmed,
/// and as no pin when that is blank.
pub proof fn lemma_pin_round_trip(requirement: Seq<char>)
    ensures
        pin_value_spec(requirement) == (if trim(requirement).len() == 0 {
            None
        } else {
            Some(trim(requirement))
        }),
        pin_value_spec(requirement) matches Some(v) ==> pin_value_spec(v) == Some(v),
{
    crate::text::lemma_trim_idempotent(requirement);
}

} // verus!
