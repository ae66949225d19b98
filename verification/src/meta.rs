//! The metadata line of a preview: size, modification time and permissions.
use vstd::prelude::*;
use crate::size::{format_size, format_size_spec};
use crate::text::{
    digits_value,
    lemma_zero_padded_value,
    pow10,
    push_char,
    push_str,
    push_zero_padded,
    zero_padded,
};

verus! {

/// A broken-down local time as the C library's `struct tm` holds it: years since
/// 1900, months counted from 0, and the day, hour, minute and second.
#[derive(Clone, Copy, Debug, PartialEq, Eq)]
pub struct LocalTime {
    pub tm_year: i32,
    pub tm_mon: i32,
    pub tm_mday: i32,
    pub tm_hour: i32,
    pub tm_min: i32,
    pub tm_sec: i32,
}

/// Whether the calendar year and month of `t` can be computed in 32 bits.
pub open spec fn local_time_in_range(t: LocalTime) -> bool {
    t.tm_year + 1900 <= i32::MAX && t.tm_mon + 1 <= i32::MAX
}

/// `YYYY-MM-DD HH:MM:SS` for `t` (each field zero-padded to its width).
pub open spec fn timestamp_spec(t: LocalTime) -> Seq<char> {
    zero_padded(t.tm_year + 1900, 4) + seq!['-'] + zero_padded(t.tm_mon + 1, 2) + seq!['-']
        + zero_padded(t.tm_mday as int, 2) + seq![' '] + zero_padded(t.tm_hour as int, 2) + seq![
        ':',
    ] + zero_padded(t.tm_min as int, 2) + seq![':'] + zero_padded(t.tm_sec as int, 2)
}

/// The modification-time text: the timestamp, or `Unknown Date` when the time is
/// not available.
pub open spec fn format_time_spec(t: Option<LocalTime>) -> Seq<char> {
    match t {
        Some(t) => timestamp_spec(t),
        None => "Unknown Date"@,
    }
}

/// Renders a modification time.
pub fn format_time(t: Option<LocalTime>) -> (s: String)
    requires
        t matches Some(lt) ==> local_time_in_range(lt),
    ensures
        s@ == format_time_spec(t),
{
    let mut s = String::new();
    match t {
        Some(t) => {
            push_zero_padded(&mut s, (t.tm_year + 1900) as i64, 4);
            push_char(&mut s, '-');
            push_zero_padded(&mut s, (t.tm_mon + 1) as i64, 2);
            push_char(&mut s, '-');
            push_zero_padded(&mut s, t.tm_mday as i64, 2);
            push_char(&mut s, ' ');
            push_zero_padded(&mut s, t.tm_hour as i64, 2);
            push_char(&mut s, ':');
            push_zero_padded(&mut s, t.tm_min as i64, 2);
            push_char(&mut s, ':');
            push_zero_padded(&mut s, t.tm_sec as i64, 2);
        },
        None => {
            push_str(&mut s, "Unknown Date");
        },
    }
    s
}

/// The permission character for one mode bit.
pub open spec fn perm_char(mode: u32, bit: u32, letter: char) -> char {
    if mode & bit != 0 {
        letter
    } else {
        '-'
    }
}

/// `rwxrwxrwx`-style rendering of the owner, group and other permission bits.
pub open spec fn format_permissions_spec(mode: u32) -> Seq<char> {
    seq![
        perm_char(mode, 0o400, 'r'),
        perm_char(mode, 0o200, 'w'),
        perm_char(mode, 0o100, 'x'),
        perm_char(mode, 0o040, 'r'),
        perm_char(mode, 0o020, 'w'),
        perm_char(mode, 0o010, 'x'),
        perm_char(mode, 0o004, 'r'),
        perm_char(mode, 0o002, 'w'),
        perm_char(mode, 0o001, 'x'),
    ]
}

/// Renders the permission bits of a Unix file mode.
pub fn format_permissions(perm: u32) -> (r: String)
    ensures
        r@ == format_permissions_spec(perm),
{
    let mut r = String::new();
    push_char(
        &mut r,
        if perm & 0o400 != 0 {
            'r'
        } else {
            '-'
        },
    );
    push_char(
        &mut r,
        if perm & 0o200 != 0 {
            'w'
        } else {
            '-'
        },
    );
    push_char(
        &mut r,
        if perm & 0o100 != 0 {
            'x'
        } else {
            '-'
        },
    );
    push_char(
        &mut r,
        if perm & 0o040 != 0 {
            'r'
        } else {
            '-'
        },
    );
    push_char(
        &mut r,
        if perm & 0o020 != 0 {
            'w'
        } else {
            '-'
        },
    );
    push_char(
        &mut r,
        if perm & 0o010 != 0 {
            'x'
        } else {
            '-'
        },
    );
    push_char(
        &mut r,
        if perm & 0o004 != 0 {
            'r'
        } else {
            '-'
        },
    );
    push_char(
        &mut r,
        if perm & 0o002 != 0 {
            'w'
        } else {
            '-'
        },
    );
    push_char(
        &mut r,
        if perm & 0o001 != 0 {
            'x'
        } else {
            '-'
        },
    );
    r
}

/// The metadata summary line.
pub open spec fn metadata_string_spec(size: u64, modified: Option<LocalTime>, mode: u32) -> Seq<
    char,
> {
    "Size: "@ + format_size_spec(size as nat) + " | Modified: "@ + format_time_spec(modified)
        + " | Permissions: "@ + format_permissions_spec(mode)
}

/// Renders the metadata summary of a file from its size, modification time and mode.
pub fn get_metadata_string(size: u64, modified: Option<LocalTime>, mode: u32) -> (r: String)
    requires
        modified matches Some(lt) ==> local_time_in_range(lt),
    ensures
        r@ == metadata_string_spec(size, modified, mode),
{
    let mut r = String::new();
    push_str(&mut r, "Size: ");
    let sz = format_size(size);
    push_str(&mut r, sz.as_str());
    push_str(&mut r, " | Modified: ");
    let t = format_time(modified);
    push_str(&mut r, t.as_str());
    push_str(&mut r, " | Permissions: ");
    let p = format_permissions(mode);
    push_str(&mut r, p.as_str());
    r
}

/// The permission text always has nine characters, one per permission bit.
pub proof fn lemma_permissions_shape(mode: u32)
    ensures
        format_permissions_spec(mode).len() == 9,
        forall|i: int|
            0 <= i < 9 ==> #[trigger] format_permissions_spec(mode)[i] == '-' || (i % 3 == 0
                && format_permissions_spec(mode)[i] == 'r') || (i % 3 == 1
                && format_permissions_spec(mode)[i] == 'w') || (i % 3 == 2
                && format_permissions_spec(mode)[i] == 'x'),
{
}

/// The letter of permission column `i` (0 to 8): read, write, execute, for owner,
/// group and others in turn.
pub open spec fn permission_letter(i: int) -> char {
    if i % 3 == 0 {
        'r'
    } else if i % 3 == 1 {
        'w'
    } else {
        'x'
    }
}

/// Column `i` of the permission text shows its letter exactly when mode bit
/// `0o400 >> i` is set, and `-` otherwise: the owner's bits first, then the group's,
/// then the others'.
pub proof fn lemma_permission_bits(mode: u32)
    ensures
        format_permissions_spec(mode).len() == 9,
        forall|i: int|
            0 <= i < 9 ==> #[trigger] format_permissions_spec(mode)[i] == if mode & (0o400u32
                >> (i as u32)) != 0 {
                permission_letter(i)
            } else {
                '-'
            },
{
    assert(0o400u32 >> 0u32 == 0o400u32 && 0o400u32 >> 1u32 == 0o200u32 && 0o400u32 >> 2u32
        == 0o100u32 && 0o400u32 >> 3u32 == 0o040u32 && 0o400u32 >> 4u32 == 0o020u32 && 0o400u32
        >> 5u32 == 0o010u32 && 0o400u32 >> 6u32 == 0o004u32 && 0o400u32 >> 7u32 == 0o002u32
        && 0o400u32 >> 8u32 == 0o001u32) by (bit_vector);
    assert forall|i: int| 0 <= i < 9 implies #[trigger] format_permissions_spec(mode)[i] == if mode
        & (0o400u32 >> (i as u32)) != 0 {
        permission_letter(i)
    } else {
        '-'
    } by {
        if i == 0 {
        } else if i == 1 {
        } else if i == 2 {
        } else if i == 3 {
        } else if i == 4 {
        } else if i == 5 {
        } else if i == 6 {
        } else if i == 7 {
        } else {
        }
    }
}

/// The timestamp of a time whose fields fit their widths (a calendar year of 0 to
/// 9999, the others 0 to 99) is `YYYY-MM-DD HH:MM:SS`: 19 characters whose digit
/// groups read back as the calendar year (years since 1900 plus 1900), the month
/// counted from 1 (months since January plus 1), the day, hour, minute and second.
pub proof fn lemma_timestamp_fields(t: LocalTime)
    requires
        0 <= t.tm_year + 1900 <= 9999,
        0 <= t.tm_mon + 1 <= 99,
        0 <= t.tm_mday <= 99,
        0 <= t.tm_hour <= 99,
        0 <= t.tm_min <= 99,
        0 <= t.tm_sec <= 99,
    ensures
        timestamp_spec(t).len() == 19,
        timestamp_spec(t)[4] == '-' && timestamp_spec(t)[7] == '-',
        timestamp_spec(t)[10] == ' ',
        timestamp_spec(t)[13] == ':' && timestamp_spec(t)[16] == ':',
        digits_value(timestamp_spec(t).subrange(0, 4)) == t.tm_year + 1900,
        digits_value(timestamp_spec(t).subrange(5, 7)) == t.tm_mon + 1,
        digits_value(timestamp_spec(t).subrange(8, 10)) == t.tm_mday,
        digits_value(timestamp_spec(t).subrange(11, 13)) == t.tm_hour,
        digits_value(timestamp_spec(t).subrange(14, 16)) == t.tm_min,
        digits_value(timestamp_spec(t).subrange(17, 19)) == t.tm_sec,
{
    reveal_with_fuel(pow10, 5);
    let y = zero_padded(t.tm_year + 1900, 4);
    let mo = zero_padded(t.tm_mon + 1, 2);
    let d = zero_padded(t.tm_mday as int, 2);
    let h = zero_padded(t.tm_hour as int, 2);
    let mi = zero_padded(t.tm_min as int, 2);
    let se = zero_padded(t.tm_sec as int, 2);
    lemma_zero_padded_value(t.tm_year + 1900, 4);
    lemma_zero_padded_value(t.tm_mon + 1, 2);
    lemma_zero_padded_value(t.tm_mday as int, 2);
    lemma_zero_padded_value(t.tm_hour as int, 2);
    lemma_zero_padded_value(t.tm_min as int, 2);
    lemma_zero_padded_value(t.tm_sec as int, 2);
    let s = timestamp_spec(t);
    assert(s == y + seq!['-'] + mo + seq!['-'] + d + seq![' '] + h + seq![':'] + mi + seq![':']
        + se);
    assert(s.subrange(0, 4) == y);
    assert(s.subrange(5, 7) == mo);
    assert(s.subrange(8, 10) == d);
    assert(s.subrange(11, 13) == h);
    assert(s.subrange(14, 16) == mi);
    assert(s.subrange(17, 19) == se);
}

} // verus!
