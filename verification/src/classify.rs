//! The entry classifier: decides for one source entry whether it is skipped
//! or transferred, and renders the destination subdirectory
//! `YYYY/MM/DD` (month and day zero-padded to two digits) from the entry's
//! modification time taken as a UTC calendar date.
//!
//! The caller supplies each entry's metadata, captured once at enumeration
//! time, as plain values; probing the destination file is the caller's
//! work, and its finding comes back in as `dest_size`.

use vstd::prelude::*;

verus! {

/// One item listed directly under the source directory, with its metadata
/// snapshot from enumeration time.
pub struct SourceEntry {
    pub name: String,
    pub size: u64,
    pub mtime_micros: i64,
    pub is_dir: bool,
}

/// The decimal digit `d` as a character.
pub open spec fn digit_char(d: int) -> char {
    if d == 0 {
        '0'
    } else if d == 1 {
        '1'
    } else if d == 2 {
        '2'
    } else if d == 3 {
        '3'
    } else if d == 4 {
        '4'
    } else if d == 5 {
        '5'
    } else if d == 6 {
        '6'
    } else if d == 7 {
        '7'
    } else if d == 8 {
        '8'
    } else {
        '9'
    }
}

/// The decimal rendering of `n`, most significant digit first, no sign and
/// no leading zeros (a single `0` for zero).
pub open spec fn dec_digits(n: nat) -> Seq<char>
    decreases n,
{
    if n < 10 {
        seq![digit_char(n as int)]
    } else {
        dec_digits(n / 10).push(digit_char((n % 10) as int))
    }
}

/// The decimal rendering of `y`, with a leading `-` when negative.
pub open spec fn signed_decimal(y: int) -> Seq<char> {
    if y < 0 {
        seq!['-'] + dec_digits((-y) as nat)
    } else {
        dec_digits(y as nat)
    }
}

/// The decimal rendering of `n` zero-padded to at least two digits.
pub open spec fn padded2(n: nat) -> Seq<char> {
    if n < 10 {
        seq!['0'] + dec_digits(n)
    } else {
        dec_digits(n)
    }
}

/// The destination subdirectory for a calendar date: year, then the
/// two-digit month, then the two-digit day.
pub open spec fn date_segments_spec(y: int, m: nat, d: nat) -> Seq<Seq<char>> {
    seq![signed_decimal(y), padded2(m), padded2(d)]
}

fn digit_str(d: u32) -> (s: &'static str)
    requires
        d < 10,
    ensures
        s@ == seq![digit_char(d as int)],
{
    if d == 0 {
        proof {
            reveal_strlit("0");
        }
        let s = "0";
        proof {
            assert(s@ =~= seq![digit_char(d as int)]);
        }
        s
    } else if d == 1 {
        proof {
            reveal_strlit("1");
        }
        let s = "1";
        proof {
            assert(s@ =~= seq![digit_char(d as int)]);
        }
        s
    } else if d == 2 {
        proof {
            reveal_strlit("2");
        }
        let s = "2";
        proof {
            assert(s@ =~= seq![digit_char(d as int)]);
        }
        s
    } else if d == 3 {
        proof {
            reveal_strlit("3");
        }
        let s = "3";
        proof {
            assert(s@ =~= seq![digit_char(d as int)]);
        }
        s
    } else if d == 4 {
        proof {
            reveal_strlit("4");
        }
        let s = "4";
        proof {
            assert(s@ =~= seq![digit_char(d as int)]);
        }
        s
    } else if d == 5 {
        proof {
            reveal_strlit("5");
        }
        let s = "5";
        proof {
            assert(s@ =~= seq![digit_char(d as int)]);
        }
        s
    } else if d == 6 {
        proof {
            reveal_strlit("6");
        }
        let s = "6";
        proof {
            assert(s@ =~= seq![digit_char(d as int)]);
        }
        s
    } else if d == 7 {
        proof {
            reveal_strlit("7");
        }
        let s = "7";
        proof {
            assert(s@ =~= seq![digit_char(d as int)]);
        }
        s
    } else if d == 8 {
        proof {
            reveal_strlit("8");
        }
        let s = "8";
        proof {
            assert(s@ =~= seq![digit_char(d as int)]);
        }
        s
    } else {
        proof {
            reveal_strlit("9");
        }
        let s = "9";
        proof {
            assert(s@ =~= seq![digit_char(d as int)]);
        }
        s
    }
}

/// Appends the decimal rendering of `n` to `out`.
pub fn push_decimal(out: &mut String, n: u32)
    ensures
        final(out)@ == old(out)@ + dec_digits(n as nat),
    decreases n,
{
    if n >= 10 {
        push_decimal(out, n / 10);
    }
    let ghost mid = out@;
    let d = digit_str(n % 10);
    out.append(d);
    proof {
        if n >= 10 {
            assert(dec_digits(n as nat) == dec_digits(n as nat / 10).push(
                digit_char(n as int % 10),
            ));
            assert(out@ =~= old(out)@ + dec_digits(n as nat));
        } else {
            assert(dec_digits(n as nat) =~= seq![digit_char(n as int)]);
            assert(out@ =~= old(out)@ + dec_digits(n as nat));
        }
    }
}

/// The decimal rendering of `n` as a fresh string.
pub fn u32_decimal(n: u32) -> (s: String)
    ensures
        s@ == dec_digits(n as nat),
{
    let mut s = String::new();
    push_decimal(&mut s, n);
    proof {
        assert(s@ =~= dec_digits(n as nat));
    }
    s
}

/// The year as a decimal string, with a leading `-` for years before 0.
pub fn year_string(y: i32) -> (s: String)
    ensures
        s@ == signed_decimal(y as int),
{
    if y < 0 {
        let mut s = String::from_str("-");
        let mag64: i64 = -(y as i64);
        let mag: u32 = mag64 as u32;
        proof {
            assert(mag == -(y as int));
        }
        push_decimal(&mut s, mag);
        proof {
            reveal_strlit("-");
            assert(s@ =~= signed_decimal(y as int));
        }
        s
    } else {
        let s = u32_decimal(y as u32);
        s
    }
}

/// The month or day as a decimal string zero-padded to two digits.
pub fn padded2_string(n: u32) -> (s: String)
    ensures
        s@ == padded2(n as nat),
{
    if n < 10 {
        let mut s = String::from_str("0");
        push_decimal(&mut s, n);
        proof {
            reveal_strlit("0");
            assert(s@ =~= padded2(n as nat));
        }
        s
    } else {
        u32_decimal(n)
    }
}

/// The UTC calendar date (year, month, day) that chrono derives from a
/// microsecond UNIX timestamp, or `None` where the timestamp is out of
/// chrono's range.
pub uninterp spec fn utc_date_of_micros(micros: i64) -> Option<(i32, u32, u32)>;

/// Relies on chrono's `DateTime::<Utc>::from_timestamp_micros` together
/// with the `Datelike` accessors `year`, `month` and `day`: the UTC
/// calendar date is a function of the timestamp alone; `from_timestamp_micros`
/// returns `None` exactly on timestamps outside chrono's representable
/// range; `month` is documented to range over `1..=12` and `day` over
/// `1..=31`.
#[verifier::external_body]
fn utc_date(micros: i64) -> (r: Option<(i32, u32, u32)>)
    ensures
        r == utc_date_of_micros(micros),
        r matches Some(t) ==> 1 <= t.1 <= 12 && 1 <= t.2 <= 31,
{
    match chrono::DateTime::from_timestamp_micros(micros) {
        Some(dt) => Some(
            (chrono::Datelike::year(&dt), chrono::Datelike::month(&dt), chrono::Datelike::day(&dt)),
        ),
        None => None,
    }
}

/// What the classifier concluded before any destination probing: a
/// directory entry is skipped outright (no destination is computed for
/// it), a timestamp outside the calendar range is an error, and any other
/// file maps to its `YYYY/MM/DD` destination subdirectory.
pub enum Plan {
    SkipIsDirectory,
    InvalidTimestamp,
    Dest { segments: Vec<String> },
}

/// Classifies one entry as far as its own metadata carries: directories
/// are skipped without computing a destination; for files the destination
/// subdirectory segments are rendered from the modification date.
pub fn entry_plan(entry: &SourceEntry) -> (p: Plan)
    ensures
        entry.is_dir ==> p == Plan::SkipIsDirectory,
        !entry.is_dir ==> match utc_date_of_micros(entry.mtime_micros) {
            None => p == Plan::InvalidTimestamp,
            Some(t) => p matches Plan::Dest { segments } && segments.deep_view()
                == date_segments_spec(t.0 as int, t.1 as nat, t.2 as nat),
        },
{
    if entry.is_dir {
        return Plan::SkipIsDirectory;
    }
    match utc_date(entry.mtime_micros) {
        None => Plan::InvalidTimestamp,
        Some((y, m, d)) => {
            let mut segments: Vec<String> = Vec::new();
            segments.push(year_string(y));
            segments.push(padded2_string(m));
            segments.push(padded2_string(d));
            proof {
                assert(segments.deep_view() =~= date_segments_spec(y as int, m as nat, d as nat));
            }
            Plan::Dest { segments }
        },
    }
}

/// How an entry that reached the destination check is handled.
pub enum Action {
    SkipExists,
    Transfer,
}

/// The skip-or-transfer rule: an entry is skipped exactly when overwriting
/// is off and the destination already holds a file of the same size as the
/// source; size equality is the sole already-transferred heuristic.
pub open spec fn transfer_decision(force: bool, source_size: u64, dest_size: Option<u64>) -> Action {
    if !force && dest_size == Some(source_size) {
        Action::SkipExists
    } else {
        Action::Transfer
    }
}

/// Decides between skipping and transferring, given the size of the file
/// already at the destination (`None` where none exists).
pub fn decide_transfer(force: bool, source_size: u64, dest_size: Option<u64>) -> (a: Action)
    ensures
        a == transfer_decision(force, source_size, dest_size),
{
    if !force {
        if let Some(ds) = dest_size {
            if ds == source_size {
                return Action::SkipExists;
            }
        }
    }
    Action::Transfer
}

/// An entry whose destination does not yet exist is always transferred.
pub proof fn lemma_missing_destination_transfers(force: bool, source_size: u64)
    ensures
        transfer_decision(force, source_size, None) == Action::Transfer,
{
}

/// An existing destination of equal size is skipped when overwriting is
/// off; with `force` on the entry is transferred regardless of size.
pub proof fn lemma_existing_destination(source_size: u64, dest_size: u64)
    ensures
        transfer_decision(false, source_size, Some(dest_size)) == (if dest_size == source_size {
            Action::SkipExists
        } else {
            Action::Transfer
        }),
        transfer_decision(true, source_size, Some(dest_size)) == Action::Transfer,
{
}

} // verus!
