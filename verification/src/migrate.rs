//! Migration pair generation.
//!
//! A migration pair is a directory named `<timestamp>_<name>` holding two
//! placeholder files, one to apply a schema change and one to revert it.
//! The timestamp is the local wall-clock time at second resolution,
//! rendered `YYYYMMDDHHMMSS` so directory names sort chronologically.
//! Batch generation derives one pair name per existing domain.

use vstd::prelude::*;

use crate::text::{chars_of, push_all};

verus! {

/// A wall-clock reading split into plain calendar fields.
#[derive(Clone, Copy, Debug)]
pub struct TimeParts {
    pub year: i32,
    pub month: u32,
    pub day: u32,
    pub hour: u32,
    pub minute: u32,
    pub second: u32,
}

impl TimeParts {
    /// Field ranges as the clock library documents them.
    pub open spec fn wf(self) -> bool {
        &&& 1 <= self.month <= 12
        &&& 1 <= self.day <= 31
        &&& self.hour <= 23
        &&& self.minute <= 59
        &&& self.second <= 59
    }
}

/// The character for one decimal digit.
pub open spec fn digit_char(d: int) -> char {
    if d == 0 {
        '0'
    } else if d == 1 {
        '1'
    } else if d == 2 {
        '2'
    } else if d == 3 {
        '3'
    } else if d == 4 {
        '4'
    } else if d == 5 {
        '5'
    } else if d == 6 {
        '6'
    } else if d == 7 {
        '7'
    } else if d == 8 {
        '8'
    } else {
        '9'
    }
}

/// Decimal digits of `n`, most significant first, no leading zeros.
pub open spec fn dec_digits(n: nat) -> Seq<char>
    decreases n,
{
    if n <= 9 {
        seq![digit_char(n as int)]
    } else {
        dec_digits(n / 10) + seq![digit_char((n % 10) as int)]
    }
}

/// `n` zero-padded on the left to at least four digits.
pub open spec fn padded4(n: nat) -> Seq<char> {
    if n <= 9 {
        seq!['0', '0', '0'] + dec_digits(n)
    } else if n <= 99 {
        seq!['0', '0'] + dec_digits(n)
    } else if n <= 999 {
        seq!['0'] + dec_digits(n)
    } else {
        dec_digits(n)
    }
}

/// `n` zero-padded on the left to at least two digits.
pub open spec fn padded2(n: nat) -> Seq<char> {
    if n <= 9 {
        seq!['0'] + dec_digits(n)
    } else {
        dec_digits(n)
    }
}

/// The year field: four zero-padded digits, with an explicit sign outside
/// the years 0 through 9999.
pub open spec fn year_chars(y: int) -> Seq<char> {
    if y < 0 {
        seq!['-'] + padded4((-y) as nat)
    } else if y > 9999 {
        seq!['+'] + padded4(y as nat)
    } else {
        padded4(y as nat)
    }
}

/// The `YYYYMMDDHHMMSS` timestamp for `t`.
pub open spec fn timestamp_chars(t: TimeParts) -> Seq<char> {
    year_chars(t.year as int) + padded2(t.month as nat) + padded2(t.day as nat) + padded2(
        t.hour as nat,
    ) + padded2(t.minute as nat) + padded2(t.second as nat)
}

/// The directory name `<timestamp>_<name>` of one migration pair.
pub open spec fn migration_dir_chars(t: TimeParts, name: Seq<char>) -> Seq<char> {
    timestamp_chars(t) + seq!['_'] + name
}

/// The migration name `create_<domain>_table` derived for one domain.
pub open spec fn derived_migration_chars(domain: Seq<char>) -> Seq<char> {
    "create_"@ + domain + "_table"@
}

proof fn lemma_dec_digits_len_small(n: nat)
    requires
        n <= 9999,
    ensures
        dec_digits(n).len() == (if n <= 9 {
            1int
        } else if n <= 99 {
            2
        } else if n <= 999 {
            3
        } else {
            4
        }),
    decreases n,
{
    if n > 9 {
        lemma_dec_digits_len_small(n / 10);
    }
}

/// For years 0 through 9999 the timestamp is exactly fourteen characters,
/// so directory names of one era sort lexically in time order.
pub proof fn lemma_timestamp_fixed_width(t: TimeParts)
    requires
        t.wf(),
        0 <= t.year <= 9999,
    ensures
        timestamp_chars(t).len() == 14,
{
    lemma_dec_digits_len_small(t.year as nat);
    lemma_dec_digits_len_small(t.month as nat);
    lemma_dec_digits_len_small(t.day as nat);
    lemma_dec_digits_len_small(t.hour as nat);
    lemma_dec_digits_len_small(t.minute as nat);
    lemma_dec_digits_len_small(t.second as nat);
}

fn digit_char_exec(d: u32) -> (c: char)
    requires
        d <= 9,
    ensures
        c == digit_char(d as int),
{
    if d == 0 {
        '0'
    } else if d == 1 {
        '1'
    } else if d == 2 {
        '2'
    } else if d == 3 {
        '3'
    } else if d == 4 {
        '4'
    } else if d == 5 {
        '5'
    } else if d == 6 {
        '6'
    } else if d == 7 {
        '7'
    } else if d == 8 {
        '8'
    } else {
        '9'
    }
}

fn push_dec(out: &mut Vec<char>, n: u32)
    ensures
        final(out)@ == old(out)@ + dec_digits(n as nat),
    decreases n,
{
    if n <= 9 {
        out.push(digit_char_exec(n));
        proof {
            assert(out@ =~= old(out)@ + dec_digits(n as nat));
        }
    } else {
        push_dec(out, n / 10);
        out.push(digit_char_exec(n % 10));
        proof {
            assert(out@ =~= old(out)@ + dec_digits(n as nat));
        }
    }
}

fn push_padded4(out: &mut Vec<char>, n: u32)
    ensures
        final(out)@ == old(out)@ + padded4(n as nat),
{
    if n <= 9 {
        out.push('0');
        out.push('0');
        out.push('0');
    } else if n <= 99 {
        out.push('0');
        out.push('0');
    } else if n <= 999 {
        out.push('0');
    }
    push_dec(out, n);
    proof {
        assert(out@ =~= old(out)@ + padded4(n as nat));
    }
}

fn push_padded2(out: &mut Vec<char>, n: u32)
    ensures
        final(out)@ == old(out)@ + padded2(n as nat),
{
    if n <= 9 {
        out.push('0');
    }
    push_dec(out, n);
    proof {
        assert(out@ =~= old(out)@ + padded2(n as nat));
    }
}

/// Renders the `YYYYMMDDHHMMSS` timestamp for `t`.
pub fn timestamp_vec(t: &TimeParts) -> (r: Vec<char>)
    ensures
        r@ == timestamp_chars(*t),
{
    let mut out: Vec<char> = Vec::new();
    if t.year < 0 {
        out.push('-');
        let m: u32 = (-(t.year as i64)) as u32;
        proof {
            assert(m as nat == (-(t.year as int)) as nat);
        }
        push_padded4(&mut out, m);
    } else if t.year > 9999 {
        out.push('+');
        push_padded4(&mut out, t.year as u32);
    } else {
        push_padded4(&mut out, t.year as u32);
    }
    proof {
        assert(out@ =~= year_chars(t.year as int));
    }
    push_padded2(&mut out, t.month);
    push_padded2(&mut out, t.day);
    push_padded2(&mut out, t.hour);
    push_padded2(&mut out, t.minute);
    push_padded2(&mut out, t.second);
    proof {
        assert(out@ =~= timestamp_chars(*t));
    }
    out
}

/// Builds the directory name `<timestamp>_<name>`.
pub fn migration_dir_name(t: &TimeParts, name: &Vec<char>) -> (r: Vec<char>)
    ensures
        r@ == migration_dir_chars(*t, name@),
{
    let mut out = timestamp_vec(t);
    out.push('_');
    push_all(&mut out, name);
    proof {
        assert(out@ =~= migration_dir_chars(*t, name@));
    }
    out
}

/// Builds the derived batch name `create_<domain>_table`.
pub fn derived_migration_name(domain: &Vec<char>) -> (r: Vec<char>)
    ensures
        r@ == derived_migration_chars(domain@),
{
    let mut out = chars_of("create_");
    push_all(&mut out, domain);
    let tail = chars_of("_table");
    push_all(&mut out, &tail);
    out
}

/// Placeholder body of the apply-side file, pending manual edit.
pub open spec fn up_placeholder_chars() -> Seq<char> {
    "-- write the up migration here"@
}

/// Placeholder body of the revert-side file, pending manual edit.
pub open spec fn down_placeholder_chars() -> Seq<char> {
    "-- write the down migration here"@
}

/// One migration pair, ready to be written to disk.
pub struct MigrationPlan {
    /// Name of the directory holding the pair.
    pub dir_name: Vec<char>,
    /// Contents of the apply-side placeholder file.
    pub up_contents: Vec<char>,
    /// Contents of the revert-side placeholder file.
    pub down_contents: Vec<char>,
}

/// Plans one migration pair for `name` at time `t`.
pub fn create_migration_pair(t: &TimeParts, name: &Vec<char>) -> (r: MigrationPlan)
    ensures
        r.dir_name@ == migration_dir_chars(*t, name@),
        r.up_contents@ == up_placeholder_chars(),
        r.down_contents@ == down_placeholder_chars(),
        r.up_contents@.len() > 0,
        r.down_contents@.len() > 0,
{
    proof {
        reveal_strlit("-- write the up migration here");
        reveal_strlit("-- write the down migration here");
    }
    MigrationPlan {
        dir_name: migration_dir_name(t, name),
        up_contents: chars_of("-- write the up migration here"),
        down_contents: chars_of("-- write the down migration here"),
    }
}

/// The logical migration names one generation run produces: the explicit
/// name when one is given, otherwise one derived name per domain.
pub fn migrate_generate(name: Option<&Vec<char>>, domains: &Vec<Vec<char>>) -> (r: Vec<Vec<char>>)
    ensures
        match name {
            Some(n) => r@.len() == 1 && r@[0]@ == n@,
            None => {
                &&& r@.len() == domains@.len()
                &&& forall|i: int|
                    0 <= i < r@.len() ==> r@[i]@ == derived_migration_chars(domains@[i]@)
            },
        },
{
    let mut out: Vec<Vec<char>> = Vec::new();
    match name {
        Some(n) => {
            out.push(n.clone());
            out
        },
        None => {
            let mut i: usize = 0;
            while i < domains.len()
                invariant
                    i <= domains@.len(),
                    out@.len() == i,
                    forall|j: int|
                        0 <= j < i ==> out@[j]@ == derived_migration_chars(domains@[j]@),
                decreases domains@.len() - i,
            {
                out.push(derived_migration_name(&domains[i]));
                i += 1;
            }
            out
        },
    }
}

/// Relies on chrono's `Local::now` and its `Datelike` and `Timelike`
/// accessors, whose documentation bounds the fields: month 1 to 12, day
/// 1 to 31, hour 0 to 23, minute 0 to 59, second 0 to 59.  The year
/// carries no bound.
#[verifier::external_body]
fn local_now_fields() -> (r: (i32, u32, u32, u32, u32, u32))
    ensures
        1 <= r.1 <= 12,
        1 <= r.2 <= 31,
        r.3 <= 23,
        r.4 <= 59,
        r.5 <= 59,
{
    let now = chrono::Local::now();
    (
        chrono::Datelike::year(&now),
        chrono::Datelike::month(&now),
        chrono::Datelike::day(&now),
        chrono::Timelike::hour(&now),
        chrono::Timelike::minute(&now),
        chrono::Timelike::second(&now),
    )
}

/// Reads the local clock as calendar fields.
///
/// The result is whatever the clock said; only the documented field
/// ranges are known of it.
pub fn current_time_parts() -> (r: TimeParts)
    ensures
        r.wf(),
{
    let (y, mo, d, h, mi, s) = local_now_fields();
    TimeParts { year: y, month: mo, day: d, hour: h, minute: mi, second: s }
}

} // verus!
