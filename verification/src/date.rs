//! The (year, month) partition key: construction, derivation from a
//! destination path, and formatting of the destination path, with the
//! two proved to be a round-trip pair.

use vstd::prelude::*;

use crate::digits::{
    dec_digits, is_digit_char, lemma_dec_digits_val, lemma_two_digits_val, parse_decimal,
    parse_decimal_spec, push_decimal, push_two_digits, two_digits,
};

verus! {

/// Why a date could not be derived.
#[derive(Clone, Copy, Debug, PartialEq, Eq, Structural)]
pub enum DateError {
    /// The month is outside [1, 12].
    InvalidMonth,
    /// The year does not fit the index's year range.
    YearOutOfRange,
    /// The path has no parent directory component.
    MissingParent,
    /// The path has no grandparent directory component.
    MissingGrandparent,
    /// The grandparent directory name is not a number.
    UnparsableYear,
    /// The parent directory name is not a number.
    UnparsableMonth,
    /// The metadata container could not be read from the file bytes.
    BadContainer,
    /// The metadata has no primary DateTime field.
    MissingDateTimeField,
    /// The DateTime field is not ASCII-encoded.
    NotAscii,
    /// The DateTime field carries no value.
    EmptyDateTime,
    /// The DateTime value does not have the expected shape.
    BadDateTimeFormat,
    /// The wall-clock timestamp lies outside the representable range.
    BadTimestamp,
}

/// A (year, month) pair; the destination partition key.
///
/// The month always lies within [1, 12]: the fields are private and
/// every constructor rejects anything else.
#[derive(Clone, Copy, Debug, PartialEq, Eq, Structural)]
pub struct Date {
    year: u16,
    month: u8,
}

/// The date with the given parts; the spec-level constructor.
pub closed spec fn date_make(year: u16, month: u8) -> Date {
    Date { year, month }
}

/// What `date_make` builds reads back as its parts.
pub proof fn lemma_date_parts(year: u16, month: u8)
    ensures
        date_make(year, month).spec_year() == year,
        date_make(year, month).spec_month() == month,
{
}

/// What `Date::new` returns for any pair of arguments.
pub open spec fn date_new_spec(year: int, month: int) -> Result<Date, DateError> {
    if !(1 <= month <= 12) {
        Err(DateError::InvalidMonth)
    } else if !(0 <= year <= u16::MAX) {
        Err(DateError::YearOutOfRange)
    } else {
        Ok(date_make(year as u16, month as u8))
    }
}

/// The index of the last separator strictly before `end`, or -1.
pub open spec fn last_sep_before(s: Seq<char>, end: int) -> int
    decreases end,
{
    if end <= 0 {
        -1
    } else if s[end - 1] == '/' {
        end - 1
    } else {
        last_sep_before(s, end - 1)
    }
}

/// What `Date::from_path` returns: the parent directory name is read as
/// the month, the grandparent directory name as the year.
pub open spec fn date_from_path_spec(p: Seq<char>) -> Result<Date, DateError> {
    let i3 = last_sep_before(p, p.len() as int);
    if i3 == -1 {
        Err(DateError::MissingParent)
    } else {
        let i2 = last_sep_before(p, i3);
        if i2 == -1 {
            Err(DateError::MissingGrandparent)
        } else {
            let i1 = last_sep_before(p, i2);
            match parse_decimal_spec(p.subrange(i1 + 1, i2)) {
                None => Err(DateError::UnparsableYear),
                Some(y) => match parse_decimal_spec(p.subrange(i2 + 1, i3)) {
                    None => Err(DateError::UnparsableMonth),
                    Some(m) => date_new_spec(y as int, m as int),
                },
            }
        }
    }
}

/// The destination path: `<root>/<year>/<month:02>/<filename>`.
pub open spec fn output_path_spec(root: Seq<char>, d: Date, filename: Seq<char>) -> Seq<char> {
    root + seq!['/'] + dec_digits(d.spec_year() as nat) + seq!['/'] + two_digits(
        d.spec_month() as nat,
    ) + seq!['/'] + filename
}

impl Date {
    /// Every date that exists keeps its month within [1, 12].
    #[verifier::type_invariant]
    pub closed spec fn inv(self) -> bool {
        1 <= self.month <= 12
    }

    pub closed spec fn spec_year(&self) -> u16 {
        self.year
    }

    pub closed spec fn spec_month(&self) -> u8 {
        self.month
    }

    /// The calendar year.
    #[verifier::when_used_as_spec(spec_year)]
    pub fn year(&self) -> (y: u16)
        ensures
            y == self.spec_year(),
    {
        self.year
    }

    /// The month, starting from 1 = January.
    #[verifier::when_used_as_spec(spec_month)]
    pub fn month(&self) -> (m: u8)
        ensures
            m == self.spec_month(),
            1 <= m <= 12,
    {
        proof {
            use_type_invariant(self);
        }
        self.month
    }

    /// A date's month lies in [1, 12]; true of every value of the type.
    pub open spec fn wf(self) -> bool {
        1 <= self.spec_month() <= 12
    }

    /// Build a date, rejecting months outside [1, 12] and years outside
    /// the index's range.
    pub fn new(year: i64, month: u32) -> (r: Result<Self, DateError>)
        ensures
            r == date_new_spec(year as int, month as int),
            r is Ok <==> 1 <= month <= 12 && 0 <= year <= u16::MAX,
            r is Ok ==> r.unwrap().wf() && r.unwrap().spec_year() == year
                && r.unwrap().spec_month() == month,
    {
        if !(month >= 1 && month <= 12) {
            Err(DateError::InvalidMonth)
        } else if year < 0 || year > u16::MAX as i64 {
            Err(DateError::YearOutOfRange)
        } else {
            Ok(Date { year: year as u16, month: month as u8 })
        }
    }

    /// Derive the date from a path's directory layout.
    pub fn from_path(path: &str) -> (r: Result<Self, DateError>)
        ensures
            r == date_from_path_spec(path@),
    {
        let len: usize = path.unicode_len();
        let i3 = match find_last_sep(path, len) {
            Some(i) => i,
            None => {
                return Err(DateError::MissingParent);
            },
        };
        let i2 = match find_last_sep(path, i3) {
            Some(i) => i,
            None => {
                return Err(DateError::MissingGrandparent);
            },
        };
        let year_from: usize = match find_last_sep(path, i2) {
            Some(i) => i + 1,
            None => 0,
        };
        let year_str = path.substring_char(year_from, i2);
        let month_str = path.substring_char(i2 + 1, i3);
        let y = match parse_decimal(year_str) {
            Some(y) => y,
            None => {
                return Err(DateError::UnparsableYear);
            },
        };
        let m = match parse_decimal(month_str) {
            Some(m) => m,
            None => {
                return Err(DateError::UnparsableMonth);
            },
        };
        Self::new(y as i64, m)
    }

    /// Join root, year, zero-padded month and filename into the
    /// destination path.
    pub fn to_output_file(&self, root: &String, filename: &str) -> (r: String)
        ensures
            r@ == output_path_spec(root@, *self, filename@),
    {
        proof {
            use_type_invariant(self);
            reveal_strlit("/");
        }
        let mut out = String::new();
        out.append(root.as_str());
        out.append("/");
        push_decimal(self.year as u64, &mut out);
        out.append("/");
        push_two_digits(self.month, &mut out);
        out.append("/");
        out.append(filename);
        proof {
            assert(("/")@ =~= seq!['/']);
            assert(out@ =~= output_path_spec(root@, *self, filename@));
        }
        out
    }
}

/// Scan backwards from `end` for the last separator.
pub(crate) fn find_last_sep(s: &str, end: usize) -> (r: Option<usize>)
    requires
        end <= s@.len(),
    ensures
        match r {
            Some(i) => last_sep_before(s@, end as int) == i as int && i < end && s@[i as int]
                == '/',
            None => last_sep_before(s@, end as int) == -1,
        },
{
    let mut j: usize = end;
    while j > 0
        invariant
            j <= end <= s@.len(),
            last_sep_before(s@, end as int) == last_sep_before(s@, j as int),
        decreases j,
    {
        let c = s.get_char(j - 1);
        if c == '/' {
            return Some(j - 1);
        }
        j = j - 1;
    }
    None
}

/// A stretch without separators does not move the last-separator index.
proof fn lemma_last_sep_skip(s: Seq<char>, k: int, end: int)
    requires
        0 <= k <= end <= s.len(),
        forall|i: int| k <= i < end ==> s[i] != '/',
    ensures
        last_sep_before(s, end) == last_sep_before(s, k),
    decreases end - k,
{
    if end > k {
        lemma_last_sep_skip(s, k, end - 1);
    }
}

/// Deriving a date from the destination path recovers the date that
/// built the path: `from_path` inverts `to_output_file`, for any root
/// and any filename free of separators.
pub proof fn lemma_path_round_trip(root: Seq<char>, d: Date, filename: Seq<char>)
    requires
        d.wf(),
        forall|i: int| 0 <= i < filename.len() ==> filename[i] != '/',
    ensures
        date_from_path_spec(output_path_spec(root, d, filename)) == Ok::<Date, DateError>(d),
{
    let ys = dec_digits(d.year as nat);
    let ms = two_digits(d.month as nat);
    let p = output_path_spec(root, d, filename);
    lemma_dec_digits_val(d.year as nat);
    lemma_two_digits_val(d.month as nat);
    let n0 = root.len() as int;
    let i2 = n0 + 1 + ys.len();
    let i3 = i2 + 1 + 2;
    assert(p.len() == i3 + 1 + filename.len());
    assert(p[n0] == '/');
    assert(p[i2] == '/');
    assert(p[i3] == '/');
    // digits never collide with the separator
    assert(forall|i: int| n0 + 1 <= i < i2 ==> p[i] == ys[i - (n0 + 1)] && p[i] != '/') by {
        assert(forall|j: int| 0 <= j < ys.len() ==> is_digit_char(#[trigger] ys[j]));
    }
    assert(forall|i: int| i2 + 1 <= i < i3 ==> p[i] == ms[i - (i2 + 1)] && p[i] != '/') by {
        assert(forall|j: int| 0 <= j < ms.len() ==> is_digit_char(#[trigger] ms[j]));
    }
    assert(forall|i: int| i3 + 1 <= i < p.len() ==> p[i] == filename[i - (i3 + 1)] && p[i]
        != '/');
    // locate the three separators right to left
    lemma_last_sep_skip(p, i3 + 1, p.len() as int);
    assert(last_sep_before(p, i3 + 1) == i3);
    lemma_last_sep_skip(p, i2 + 1, i3);
    assert(last_sep_before(p, i2 + 1) == i2);
    lemma_last_sep_skip(p, n0 + 1, i2);
    assert(last_sep_before(p, n0 + 1) == n0);
    // the components between the separators are the digit strings
    assert(p.subrange(n0 + 1, i2) =~= ys);
    assert(p.subrange(i2 + 1, i3) =~= ms);
    assert(parse_decimal_spec(ys) == Some(d.year as u32));
    assert(parse_decimal_spec(ms) == Some(d.month as u32));
    assert(date_new_spec(d.year as int, d.month as int) == Ok::<Date, DateError>(d));
}

} // verus!
