//! How snapshot files are named after the clock, and how the newest one is
//! picked out of a directory listing.

use vstd::prelude::*;
use vstd::string::StrSliceExecFns;
use crate::error::FeedError;
use crate::text::{
    digit_char, lemma_padded_concat, lemma_pow10_positive, padded_digits, pow10, push_padded,
};

verus! {

/// A reading of the local clock: a calendar date and a time of day.
#[derive(Clone, Copy, Debug, PartialEq, Eq, Structural)]
pub struct ClockTime {
    pub year: u32,
    pub month: u32,
    pub day: u32,
    pub hour: u32,
    pub minute: u32,
    pub second: u32,
}

impl ClockTime {
    /// The date has a four-digit year, and each other field is in the range
    /// that a calendar and a clock give it.
    pub open spec fn wf(self) -> bool {
        &&& self.year <= 9999
        &&& 1 <= self.month <= 12
        &&& 1 <= self.day <= 31
        &&& self.hour <= 23
        &&& self.minute <= 59
        &&& self.second <= 59
    }

    /// Seconds gone by since midnight.
    pub open spec fn seconds_of_day(self) -> int {
        self.hour * 3600 + self.minute * 60 + self.second
    }

    /// The date as one number, year first.
    pub open spec fn date_number(self) -> int {
        self.year * 10000 + self.month * 100 + self.day
    }

    /// The moment of the reading as one number: the date, then the seconds.
    pub open spec fn time_key(self) -> int {
        self.date_number() * 100000 + self.seconds_of_day()
    }

    /// Tells whether the reading is well formed.
    pub fn is_well_formed(&self) -> (r: bool)
        ensures
            r == self.wf(),
    {
        self.year <= 9999 && 1 <= self.month && self.month <= 12 && 1 <= self.day && self.day
            <= 31 && self.hour <= 23 && self.minute <= 59 && self.second <= 59
    }

    /// Seconds gone by since midnight, from 0 to 86399.
    pub fn seconds_from_midnight(&self) -> (s: u32)
        requires
            self.wf(),
        ensures
            s == self.seconds_of_day(),
            s <= 86399,
    {
        self.hour * 3600 + self.minute * 60 + self.second
    }
}

/// The ending of every snapshot's name.
pub open spec fn json_suffix() -> Seq<char> {
    seq!['.', 'j', 's', 'o', 'n']
}

/// The name of the snapshot taken at `t`: eight digits of date, five digits
/// of seconds since midnight, and the ending.
pub open spec fn file_name_text(t: ClockTime) -> Seq<char> {
    padded_digits(t.year as nat, 4) + padded_digits(t.month as nat, 2) + padded_digits(
        t.day as nat,
        2,
    ) + padded_digits(t.seconds_of_day() as nat, 5) + json_suffix()
}

/// The name under which the snapshot taken at `now` is stored.
pub fn snapshot_file_name(now: &ClockTime) -> (name: String)
    requires
        now.wf(),
    ensures
        name@ == file_name_text(*now),
        name@.len() == 18,
{
    let mut name: String = String::new();
    push_padded(&mut name, now.year as u64, 4);
    push_padded(&mut name, now.month as u64, 2);
    push_padded(&mut name, now.day as u64, 2);
    push_padded(&mut name, now.seconds_from_midnight() as u64, 5);
    name.push('.');
    name.push('j');
    name.push('s');
    name.push('o');
    name.push('n');
    proof {
        crate::text::lemma_padded_len(now.year as nat, 4);
        crate::text::lemma_padded_len(now.month as nat, 2);
        crate::text::lemma_padded_len(now.day as nat, 2);
        crate::text::lemma_padded_len(now.seconds_of_day() as nat, 5);
        assert(name@ =~= file_name_text(*now));
    }
    name
}

/// Strict lexicographic order of two texts, character by character; a text
/// comes before each of its proper extensions.
pub open spec fn lex_less(a: Seq<char>, b: Seq<char>) -> bool
    decreases a.len(),
{
    if b.len() == 0 {
        false
    } else if a.len() == 0 {
        true
    } else if a[0] != b[0] {
        (a[0] as u32) < (b[0] as u32)
    } else {
        lex_less(a.skip(1), b.skip(1))
    }
}

/// The lexicographic order is transitive.
pub proof fn lemma_lex_less_transitive(a: Seq<char>, b: Seq<char>, c: Seq<char>)
    requires
        lex_less(a, b),
        lex_less(b, c),
    ensures
        lex_less(a, c),
    decreases a.len(),
{
    if a.len() > 0 && a[0] == b[0] && b[0] == c[0] {
        lemma_lex_less_transitive(a.skip(1), b.skip(1), c.skip(1));
    }
}

/// No text comes before itself.
pub proof fn lemma_lex_less_irreflexive(a: Seq<char>)
    ensures
        !lex_less(a, a),
    decreases a.len(),
{
    if a.len() > 0 {
        lemma_lex_less_irreflexive(a.skip(1));
    }
}

/// Two numbers written in the same number of digits, with the same text
/// after each, stand as texts in the order in which they stand as numbers.
pub proof fn lemma_padded_order(n: nat, m: nat, w: nat, tail: Seq<char>)
    requires
        n < pow10(w),
        m < pow10(w),
    ensures
        lex_less(padded_digits(n, w) + tail, padded_digits(m, w) + tail) <==> n < m,
    decreases w,
{
    let a = padded_digits(n, w) + tail;
    let b = padded_digits(m, w) + tail;
    if w == 0 {
        assert(a =~= tail);
        assert(b =~= tail);
        lemma_lex_less_irreflexive(tail);
    } else {
        let u = (w - 1) as nat;
        let p = pow10(u);
        lemma_pow10_positive(u);
        let dn = n / p;
        let rn = n % p;
        let dm = m / p;
        let rm = m % p;
        assert(n == dn * p + rn && rn < p && dn < 10) by (nonlinear_arith)
            requires
                p > 0,
                n < 10 * p,
                dn == n / p,
                rn == n % p,
        ;
        assert(m == dm * p + rm && rm < p && dm < 10) by (nonlinear_arith)
            requires
                p > 0,
                m < 10 * p,
                dm == m / p,
                rm == m % p,
        ;
        lemma_padded_concat(dn, 1, rn, u);
        lemma_padded_concat(dm, 1, rm, u);
        assert(padded_digits(dn / 10, 0) =~= Seq::<char>::empty());
        assert(padded_digits(dm / 10, 0) =~= Seq::<char>::empty());
        assert(padded_digits(dn, 1) =~= seq![digit_char(dn as int)]);
        assert(padded_digits(dm, 1) =~= seq![digit_char(dm as int)]);
        assert(a[0] == digit_char(dn as int));
        assert(b[0] == digit_char(dm as int));
        assert(a.skip(1) =~= padded_digits(rn, u) + tail);
        assert(b.skip(1) =~= padded_digits(rm, u) + tail);
        if dn != dm {
            assert(n < m <==> dn < dm) by (nonlinear_arith)
                requires
                    n == dn * p + rn,
                    m == dm * p + rm,
                    rn < p,
                    rm < p,
                    dn != dm,
            ;
            assert((digit_char(dn as int) as u32) < (digit_char(dm as int) as u32) <==> dn < dm);
        } else {
            lemma_padded_order(rn, rm, u, tail);
        }
    }
}

/// The name of a reading is its date and its seconds, written as one number
/// of thirteen digits, and the ending.
pub proof fn lemma_file_name_is_one_number(t: ClockTime)
    requires
        t.wf(),
    ensures
        file_name_text(t) == padded_digits(
            (t.date_number() * 100000 + t.seconds_of_day()) as nat,
            13,
        ) + json_suffix(),
        t.date_number() * 100000 + t.seconds_of_day() < pow10(13),
{
    reveal_with_fuel(pow10, 14);
    let year = t.year as nat;
    let month = t.month as nat;
    let day = t.day as nat;
    let seconds = t.seconds_of_day() as nat;
    lemma_padded_concat(year, 4, month, 2);
    lemma_padded_concat(year * 100 + month, 6, day, 2);
    lemma_padded_concat((year * 100 + month) * 100 + day, 8, seconds, 5);
    assert((year * 100 + month) * 100 + day == t.date_number());
}

/// Names sort as time runs: of two well-formed readings, the name of the
/// first comes before the name of the second in lexicographic order exactly
/// when the first has the earlier date, or the same date and fewer seconds
/// since midnight.
pub proof fn lemma_name_order_is_time_order(a: ClockTime, b: ClockTime)
    requires
        a.wf(),
        b.wf(),
    ensures
        lex_less(file_name_text(a), file_name_text(b)) <==> (a.date_number() < b.date_number() || (
        a.date_number() == b.date_number() && a.seconds_of_day() < b.seconds_of_day())),
{
    lemma_file_name_is_one_number(a);
    lemma_file_name_is_one_number(b);
    let ka = (a.date_number() * 100000 + a.seconds_of_day()) as nat;
    let kb = (b.date_number() * 100000 + b.seconds_of_day()) as nat;
    lemma_padded_order(ka, kb, 13, json_suffix());
}

/// Two well-formed readings get the same name exactly when they fall in the
/// same second of the same day: the scheme tells no two snapshots of one
/// second apart, and tells all others apart.
pub proof fn lemma_same_name_same_second(a: ClockTime, b: ClockTime)
    requires
        a.wf(),
        b.wf(),
    ensures
        file_name_text(a) == file_name_text(b) <==> (a.date_number() == b.date_number()
            && a.seconds_of_day() == b.seconds_of_day()),
{
    lemma_name_order_is_time_order(a, b);
    lemma_name_order_is_time_order(b, a);
    lemma_lex_less_irreflexive(file_name_text(a));
    if a.date_number() == b.date_number() && a.seconds_of_day() == b.seconds_of_day() {
        assert(a.year == b.year && a.month == b.month && a.day == b.day);
    }
}

/// The names that the scheme gives to a run of readings.
pub open spec fn names_of(times: Seq<ClockTime>) -> Seq<Seq<char>> {
    times.map_values(|t: ClockTime| file_name_text(t))
}

/// In a listing of names that the scheme gave, the newest name is that of
/// the latest reading: no reading of the listing is later.
pub proof fn lemma_newest_is_latest(times: Seq<ClockTime>, i: int)
    requires
        forall|j: int| 0 <= j < times.len() ==> (#[trigger] times[j]).wf(),
        is_newest(names_of(times), i),
    ensures
        0 <= i < times.len(),
        forall|j: int| 0 <= j < times.len() ==> (#[trigger] times[j]).time_key() <= times[i].time_key(),
{
    let names = names_of(times);
    assert forall|j: int| 0 <= j < times.len() implies (#[trigger] times[j]).time_key()
        <= times[i].time_key() by {
        lemma_name_order_is_time_order(times[i], times[j]);
        assert(!lex_less(names[i], names[j]));
    }
}

/// Tells whether `a` comes before `b` in lexicographic order.
pub fn name_less(a: &String, b: &String) -> (r: bool)
    ensures
        r == lex_less(a@, b@),
{
    let la: usize = a.as_str().unicode_len();
    let lb: usize = b.as_str().unicode_len();
    let mut i: usize = 0;
    assert(a@.skip(0) =~= a@ && b@.skip(0) =~= b@);
    while i < la && i < lb
        invariant
            i <= la,
            i <= lb,
            la == a@.len(),
            lb == b@.len(),
            lex_less(a@, b@) == lex_less(a@.skip(i as int), b@.skip(i as int)),
        decreases la - i,
    {
        let ca: char = a.as_str().get_char(i);
        let cb: char = b.as_str().get_char(i);
        if ca != cb {
            return (ca as u32) < (cb as u32);
        }
        assert(a@.skip(i as int).skip(1) =~= a@.skip(i + 1));
        assert(b@.skip(i as int).skip(1) =~= b@.skip(i + 1));
        i = i + 1;
    }
    i < lb
}

/// The names of a listing, as texts.
pub open spec fn names_view(names: Seq<String>) -> Seq<Seq<char>> {
    names.map_values(|s: String| s@)
}

/// `i` is the place of the newest name of the listing: no name comes after
/// it, and of several equal greatest names it is the first.
pub open spec fn is_newest(names: Seq<Seq<char>>, i: int) -> bool {
    &&& 0 <= i < names.len()
    &&& forall|j: int| 0 <= j < names.len() ==> !lex_less(names[i], #[trigger] names[j])
    &&& forall|j: int| 0 <= j < i ==> #[trigger] names[j] != names[i]
}

/// The place in the listing of the snapshot to load: the name that is
/// greatest in lexicographic order.  An empty listing holds no snapshot.
pub fn newest_file(names: &Vec<String>) -> (r: Result<usize, FeedError>)
    ensures
        names@.len() == 0 <==> r is Err,
        r is Err ==> r == Err::<usize, FeedError>(FeedError::NotFound),
        r matches Ok(i) ==> is_newest(names_view(names@), i as int),
{
    if names.len() == 0 {
        return Err(FeedError::NotFound);
    }
    let ghost texts = names_view(names@);
    let mut best: usize = 0;
    let mut i: usize = 1;
    proof {
        lemma_lex_less_irreflexive(texts[0]);
    }
    while i < names.len()
        invariant
            1 <= i <= names.len(),
            best < i,
            texts == names_view(names@),
            forall|j: int| 0 <= j < i ==> !lex_less(texts[best as int], #[trigger] texts[j]),
            forall|j: int| 0 <= j < best ==> #[trigger] texts[j] != texts[best as int],
        decreases names.len() - i,
    {
        if name_less(&names[best], &names[i]) {
            proof {
                let old_best = texts[best as int];
                let cand = texts[i as int];
                lemma_lex_less_irreflexive(cand);
                assert forall|j: int| 0 <= j < i + 1 implies !lex_less(
                    cand,
                    #[trigger] texts[j],
                ) by {
                    if j < i && lex_less(cand, texts[j]) {
                        lemma_lex_less_transitive(old_best, cand, texts[j]);
                    }
                }
            }
            best = i;
        }
        i = i + 1;
    }
    Ok(best)
}

} // verus!
