//! Calendar timestamps in UTC and their compact renderings.
use vstd::prelude::*;

verus! {

/// A moment in UTC, as calendar fields.
pub struct Timestamp {
    pub year: u32,
    pub month: u32,
    pub day: u32,
    pub hour: u32,
    pub minute: u32,
    pub second: u32,
}

/// The decimal digit character for a value below ten.
pub open spec fn dec_digit(n: int) -> char {
    seq!['0', '1', '2', '3', '4', '5', '6', '7', '8', '9'][n]
}

/// The last `width` decimal digits of `n`, most significant first.
pub open spec fn digits(n: nat, width: nat) -> Seq<char>
    decreases width,
{
    if width == 0 {
        Seq::empty()
    } else {
        digits(n / 10, (width - 1) as nat).push(dec_digit((n % 10) as int))
    }
}

impl Timestamp {
    /// Fields within their calendar ranges (a leap second allowed).
    pub open spec fn wf(&self) -> bool {
        &&& self.year <= 9999
        &&& 1 <= self.month <= 12
        &&& 1 <= self.day <= 31
        &&& self.hour <= 23
        &&& self.minute <= 59
        &&& self.second <= 60
    }

    /// `YYYYMMDD`.
    pub open spec fn date_text(&self) -> Seq<char> {
        digits(self.year as nat, 4) + digits(self.month as nat, 2) + digits(self.day as nat, 2)
    }

    /// `YYYYMMDDTHHMMSSZ`.
    pub open spec fn full_text(&self) -> Seq<char> {
        self.date_text() + seq!['T'] + digits(self.hour as nat, 2) + digits(self.minute as nat, 2)
            + digits(self.second as nat, 2) + seq!['Z']
    }

    /// The timestamp with these fields, if each lies in its range.
    pub fn new(year: u32, month: u32, day: u32, hour: u32, minute: u32, second: u32) -> (r: Option<
        Timestamp,
    >)
        ensures
            match r {
                Some(t) => t.wf() && t == (Timestamp { year, month, day, hour, minute, second }),
                None => !(Timestamp { year, month, day, hour, minute, second }).wf(),
            },
    {
        let t = Timestamp { year, month, day, hour, minute, second };
        if year <= 9999 && 1 <= month && month <= 12 && 1 <= day && day <= 31 && hour <= 23
            && minute <= 59 && second <= 60 {
            Some(t)
        } else {
            None
        }
    }

    /// The date part, `YYYYMMDD`.
    pub fn date_stamp(&self) -> (r: String)
        ensures
            r@ == self.date_text(),
    {
        let mut s = String::new();
        push_digits(&mut s, self.year, 4);
        push_digits(&mut s, self.month, 2);
        push_digits(&mut s, self.day, 2);
        assert(s@ =~= self.date_text());
        s
    }

    /// The full stamp, `YYYYMMDDTHHMMSSZ`.
    pub fn full_stamp(&self) -> (r: String)
        ensures
            r@ == self.full_text(),
    {
        let mut s = self.date_stamp();
        s.append("T");
        proof {
            reveal_strlit("T");
        }
        push_digits(&mut s, self.hour, 2);
        push_digits(&mut s, self.minute, 2);
        push_digits(&mut s, self.second, 2);
        s.append("Z");
        proof {
            reveal_strlit("Z");
        }
        assert(s@ =~= self.full_text());
        s
    }
}

fn digit_text(d: u32) -> (r: &'static str)
    requires
        d < 10,
    ensures
        r@ == seq![dec_digit(d as int)],
{
    proof {
        reveal_strlit("0");
        reveal_strlit("1");
        reveal_strlit("2");
        reveal_strlit("3");
        reveal_strlit("4");
        reveal_strlit("5");
        reveal_strlit("6");
        reveal_strlit("7");
        reveal_strlit("8");
        reveal_strlit("9");
    }
    let r = if d == 0 {
        "0"
    } else if d == 1 {
        "1"
    } else if d == 2 {
        "2"
    } else if d == 3 {
        "3"
    } else if d == 4 {
        "4"
    } else if d == 5 {
        "5"
    } else if d == 6 {
        "6"
    } else if d == 7 {
        "7"
    } else if d == 8 {
        "8"
    } else {
        "9"
    };
    assert(r@ =~= seq![dec_digit(d as int)]);
    r
}

fn push_digits(s: &mut String, n: u32, width: u32)
    ensures
        final(s)@ == old(s)@ + digits(n as nat, width as nat),
    decreases width,
{
    if width > 0 {
        push_digits(s, n / 10, width - 1);
        s.append(digit_text(n % 10));
        assert(s@ =~= old(s)@ + digits(n as nat, width as nat));
    } else {
        assert(s@ =~= old(s)@ + digits(n as nat, width as nat));
    }
}

} // verus!
