use vstd::prelude::*;

verus! {

/// The value of a decimal digit, `None` for any other character.
pub open spec fn digit(c: char) -> Option<int> {
    if '0' <= c && c <= '9' {
        Some(c as int - '0' as int)
    } else {
        None
    }
}

/// The number that a run of digits writes, read from the left; zero for the
/// empty run, `None` where a character is no digit.
pub open spec fn run(s: Seq<char>) -> Option<int>
    decreases s.len(),
{
    if s.len() == 0 {
        Some(0)
    } else {
        match (run(s.drop_last()), digit(s.last())) {
            (Some(value), Some(d)) => Some(value * 10 + d),
            _ => None,
        }
    }
}

/// The number that one or more digits write.
pub open spec fn unsigned(s: Seq<char>) -> Option<int> {
    if s.len() == 0 {
        None
    } else {
        run(s)
    }
}

/// The number that an optional `+` or `-` and one or more digits write.
pub open spec fn signed(s: Seq<char>) -> Option<int> {
    if s.len() > 0 && s[0] == '+' {
        unsigned(s.skip(1))
    } else if s.len() > 0 && s[0] == '-' {
        match unsigned(s.skip(1)) {
            Some(value) => Some(-value),
            None => None,
        }
    } else {
        unsigned(s)
    }
}

/// A signed decimal that fits in eight bits: what the fields of a time hold.
pub open spec fn small(s: Seq<char>) -> Option<int> {
    match signed(s) {
        Some(value) => if -128 <= value <= 127 {
            Some(value)
        } else {
            None
        },
        None => None,
    }
}

/// A run of digits never writes a negative number.
pub proof fn lemma_run_nonnegative(s: Seq<char>)
    ensures
        run(s) matches Some(value) ==> value >= 0,
    decreases s.len(),
{
    if s.len() > 0 {
        lemma_run_nonnegative(s.drop_last());
    }
}

/// Reads the characters `from..to` of `s` as a signed decimal of eight bits.
pub fn parse_small(s: &str, from: usize, to: usize) -> (parsed: Option<i8>)
    requires
        from <= to <= s@.len(),
    ensures
        match parsed {
            Some(value) => small(s@.subrange(from as int, to as int)) == Some(value as int),
            None => small(s@.subrange(from as int, to as int)) is None,
        },
{
    let ghost field = s@.subrange(from as int, to as int);
    if from == to {
        return None;
    }
    let first = s.get_char(from);
    let negative = first == '-';
    let start: usize = if first == '+' || first == '-' {
        from + 1
    } else {
        from
    };
    let ghost body = s@.subrange(start as int, to as int);
    assert(start > from ==> body == field.skip(1));
    assert(start == from ==> body == field);
    if start == to {
        return None;
    }
    let mut i: usize = start;
    let mut value: i16 = 0;
    let mut valid = true;
    let mut large = false;
    while i < to
        invariant
            start <= i <= to <= s@.len(),
            0 <= value <= 128,
            match run(s@.subrange(start as int, i as int)) {
                Some(v) => valid && if large {
                    v > 128
                } else {
                    v == value
                },
                None => !valid,
            },
        decreases to - i,
    {
        let c = s.get_char(i);
        proof {
            let next = s@.subrange(start as int, i + 1);
            assert(next.drop_last() == s@.subrange(start as int, i as int));
            assert(next.last() == c);
            lemma_run_nonnegative(next.drop_last());
        }
        if c >= '0' && c <= '9' {
            let d: i16 = (c as u32 - '0' as u32) as i16;
            if valid && !large {
                let next_value: i16 = value * 10 + d;
                if next_value > 128 {
                    large = true;
                } else {
                    value = next_value;
                }
            }
        } else {
            valid = false;
        }
        i = i + 1;
    }
    assert(s@.subrange(start as int, to as int) == body);
    if !valid || large {
        None
    } else if negative {
        Some((0 - value) as i8)
    } else if value <= 127 {
        Some(value as i8)
    } else {
        None
    }
}

} // verus!
