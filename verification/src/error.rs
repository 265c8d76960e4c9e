use vstd::prelude::*;

verus! {

/// Failures that can arise while decoding an IDX byte source.
///
/// Every failure is terminal for the decode call that raised it: no decoder
/// retries, recovers, or returns a partial result.
#[derive(Debug, PartialEq, Eq)]
#[allow(inconsistent_fields)]
pub enum MnistError {
    /// The byte source ended before the content declared by the header could
    /// be read (a short read), or could not be read at all.
    Io,
    /// The leading 32-bit value did not identify the expected file kind.
    InvalidMagicNumber { expected: u32, found: u32 },
    /// The image file declares a resolution other than the configured one.
    /// Both tuples are in (width, height) order, so `found` carries the
    /// declared column count first and the declared row count second.
    InvalidImageDimensions { expected: (u32, u32), found: (u32, u32) },
}

/// The glyph of one decimal digit.
pub open spec fn spec_digit(d: int) -> char {
    if d == 0 {
        '0'
    } else if d == 1 {
        '1'
    } else if d == 2 {
        '2'
    } else if d == 3 {
        '3'
    } else if d == 4 {
        '4'
    } else if d == 5 {
        '5'
    } else if d == 6 {
        '6'
    } else if d == 7 {
        '7'
    } else if d == 8 {
        '8'
    } else {
        '9'
    }
}

/// The decimal digits of a positive number, most significant first; empty
/// for zero.
pub open spec fn spec_decimal(n: int) -> Seq<char>
    decreases n,
{
    if n <= 0 {
        Seq::empty()
    } else {
        spec_decimal(n / 10).push(spec_digit(n % 10))
    }
}

/// The usual decimal rendering of a number: `"0"` for zero, no leading
/// zeros otherwise.
pub open spec fn spec_u32_string(n: int) -> Seq<char> {
    if n == 0 {
        seq!['0']
    } else {
        spec_decimal(n)
    }
}

/// Appends the decimal digits of `n`, most significant first; nothing for
/// zero.
fn push_decimal(n: u32, r: &mut String)
    ensures
        final(r)@ == old(r)@ + spec_decimal(n as int),
    decreases n,
{
    if n == 0 {
        assert(r@ =~= old(r)@ + spec_decimal(0));
        return ;
    }
    let q = n / 10;
    let d = n % 10;
    push_decimal(q, r);
    if d == 0 {
        r.append("0");
    } else if d == 1 {
        r.append("1");
    } else if d == 2 {
        r.append("2");
    } else if d == 3 {
        r.append("3");
    } else if d == 4 {
        r.append("4");
    } else if d == 5 {
        r.append("5");
    } else if d == 6 {
        r.append("6");
    } else if d == 7 {
        r.append("7");
    } else if d == 8 {
        r.append("8");
    } else {
        r.append("9");
    }
    proof {
        reveal_strlit("0");
        reveal_strlit("1");
        reveal_strlit("2");
        reveal_strlit("3");
        reveal_strlit("4");
        reveal_strlit("5");
        reveal_strlit("6");
        reveal_strlit("7");
        reveal_strlit("8");
        reveal_strlit("9");
        assert(r@ =~= old(r)@ + spec_decimal(n as int));
    }
}

/// The decimal rendering of a number.
fn u32_to_string(n: u32) -> (r: String)
    ensures
        r@ == spec_u32_string(n as int),
{
    let mut r = String::new();
    if n == 0 {
        r.append("0");
        proof {
            reveal_strlit("0");
            assert(r@ =~= seq!['0']);
        }
    } else {
        push_decimal(n, &mut r);
    }
    r
}

/// The human-readable description of an error, for every variant.
pub open spec fn spec_message(e: MnistError) -> Seq<char> {
    match e {
        MnistError::Io => "I/O error: the byte source ended early or could not be read"@,
        MnistError::InvalidMagicNumber { expected, found } => "Invalid magic number. Expected "@
            + spec_u32_string(expected as int) + ", but found "@ + spec_u32_string(found as int),
        MnistError::InvalidImageDimensions { expected, found } => (
        "Invalid image dimensions. Expected "@ + spec_u32_string(expected.0 as int) + "x"@
            + spec_u32_string(expected.1 as int) + ", but found "@ + spec_u32_string(
            found.0 as int,
        ) + "x"@ + spec_u32_string(found.1 as int)),
    }
}

impl MnistError {
    /// Renders the error for human readers.
    pub fn message(&self) -> (r: String)
        ensures
            r@ == spec_message(*self),
    {
        match self {
            MnistError::Io => {
                let mut r = String::new();
                r.append("I/O error: the byte source ended early or could not be read");
                assert(r@ =~= spec_message(MnistError::Io));
                r
            },
            MnistError::InvalidMagicNumber { expected, found } => {
                let mut r = String::new();
                r.append("Invalid magic number. Expected ");
                let e = u32_to_string(*expected);
                r.append(e.as_str());
                r.append(", but found ");
                let f = u32_to_string(*found);
                r.append(f.as_str());
                assert(r@ =~= spec_message(*self));
                r
            },
            MnistError::InvalidImageDimensions { expected, found } => {
                let mut r = String::new();
                r.append("Invalid image dimensions. Expected ");
                let w = u32_to_string(expected.0);
                r.append(w.as_str());
                r.append("x");
                let h = u32_to_string(expected.1);
                r.append(h.as_str());
                r.append(", but found ");
                let fw = u32_to_string(found.0);
                r.append(fw.as_str());
                r.append("x");
                let fh = u32_to_string(found.1);
                r.append(fh.as_str());
                assert(r@ =~= spec_message(*self));
                r
            },
        }
    }
}

} // verus!
