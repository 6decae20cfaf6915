use vstd::prelude::*;

verus! {

/// The four operations on two numbers that are asked of the float unit.
#[derive(Debug, Clone, Copy, PartialEq, Eq, Structural)]
pub enum NumberOp {
    Add,
    Subtract,
    Multiply,
    Divide,
}

/// The floating-point work that the interpreter asks of its host.
///
/// A number is held as the bit pattern of an IEEE-754 double.  `parse` reads a
/// numeral (digits, optionally a dot and more digits) and gives the bits of
/// the nearest double, or `None` if it cannot be read; `combine` gives the
/// bits of the sum, difference, product or quotient of two doubles; `render`
/// gives the text that a number prints as.
pub struct FloatUnit<P, A, R> {
    pub parse: P,
    pub combine: A,
    pub render: R,
}

impl<P: Fn(String) -> Option<u64>, A: Fn(NumberOp, u64, u64) -> u64, R: Fn(u64) -> String> FloatUnit<
    P,
    A,
    R,
> {
    /// Whether `parse` may give this answer for some string that holds the
    /// numeral.
    pub open spec fn parse_admits(&self, numeral: Seq<char>, answer: Option<u64>) -> bool {
        exists|text: String| text@ == numeral && #[trigger] self.parse.ensures((text,), answer)
    }

    /// What `parse` answers for a numeral.
    pub open spec fn parsed(&self, numeral: Seq<char>) -> Option<u64> {
        choose|answer: Option<u64>| self.parse_admits(numeral, answer)
    }

    /// What `combine` answers.
    pub open spec fn combined(&self, op: NumberOp, left: u64, right: u64) -> u64 {
        choose|answer: u64| self.combine.ensures((op, left, right), answer)
    }

    /// Whether `render` may give a string that holds this text.
    pub open spec fn render_admits(&self, number: u64, answer: Seq<char>) -> bool {
        exists|text: String| text@ == answer && #[trigger] self.render.ensures((number,), text)
    }

    /// What `render` answers.
    pub open spec fn rendered(&self, number: u64) -> Seq<char> {
        choose|answer: Seq<char>| self.render_admits(number, answer)
    }

    /// The unit accepts every request and its answers depend on nothing but
    /// the request, so that it stands for three mathematical functions.
    pub open spec fn dependable(&self) -> bool {
        &&& forall|text: String| #[trigger] self.parse.requires((text,))
        &&& forall|text: String, answer: Option<u64>| #[trigger]
            self.parse.ensures((text,), answer) ==> answer == self.parsed(text@)
        &&& forall|op: NumberOp, left: u64, right: u64| #[trigger]
            self.combine.requires((op, left, right))
        &&& forall|op: NumberOp, left: u64, right: u64, answer: u64| #[trigger]
            self.combine.ensures((op, left, right), answer) ==> answer == self.combined(
                op,
                left,
                right,
            )
        &&& forall|number: u64| #[trigger] self.render.requires((number,))
        &&& forall|number: u64, text: String| #[trigger]
            self.render.ensures((number,), text) ==> text@ == self.rendered(number)
    }

    /// A unit whose three functions are specified as functions of their
    /// arguments, and accept every argument, is dependable.
    pub proof fn specified_as_functions_is_dependable(
        &self,
        parse: spec_fn(Seq<char>) -> Option<u64>,
        combine: spec_fn(NumberOp, u64, u64) -> u64,
        render: spec_fn(u64) -> Seq<char>,
    )
        requires
            forall|text: String| #[trigger] self.parse.requires((text,)),
            forall|text: String, answer: Option<u64>| #[trigger]
                self.parse.ensures((text,), answer) ==> answer == parse(text@),
            forall|op: NumberOp, left: u64, right: u64| #[trigger]
                self.combine.requires((op, left, right)),
            forall|op: NumberOp, left: u64, right: u64, answer: u64| #[trigger]
                self.combine.ensures((op, left, right), answer) ==> answer == combine(op, left, right),
            forall|number: u64| #[trigger] self.render.requires((number,)),
            forall|number: u64, text: String| #[trigger]
                self.render.ensures((number,), text) ==> text@ == render(number),
        ensures
            self.dependable(),
            forall|text: String, answer: Option<u64>| #[trigger]
                self.parse.ensures((text,), answer) ==> self.parsed(text@) == parse(text@),
            forall|op: NumberOp, left: u64, right: u64, answer: u64| #[trigger]
                self.combine.ensures((op, left, right), answer) ==> self.combined(op, left, right)
                    == combine(op, left, right),
            forall|number: u64, text: String| #[trigger]
                self.render.ensures((number,), text) ==> self.rendered(number) == render(number),
    {
        assert forall|text: String, answer: Option<u64>| #[trigger]
            self.parse.ensures((text,), answer) implies answer == self.parsed(text@) && self.parsed(text@)
            == parse(text@) by {
            assert(self.parse_admits(text@, answer));
            let chosen = self.parsed(text@);
            assert(self.parse_admits(text@, chosen));
        }
        assert forall|op: NumberOp, left: u64, right: u64, answer: u64| #[trigger]
            self.combine.ensures((op, left, right), answer) implies answer == self.combined(
            op,
            left,
            right,
        ) && self.combined(op, left, right) == combine(op, left, right) by {
        }
        assert forall|number: u64, text: String| #[trigger]
            self.render.ensures((number,), text) implies text@ == self.rendered(number) && self.rendered(
            number,
        ) == render(number) by {
            assert(self.render_admits(number, text@));
            let chosen = self.rendered(number);
            assert(self.render_admits(number, chosen));
        }
    }

    /// Asks the unit to read a numeral.
    pub fn read(&self, numeral: String) -> (answer: Option<u64>)
        requires
            self.dependable(),
        ensures
            answer == self.parsed(numeral@),
    {
        (self.parse)(numeral)
    }

    /// Asks the unit for the result of an arithmetic operation.
    pub fn compute(&self, op: NumberOp, left: u64, right: u64) -> (answer: u64)
        requires
            self.dependable(),
        ensures
            answer == self.combined(op, left, right),
    {
        (self.combine)(op, left, right)
    }

    /// Asks the unit for the text of a number.
    pub fn print(&self, number: u64) -> (text: String)
        requires
            self.dependable(),
        ensures
            text@ == self.rendered(number),
    {
        (self.render)(number)
    }
}

/// The sign bit of a double.
pub const SIGN_BIT: u64 = 0x8000_0000_0000_0000;

/// The magnitude of positive infinity; every larger magnitude is a NaN.
pub const INFINITY_BITS: u64 = 0x7ff0_0000_0000_0000;

/// The bits of a double without its sign.
pub open spec fn magnitude(bits: u64) -> u64 {
    if bits >= SIGN_BIT {
        (bits - SIGN_BIT) as u64
    } else {
        bits
    }
}

/// Whether the bits are those of a NaN.
pub open spec fn is_nan(bits: u64) -> bool {
    magnitude(bits) > INFINITY_BITS
}

/// The place of a double that is no NaN in the order of the doubles: a
/// magnitude counts upwards, a negative one downwards, and both zeros are 0.
pub open spec fn ordinal(bits: u64) -> int {
    if bits >= SIGN_BIT {
        -(magnitude(bits) as int)
    } else {
        bits as int
    }
}

/// `left == right` on doubles: false if either is a NaN, and the two zeros are
/// equal.
pub open spec fn numbers_equal(left: u64, right: u64) -> bool {
    !is_nan(left) && !is_nan(right) && ordinal(left) == ordinal(right)
}

/// `left < right` on doubles: false if either is a NaN.
pub open spec fn number_less(left: u64, right: u64) -> bool {
    !is_nan(left) && !is_nan(right) && ordinal(left) < ordinal(right)
}

/// `left <= right` on doubles: false if either is a NaN.
pub open spec fn number_at_most(left: u64, right: u64) -> bool {
    !is_nan(left) && !is_nan(right) && ordinal(left) <= ordinal(right)
}

/// The double with the other sign.
pub open spec fn negated(bits: u64) -> u64 {
    if bits >= SIGN_BIT {
        (bits - SIGN_BIT) as u64
    } else {
        (bits + SIGN_BIT) as u64
    }
}

fn magnitude_of(bits: u64) -> (m: u64)
    ensures
        m == magnitude(bits),
{
    if bits >= SIGN_BIT {
        bits - SIGN_BIT
    } else {
        bits
    }
}

/// Whether the bits are those of a NaN.
pub fn nan(bits: u64) -> (answer: bool)
    ensures
        answer == is_nan(bits),
{
    magnitude_of(bits) > INFINITY_BITS
}

/// Compares two doubles for equality by their bits.
pub fn equal(left: u64, right: u64) -> (answer: bool)
    ensures
        answer == numbers_equal(left, right),
{
    if nan(left) || nan(right) {
        false
    } else if left >= SIGN_BIT && right >= SIGN_BIT {
        left == right
    } else if left < SIGN_BIT && right < SIGN_BIT {
        left == right
    } else {
        magnitude_of(left) == 0 && magnitude_of(right) == 0
    }
}

/// Whether the first double is less than the second, by their bits.
pub fn less(left: u64, right: u64) -> (answer: bool)
    ensures
        answer == number_less(left, right),
{
    if nan(left) || nan(right) {
        false
    } else if left >= SIGN_BIT {
        if right >= SIGN_BIT {
            right < left
        } else {
            magnitude_of(left) != 0 || right != 0
        }
    } else {
        right < SIGN_BIT && left < right
    }
}

/// Whether the first double is less than or equal to the second, by their bits.
pub fn at_most(left: u64, right: u64) -> (answer: bool)
    ensures
        answer == number_at_most(left, right),
{
    if nan(left) || nan(right) {
        false
    } else {
        !less(right, left)
    }
}

/// The double with the other sign.
pub fn negate(bits: u64) -> (answer: u64)
    ensures
        answer == negated(bits),
{
    if bits >= SIGN_BIT {
        bits - SIGN_BIT
    } else {
        bits + SIGN_BIT
    }
}

} // verus!
