//! Parameterised Cypher statements, as plain values.

use vstd::prelude::*;
use crate::real32::Real32;

verus! {

/// An average of two vectors, written out as its operands: component `i` of the vector is
/// `(weight * old + incoming) / (weight + 1)` for the pair `(old, incoming)` at `i`. In exact
/// arithmetic it is `average_components`.
#[derive(Debug)]
pub struct WeightedAverage {
    pub weight: i64,
    pub terms: Vec<(Real32, Real32)>,
}

/// Whether `average` is the exact average of the pair of finite numbers `(old, incoming)`, of which
/// the first weighs `weight` and the second one: `(weight * old + incoming) / (weight + 1)`. All
/// three numbers are at the scale of `Real32::value`.
pub open spec fn is_average(weight: int, pair: (Real32, Real32), average: real) -> bool {
    weight as real * pair.0.value() as real + pair.1.value() as real == (weight + 1) as real
        * average
}

/// The exact average of a pair of finite numbers.
pub open spec fn exact_average(weight: int, pair: (Real32, Real32)) -> real {
    (weight as real * pair.0.value() as real + pair.1.value() as real) / ((weight + 1) as real)
}

/// The vector that an average stands for, in exact arithmetic.
pub open spec fn average_components(weight: int, terms: Seq<(Real32, Real32)>) -> Seq<real> {
    terms.map_values(|pair: (Real32, Real32)| exact_average(weight, pair))
}

/// The exact average is the one number that meets the formula.
pub proof fn law_exact_average_is_the_average(weight: int, pair: (Real32, Real32), other: real)
    requires
        weight >= 0,
    ensures
        is_average(weight, pair, exact_average(weight, pair)),
        is_average(weight, pair, other) ==> other == exact_average(weight, pair),
{
    let total = weight as real * pair.0.value() as real + pair.1.value() as real;
    let parts = (weight + 1) as real;
    assert(parts > 0 as real);
    assert(parts * (total / parts) == total) by (nonlinear_arith)
        requires
            parts > 0 as real,
    ;
    assert(parts * other == total ==> other == total / parts) by (nonlinear_arith)
        requires
            parts > 0 as real,
    ;
}

/// A parameter of a statement.
#[derive(Debug)]
pub enum Value {
    Text(String),
    Integer(i64),
    /// A number, sent in double precision.
    Real(Real32),
    Vector(Vec<Real32>),
    /// A vector that is still to be worked out.
    Average(WeightedAverage),
}

/// What a parameter holds.
#[verifier::ext_equal]
pub enum ValueView {
    Text(Seq<char>),
    Integer(int),
    Real(Real32),
    Vector(Seq<Real32>),
    Average { weight: int, terms: Seq<(Real32, Real32)> },
}

impl View for Value {
    type V = ValueView;

    open spec fn view(&self) -> ValueView {
        match self {
            Value::Text(text) => ValueView::Text(text@),
            Value::Integer(number) => ValueView::Integer(*number as int),
            Value::Real(number) => ValueView::Real(*number),
            Value::Vector(components) => ValueView::Vector(components@),
            Value::Average(average) => ValueView::Average {
                weight: average.weight as int,
                terms: average.terms@,
            },
        }
    }
}

/// A statement and its named parameters.
#[derive(Debug)]
pub struct Statement {
    pub text: String,
    pub params: Vec<(&'static str, Value)>,
}

/// What a statement says: its text, and its parameters in the order in which they are set.
#[verifier::ext_equal]
pub struct StatementView {
    pub text: Seq<char>,
    pub params: Seq<(Seq<char>, ValueView)>,
}

impl View for Statement {
    type V = StatementView;

    open spec fn view(&self) -> StatementView {
        StatementView {
            text: self.text@,
            params: self.params@.map_values(|param: (&'static str, Value)| (param.0@, param.1@)),
        }
    }
}

/// Whether a statement sets the parameter `name`, and to nothing but `value`.
pub open spec fn binds(statement: StatementView, name: Seq<char>, value: ValueView) -> bool {
    &&& exists|i: int|
        0 <= i < statement.params.len() && #[trigger] statement.params[i] == (name, value)
    &&& forall|i: int|
        0 <= i < statement.params.len() && (#[trigger] statement.params[i]).0 == name
            ==> statement.params[i].1 == value
}

/// A parameter has one value: two statements that set it to different values differ.
pub proof fn law_a_parameter_has_one_value(
    a: StatementView,
    b: StatementView,
    name: Seq<char>,
    a_value: ValueView,
    b_value: ValueView,
)
    requires
        binds(a, name, a_value),
        binds(b, name, b_value),
        a_value != b_value,
    ensures
        a != b,
{
    let i = choose|i: int| 0 <= i < a.params.len() && #[trigger] a.params[i] == (name, a_value);
    assert(a.params[i].0 == name);
}

impl Statement {
    /// The statement `text`, without parameters.
    pub fn new(text: &str) -> (statement: Statement)
        ensures
            statement@ == (StatementView { text: text@, params: seq![] }),
    {
        let statement = Statement { text: text.to_owned(), params: Vec::new() };
        proof {
            assert(statement@ =~= (StatementView { text: text@, params: seq![] }));
        }
        statement
    }

    /// The statement with one more parameter.
    pub fn with(self, name: &'static str, value: Value) -> (statement: Statement)
        ensures
            statement@ == (StatementView {
                text: self@.text,
                params: self@.params.push((name@, value@)),
            }),
    {
        let mut statement = self;
        statement.params.push((name, value));
        proof {
            assert(statement@.params =~= self@.params.push((name@, value@)));
        }
        statement
    }
}

} // verus!
