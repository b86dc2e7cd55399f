//! A configuration whose constructor fills in defaults.

use vstd::prelude::*;

verus! {

/// The values that an empty configuration gets.
pub open spec fn default_values() -> Seq<i32> {
    seq![1, 2, 3]
}

/// The values that a configuration made from `given` holds.
pub open spec fn values_or_default(given: Seq<i32>) -> Seq<i32> {
    if given.len() == 0 {
        default_values()
    } else {
        given
    }
}

/// A list of values that is never empty when it comes from `new`.
#[derive(Debug, Clone)]
pub struct TestConfig {
    values: Vec<i32>,
}

impl View for TestConfig {
    type V = Seq<i32>;

    closed spec fn view(&self) -> Seq<i32> {
        self.values@
    }
}

impl TestConfig {
    /// The configuration with the given values, or with the defaults 1, 2, 3
    /// where none are given.
    pub fn new(values: Vec<i32>) -> (r: Self)
        ensures
            r@ == values_or_default(values@),
    {
        let mut values = values;
        if values.len() == 0 {
            values.push(1);
            values.push(2);
            values.push(3);
            assert(values@ =~= default_values());
        }
        TestConfig { values }
    }

    /// The values of the configuration.
    pub fn values(&self) -> (r: &Vec<i32>)
        ensures
            r@ == self@,
    {
        &self.values
    }
}

/// The values that a configuration made by the constructor from `values`
/// holds.
pub fn test_with_constructor(values: Vec<i32>) -> (r: Vec<i32>)
    ensures
        r@ == values_or_default(values@),
{
    let config = TestConfig::new(values);
    let held = config.values();
    let mut r: Vec<i32> = Vec::new();
    let mut i: usize = 0;
    while i < held.len()
        invariant
            i <= held@.len(),
            r@ == held@.take(i as int),
        decreases held@.len() - i,
    {
        r.push(held[i]);
        assert(r@ =~= held@.take(i as int + 1));
        i += 1;
    }
    assert(held@.take(held@.len() as int) =~= held@);
    r
}

} // verus!
