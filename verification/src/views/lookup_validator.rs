//! Validates input against a list of allowed values.
use vstd::prelude::*;
use crate::text::{chars_equal, chars_equal_ignore_case, lowered, str_chars, string_chars, string_from_chars};
use crate::views::validator::Validator;

verus! {

broadcast use vstd::string::group_string_axioms;

/// Accepts exactly the listed values, optionally ignoring ASCII case.
pub struct LookupValidator {
    valid_values: Vec<String>,
    case_sensitive: bool,
}

/// Whether `a` and `b` are the same value under the given case rule.
pub open spec fn same_value(a: Seq<char>, b: Seq<char>, case_sensitive: bool) -> bool {
    if case_sensitive { a == b } else { lowered(a) == lowered(b) }
}

/// The index of the first listed value equal to `value`.
pub open spec fn first_match(values: Seq<Seq<char>>, value: Seq<char>, cs: bool) -> Option<int> {
    if exists|i: int| 0 <= i < values.len() && same_value(values[i], value, cs) {
        Some(choose|i: int| 0 <= i < values.len() && same_value(values[i], value, cs)
            && forall|j: int| 0 <= j < i ==> !same_value(values[j], value, cs))
    } else {
        None
    }
}

impl LookupValidator {
    pub closed spec fn spec_values(&self) -> Seq<Seq<char>> {
        self.valid_values@.map_values(|s: String| s@)
    }

    pub closed spec fn spec_case_sensitive(&self) -> bool {
        self.case_sensitive
    }

    /// A case-sensitive validator for `valid_values`.
    pub fn new(valid_values: Vec<String>) -> (v: Self)
        ensures
            v.spec_values() == valid_values@.map_values(|s: String| s@),
            v.spec_case_sensitive(),
    {
        LookupValidator { valid_values, case_sensitive: true }
    }

    /// A validator for `valid_values` that ignores ASCII case.
    pub fn new_case_insensitive(valid_values: Vec<String>) -> (v: Self)
        ensures
            v.spec_values() == valid_values@.map_values(|s: String| s@),
            !v.spec_case_sensitive(),
    {
        LookupValidator { valid_values, case_sensitive: false }
    }

    pub fn set_case_sensitive(&mut self, case_sensitive: bool)
        ensures
            final(self).spec_values() == old(self).spec_values(),
            final(self).spec_case_sensitive() == case_sensitive,
    {
        self.case_sensitive = case_sensitive;
    }

    /// The accepted values, in order.
    pub fn valid_values(&self) -> (v: &[String])
        ensures
            v@.map_values(|s: String| s@) == self.spec_values(),
    {
        self.valid_values.as_slice()
    }

    /// Accept one more value, at the end of the list.
    pub fn add_value(&mut self, value: String)
        ensures
            final(self).spec_values() == old(self).spec_values().push(value@),
            final(self).spec_case_sensitive() == old(self).spec_case_sensitive(),
    {
        self.valid_values.push(value);
        assert(self.spec_values() =~= old(self).spec_values().push(value@));
    }

    /// Remove the first value equal to `value`; returns whether one was found.
    pub fn remove_value(&mut self, value: &str) -> (found: bool)
        ensures
            found == (first_match(old(self).spec_values(), value@, old(self).spec_case_sensitive()) is Some),
            final(self).spec_values() == (match first_match(old(self).spec_values(), value@, old(self).spec_case_sensitive()) {
                Some(i) => old(self).spec_values().remove(i),
                None => old(self).spec_values(),
            }),
            final(self).spec_case_sensitive() == old(self).spec_case_sensitive(),
    {
        let r = self.find_value(value);
        match r {
            Some(pos) => {
                assert(self.spec_values().len() == self.valid_values@.len());
                self.valid_values.remove(pos);
                assert(self.spec_values() =~= old(self).spec_values().remove(pos as int));
                true
            },
            None => false,
        }
    }

    /// The position of the first value equal to `value`.
    pub fn find_value(&self, value: &str) -> (r: Option<usize>)
        ensures
            match r {
                Some(i) => i < self.spec_values().len()
                    && first_match(self.spec_values(), value@, self.spec_case_sensitive()) == Some(i as int),
                None => first_match(self.spec_values(), value@, self.spec_case_sensitive()) is None,
            },
    {
        let target = str_chars(value);
        let mut i: usize = 0;
        while i < self.valid_values.len()
            invariant
                i <= self.valid_values@.len(),
                target@ == value@,
                forall|j: int| 0 <= j < i ==> !same_value(self.spec_values()[j], value@, self.spec_case_sensitive()),
            decreases self.valid_values.len() - i,
        {
            let cand = string_chars(&self.valid_values[i]);
            let eq = if self.case_sensitive {
                chars_equal(&cand, &target)
            } else {
                chars_equal_ignore_case(&cand, &target)
            };
            assert(self.spec_values()[i as int] == cand@);
            if eq {
                proof {
                    let vs = self.spec_values();
                    let cs = self.spec_case_sensitive();
                    assert(same_value(vs[i as int], value@, cs));
                    let c = choose|c: int| 0 <= c < vs.len() && same_value(vs[c], value@, cs)
                        && forall|j: int| 0 <= j < c ==> !same_value(vs[j], value@, cs);
                    assert(c == i) by {
                        if c > i { } else if c < i { }
                    }
                }
                return Some(i);
            }
            i = i + 1;
        }
        None
    }

    /// Whether `value` is one of the accepted values.
    pub fn contains(&self, value: &str) -> (b: bool)
        ensures
            b == (first_match(self.spec_values(), value@, self.spec_case_sensitive()) is Some),
    {
        self.find_value(value).is_some()
    }
}

impl Validator for LookupValidator {
    open spec fn spec_is_valid(&self, input: Seq<char>) -> bool {
        input.len() == 0 || first_match(self.spec_values(), input, self.spec_case_sensitive()) is Some
    }

    open spec fn spec_is_valid_input(&self, input: Seq<char>, append: bool) -> bool {
        true
    }

    /// Empty text is accepted; otherwise it must be one of the values.
    fn is_valid(&self, input: &str) -> (b: bool) {
        if input.is_empty() {
            return true;
        }
        self.contains(input)
    }

    /// Any partial text is accepted; only the whole value is checked.
    fn is_valid_input(&self, input: &str, append: bool) -> (b: bool) {
        true
    }

    /// A lookup validator has no message of its own: it is empty.
    fn error_message(&self) -> (s: String)
        ensures
            s@.len() == 0,
    {
        String::new()
    }

    fn valid(&self, input: &str) -> (b: bool) {
        self.is_valid(input)
    }
}

/// Builder for lookup validators.
pub struct LookupValidatorBuilder {
    valid_values: Vec<String>,
    case_sensitive: bool,
}

impl LookupValidatorBuilder {
    pub closed spec fn spec_values(&self) -> Seq<Seq<char>> {
        self.valid_values@.map_values(|s: String| s@)
    }

    pub closed spec fn spec_case_sensitive(&self) -> bool {
        self.case_sensitive
    }

    pub fn new() -> (b: Self)
        ensures
            b.spec_values() == Seq::<Seq<char>>::empty(),
            b.spec_case_sensitive(),
    {
        let b = LookupValidatorBuilder { valid_values: Vec::new(), case_sensitive: true };
        assert(b.spec_values() =~= Seq::<Seq<char>>::empty());
        b
    }

    /// Replace the list of values.
    pub fn values(self, valid_values: Vec<String>) -> (b: Self)
        ensures
            b.spec_values() == valid_values@.map_values(|s: String| s@),
            b.spec_case_sensitive() == self.spec_case_sensitive(),
    {
        LookupValidatorBuilder { valid_values, ..self }
    }

    /// Add one value at the end of the list.
    pub fn add_value(self, value: &str) -> (b: Self)
        ensures
            b.spec_values() == self.spec_values().push(value@),
            b.spec_case_sensitive() == self.spec_case_sensitive(),
    {
        let mut vals = self.valid_values;
        let chars = str_chars(value);
        vals.push(string_from_chars(&chars));
        let b = LookupValidatorBuilder { valid_values: vals, case_sensitive: self.case_sensitive };
        assert(b.spec_values() =~= self.spec_values().push(value@));
        b
    }

    pub fn case_sensitive(self, case_sensitive: bool) -> (b: Self)
        ensures
            b.spec_values() == self.spec_values(),
            b.spec_case_sensitive() == case_sensitive,
    {
        LookupValidatorBuilder { case_sensitive, ..self }
    }

    /// The validator; at least one value must have been given.
    pub fn build(self) -> (v: LookupValidator)
        requires
            self.spec_values().len() > 0,
        ensures
            v.spec_values() == self.spec_values(),
            v.spec_case_sensitive() == self.spec_case_sensitive(),
    {
        LookupValidator { valid_values: self.valid_values, case_sensitive: self.case_sensitive }
    }
}

} // verus!
